//! What a migration run applies, given the ledger of applied versions.

use vstd::prelude::*;
use crate::migration::Migration;
use crate::source::MigrationContentError;
use crate::user_data::MigrationRunnerError;

verus! {

/// Creates the ledger of applied migrations when it is absent.
pub const LEDGER_TABLE_SQL: &'static str = "CREATE TABLE IF NOT EXISTS schema_migrations (
    version INTEGER PRIMARY KEY,
    name TEXT NOT NULL,
    applied_at TEXT NOT NULL DEFAULT (datetime('now'))
);
";

/// Records one applied migration: its version, then its name.
pub const LEDGER_INSERT_SQL: &'static str = "INSERT INTO schema_migrations(version, name) VALUES (?1, ?2)";

/// Reads the versions that the ledger holds.
pub const LEDGER_VERSIONS_SQL: &'static str = "SELECT version FROM schema_migrations";

pub open spec fn versions(ms: Seq<Migration>) -> Seq<u32> {
    ms.map_values(|m: Migration| m.version)
}

/// The positions, among the first `n` entries of the catalog `vs`, of those
/// whose version the ledger does not hold, in catalog order.
pub open spec fn pending_upto(vs: Seq<u32>, ledger: Set<u32>, n: int) -> Seq<int>
    decreases n,
{
    if n <= 0 {
        Seq::empty()
    } else {
        let p = pending_upto(vs, ledger, n - 1);
        if ledger.contains(vs[n - 1]) {
            p
        } else {
            p.push(n - 1)
        }
    }
}

pub open spec fn pending(vs: Seq<u32>, ledger: Set<u32>) -> Seq<int> {
    pending_upto(vs, ledger, vs.len() as int)
}

/// The ledger after a run of the catalog `vs` in which every pending
/// migration was applied and recorded.
pub open spec fn ledger_after(vs: Seq<u32>, ledger: Set<u32>) -> Set<u32> {
    ledger.union(vs.to_set())
}

/// The positions of the catalog entries that a run applies, in order: those
/// whose version the ledger (`applied`) does not hold. The others are skipped
/// without reading or executing them.
pub fn pending_migrations(migrations: &Vec<Migration>, applied: &Vec<u32>) -> (r: Vec<usize>)
    ensures
        r@.map_values(|i: usize| i as int) == pending(versions(migrations@), applied@.to_set()),
        forall|j: int| 0 <= j < r@.len() ==> (#[trigger] r@[j] as int) < migrations@.len(),
{
    let mut vs: Vec<u32> = Vec::new();
    let mut i: usize = 0;
    while i < migrations.len()
        invariant
            i <= migrations@.len(),
            vs@ == versions(migrations@).subrange(0, i as int),
        decreases migrations@.len() - i,
    {
        vs.push(migrations[i].version);
        assert(vs@ =~= versions(migrations@).subrange(0, i + 1));
        i = i + 1;
    }
    assert(vs@ =~= versions(migrations@));
    versions_pending(&vs, applied)
}

/// The positions in the catalog versions `vs` whose version the ledger
/// (`applied`) does not hold, in order.
fn versions_pending(vs: &Vec<u32>, applied: &Vec<u32>) -> (r: Vec<usize>)
    ensures
        r@.map_values(|i: usize| i as int) == pending(vs@, applied@.to_set()),
        forall|j: int| 0 <= j < r@.len() ==> (#[trigger] r@[j] as int) < vs@.len(),
{
    let ghost ledger = applied@.to_set();
    let n = vs.len();
    let mut out: Vec<usize> = Vec::new();
    let mut i: usize = 0;
    while i < n
        invariant
            n == vs@.len(),
            ledger == applied@.to_set(),
            i <= n,
            out@.map_values(|i: usize| i as int) == pending_upto(vs@, ledger, i as int),
            forall|j: int| 0 <= j < out@.len() ==> (#[trigger] out@[j] as int) < i,
        decreases n - i,
    {
        let v = vs[i];
        let mut found = false;
        let mut j: usize = 0;
        while j < applied.len()
            invariant
                j <= applied@.len(),
                found <==> exists|k: int| 0 <= k < j && applied@[k] == v,
            decreases applied@.len() - j,
        {
            if applied[j] == v {
                found = true;
            }
            j = j + 1;
        }
        proof {
            if found {
                let k = choose|k: int| 0 <= k < j && applied@[k] == v;
                assert(applied@.contains(v));
            } else {
                assert(!applied@.contains(v));
            }
        }
        if !found {
            out.push(i);
            assert(out@.map_values(|i: usize| i as int) =~= pending_upto(vs@, ledger, i as int).push(i as int));
        }
        i = i + 1;
    }
    out
}

/// Where a migration run stands: at a position in its list of pending
/// migrations.
#[derive(Debug, PartialEq, Eq, Structural)]
pub enum RunStage {
    Starting,
    Reading(usize),
    Executing(usize),
    Recording(usize),
    Done,
}

/// What the caller reports back during a run.
#[derive(Debug)]
pub enum RunEvent {
    /// The ledger exists; the versions it holds (or the engine's error).
    LedgerReady(Result<Vec<u32>, rusqlite::Error>),
    /// The SQL text of the pending migration, or why it could not be read.
    ContentRead(Result<String, MigrationContentError>),
    /// The SQL text ran as one batch (or failed).
    Executed(Result<(), rusqlite::Error>),
    /// The ledger row for the migration was inserted (or not).
    Recorded(Result<(), rusqlite::Error>),
}

/// What the caller does next during a run.
#[derive(Debug)]
pub enum RunAction {
    /// Create the ledger if absent and read the versions it holds.
    PrepareLedger,
    /// Read the SQL text of the migration file with this name.
    Read { file_name: String },
    /// Run this SQL text as one batch.
    Execute { sql: String },
    /// Insert the ledger row for this migration.
    Record { version: u32, name: String },
    /// Stop, with this result.
    Finish(Result<(), MigrationRunnerError>),
}

/// One run of a catalog against a database: each pending migration is read,
/// executed and then recorded, in catalog order; the first failure ends the
/// run, so the ledger holds exactly the migrations that succeeded.
pub struct MigrationRun {
    versions: Vec<u32>,
    names: Vec<String>,
    files: Vec<String>,
    pending: Vec<usize>,
    stage: RunStage,
}

impl MigrationRun {
    pub closed spec fn versions(&self) -> Seq<u32> {
        self.versions@
    }

    pub closed spec fn name(&self, i: int) -> Seq<char> {
        self.names@[i]@
    }

    pub closed spec fn file(&self, i: int) -> Seq<char> {
        self.files@[i]@
    }

    /// The catalog positions still to apply, fixed once the ledger is read.
    pub closed spec fn pending(&self) -> Seq<int> {
        self.pending@.map_values(|i: usize| i as int)
    }

    pub closed spec fn stage(&self) -> RunStage {
        self.stage
    }

    pub closed spec fn wf(&self) -> bool {
        &&& self.names@.len() == self.versions@.len()
        &&& self.files@.len() == self.versions@.len()
        &&& forall|j: int| 0 <= j < self.pending@.len() ==> (#[trigger] self.pending@[j] as int) < self.versions@.len()
        &&& match self.stage {
            RunStage::Reading(k) => k < self.pending@.len(),
            RunStage::Executing(k) => k < self.pending@.len(),
            RunStage::Recording(k) => k < self.pending@.len(),
            _ => true,
        }
    }

    /// Starts a run of the catalog `migrations`; the first action prepares
    /// the ledger.
    pub fn start(migrations: &Vec<Migration>) -> (r: (MigrationRun, RunAction))
        ensures
            r.0.wf(),
            r.0.stage() == RunStage::Starting,
            r.1 is PrepareLedger,
            r.0.versions() == versions(migrations@),
            forall|i: int| 0 <= i < migrations@.len() ==> r.0.name(i) == (#[trigger] migrations@[i]).name@
                && r.0.file(i) == migrations@[i].file_name@,
    {
        let mut vs: Vec<u32> = Vec::new();
        let mut names: Vec<String> = Vec::new();
        let mut files: Vec<String> = Vec::new();
        let mut i: usize = 0;
        while i < migrations.len()
            invariant
                i <= migrations@.len(),
                vs@ == versions(migrations@).subrange(0, i as int),
                names@.len() == i,
                files@.len() == i,
                forall|j: int| 0 <= j < i ==> (#[trigger] names@[j])@ == migrations@[j].name@
                    && files@[j]@ == migrations@[j].file_name@,
            decreases migrations@.len() - i,
        {
            vs.push(migrations[i].version);
            names.push(migrations[i].name.clone());
            files.push(migrations[i].file_name.clone());
            assert(vs@ =~= versions(migrations@).subrange(0, i + 1));
            i = i + 1;
        }
        assert(vs@ =~= versions(migrations@));
        let run = MigrationRun { versions: vs, names, files, pending: Vec::new(), stage: RunStage::Starting };
        assert forall|i: int| 0 <= i < migrations@.len() implies run.name(i) == (#[trigger] migrations@[i]).name@
            && run.file(i) == migrations@[i].file_name@ by {
            assert(run.names@[i]@ == migrations@[i].name@);
        }
        (run, RunAction::PrepareLedger)
    }

    /// Takes the outcome of the last action and gives the next one. An
    /// event that does not answer the pending action leaves the stage as it
    /// was and is answered with the out-of-order error.
    pub fn next(&mut self, event: RunEvent) -> (r: RunAction)
        requires
            old(self).wf(),
        ensures
            final(self).wf(),
            final(self).versions() == old(self).versions(),
            // A version is recorded only right after its SQL text ran.
            r is Record ==> old(self).stage() is Executing && event matches RunEvent::Executed(Ok(_)),
            match (old(self).stage(), event) {
                (RunStage::Starting, RunEvent::LedgerReady(Err(e))) =>
                    r == RunAction::Finish(Err(MigrationRunnerError::Sql(e))) && final(self).stage() == RunStage::Done,
                (RunStage::Starting, RunEvent::LedgerReady(Ok(applied))) =>
                    final(self).pending() == pending(old(self).versions(), applied@.to_set())
                    && if final(self).pending().len() == 0 {
                        r == RunAction::Finish(Ok(())) && final(self).stage() == RunStage::Done
                    } else {
                        r matches RunAction::Read { file_name }
                            && file_name@ == old(self).file(final(self).pending()[0])
                            && final(self).stage() == RunStage::Reading(0)
                    },
                (RunStage::Reading(_), RunEvent::ContentRead(Err(e))) =>
                    r == RunAction::Finish(Err(MigrationRunnerError::Content(e))) && final(self).stage() == RunStage::Done,
                (RunStage::Reading(k), RunEvent::ContentRead(Ok(sql))) =>
                    r == (RunAction::Execute { sql }) && final(self).stage() == RunStage::Executing(k)
                        && final(self).pending() == old(self).pending(),
                (RunStage::Executing(_), RunEvent::Executed(Err(e))) =>
                    r == RunAction::Finish(Err(MigrationRunnerError::Sql(e))) && final(self).stage() == RunStage::Done,
                (RunStage::Executing(k), RunEvent::Executed(Ok(_))) =>
                    r matches RunAction::Record { version, name }
                        && version == old(self).versions()[old(self).pending()[k as int]]
                        && name@ == old(self).name(old(self).pending()[k as int])
                        && final(self).stage() == RunStage::Recording(k)
                        && final(self).pending() == old(self).pending(),
                (RunStage::Recording(_), RunEvent::Recorded(Err(e))) =>
                    r == RunAction::Finish(Err(MigrationRunnerError::Sql(e))) && final(self).stage() == RunStage::Done,
                (RunStage::Recording(k), RunEvent::Recorded(Ok(_))) =>
                    final(self).pending() == old(self).pending()
                    && if k + 1 < old(self).pending().len() {
                        r matches RunAction::Read { file_name }
                            && file_name@ == old(self).file(old(self).pending()[k + 1])
                            && final(self).stage() == RunStage::Reading((k + 1) as usize)
                    } else {
                        r == RunAction::Finish(Ok(())) && final(self).stage() == RunStage::Done
                    },
                (other, _) => r == RunAction::Finish(Err(MigrationRunnerError::OutOfOrder))
                    && final(self).stage() == other && final(self).pending() == old(self).pending(),
            },
    {
        let mut stage = RunStage::Done;
        core::mem::swap(&mut stage, &mut self.stage);
        match (stage, event) {
            (RunStage::Starting, RunEvent::LedgerReady(Err(e))) => RunAction::Finish(Err(MigrationRunnerError::Sql(e))),
            (RunStage::Starting, RunEvent::LedgerReady(Ok(applied))) => {
                self.pending = versions_pending(&self.versions, &applied);
                if self.pending.len() == 0 {
                    RunAction::Finish(Ok(()))
                } else {
                    self.stage = RunStage::Reading(0);
                    RunAction::Read { file_name: self.files[self.pending[0]].clone() }
                }
            },
            (RunStage::Reading(_), RunEvent::ContentRead(Err(e))) => RunAction::Finish(Err(MigrationRunnerError::Content(e))),
            (RunStage::Reading(k), RunEvent::ContentRead(Ok(sql))) => {
                self.stage = RunStage::Executing(k);
                RunAction::Execute { sql }
            },
            (RunStage::Executing(_), RunEvent::Executed(Err(e))) => RunAction::Finish(Err(MigrationRunnerError::Sql(e))),
            (RunStage::Executing(k), RunEvent::Executed(Ok(()))) => {
                let p = self.pending[k];
                self.stage = RunStage::Recording(k);
                RunAction::Record { version: self.versions[p], name: self.names[p].clone() }
            },
            (RunStage::Recording(_), RunEvent::Recorded(Err(e))) => RunAction::Finish(Err(MigrationRunnerError::Sql(e))),
            (RunStage::Recording(k), RunEvent::Recorded(Ok(()))) => {
                assert(k < self.pending@.len());
                if k < self.pending.len() - 1 {
                    self.stage = RunStage::Reading(k + 1);
                    RunAction::Read { file_name: self.files[self.pending[k + 1]].clone() }
                } else {
                    RunAction::Finish(Ok(()))
                }
            },
            (other, _) => {
                self.stage = other;
                RunAction::Finish(Err(MigrationRunnerError::OutOfOrder))
            },
        }
    }
}

proof fn lemma_pending_none(vs: Seq<u32>, ledger: Set<u32>, n: int)
    requires
        0 <= n <= vs.len(),
        forall|i: int| 0 <= i < n ==> ledger.contains(#[trigger] vs[i]),
    ensures
        pending_upto(vs, ledger, n) == Seq::<int>::empty(),
    decreases n,
{
    if n > 0 {
        lemma_pending_none(vs, ledger, n - 1);
    }
}

proof fn lemma_pending_all(vs: Seq<u32>, n: int)
    requires
        0 <= n <= vs.len(),
    ensures
        pending_upto(vs, Set::empty(), n) =~= Seq::new(n as nat, |i: int| i),
    decreases n,
{
    if n > 0 {
        lemma_pending_all(vs, n - 1);
    }
}

/// Running a catalog against a fresh ledger applies every migration once, in
/// catalog order; a second run of the same catalog applies none; and every
/// further run leaves the ledger, and so the applied count, as it was.
pub proof fn lemma_runs_are_idempotent(vs: Seq<u32>)
    requires
        vs.no_duplicates(),
    ensures
        pending(vs, Set::empty()) =~= Seq::new(vs.len(), |i: int| i),
        pending(vs, ledger_after(vs, Set::empty())) == Seq::<int>::empty(),
        ledger_after(vs, ledger_after(vs, Set::empty())) == ledger_after(vs, Set::empty()),
        ledger_after(vs, Set::empty()).len() == vs.len(),
{
    lemma_pending_all(vs, vs.len() as int);
    let l1 = ledger_after(vs, Set::empty());
    assert forall|i: int| 0 <= i < vs.len() implies l1.contains(#[trigger] vs[i]) by {
        assert(vs.to_set().contains(vs[i]));
    }
    lemma_pending_none(vs, l1, vs.len() as int);
    assert(ledger_after(vs, l1) =~= l1);
    assert(l1 =~= vs.to_set());
    vs.unique_seq_to_set();
}

} // verus!
