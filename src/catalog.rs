//! Discovery: from a listing of file names to the ordered migration catalog.

use vstd::prelude::*;
use crate::migration::{Migration, MigrationParseError, parse_migration_name};
use crate::text::{decimal_value, prefixed, starts_with_text};

verus! {

/// Why a listing of file names is not a migration catalog.
#[derive(Debug)]
pub enum MigrationDiscoveryError {
    /// The source could not be listed.
    Io(std::io::Error),
    /// A listed name is not a migration name.
    Parse(MigrationParseError),
    /// Two migrations carry this version.
    DuplicateVersion(u32),
    /// A listed name is not valid text.
    InvalidUtf8FileName,
}

impl MigrationDiscoveryError {
    /// Says why discovery failed, with the underlying cause.
    pub fn message(&self) -> (r: String)
        ensures
            match self {
                MigrationDiscoveryError::Io(_) => starts_with_text(r@, "failed to discover migrations from source: "@),
                MigrationDiscoveryError::Parse(e) => starts_with_text(r@, "failed to parse migration filename: "@),
                MigrationDiscoveryError::DuplicateVersion(_) => starts_with_text(r@, "duplicate migration version found: "@),
                MigrationDiscoveryError::InvalidUtf8FileName => r@ == "migration file name must be valid utf-8"@,
            },
    {
        match self {
            MigrationDiscoveryError::Io(err) => {
                prefixed("failed to discover migrations from source: ", err.to_string().as_str())
            },
            MigrationDiscoveryError::Parse(err) => {
                prefixed("failed to parse migration filename: ", err.message().as_str())
            },
            MigrationDiscoveryError::DuplicateVersion(version) => {
                prefixed("duplicate migration version found: ", version.to_string().as_str())
            },
            MigrationDiscoveryError::InvalidUtf8FileName => "migration file name must be valid utf-8".to_owned(),
        }
    }
}

pub open spec fn parses(s: Seq<char>) -> bool {
    parse_migration_name(s) is Ok
}

pub open spec fn version_of(s: Seq<char>) -> u32 {
    match parse_migration_name(s) {
        Ok(p) => p.0,
        Err(_) => 0,
    }
}

/// `m` is the migration that the file name `s` describes.
pub open spec fn describes(m: Migration, s: Seq<char>) -> bool {
    parse_migration_name(s) == Ok::<(u32, Seq<char>), MigrationParseError>((m.version, m.name@))
        && m.file_name@ == s
}

pub open spec fn all_parse(names: Seq<String>) -> bool {
    forall|j: int| 0 <= j < names.len() ==> parses(#[trigger] names[j]@)
}

/// Two different entries of the listing carry the same version.
pub open spec fn shares_version(names: Seq<String>, i: int, j: int) -> bool {
    0 <= i < names.len() && 0 <= j < names.len() && i != j
        && version_of(names[i]@) == version_of(names[j]@)
}

pub open spec fn strictly_ascending(ms: Seq<Migration>) -> bool {
    forall|a: int, b: int| 0 <= a < b < ms.len() ==> ms[a].version < ms[b].version
}

/// The outcome of discovery over a listing, in words: the first name that
/// does not parse fails it; else the smallest version that two names share
/// fails it; else the result holds one migration per name, ascending by
/// version.
pub open spec fn discovery_ok(names: Seq<String>, ms: Seq<Migration>) -> bool {
    &&& all_parse(names)
    &&& forall|i: int, j: int| !shares_version(names, i, j)
    &&& ms.len() == names.len()
    &&& strictly_ascending(ms)
    &&& lists_each(names, ms)
}

/// Every name of the listing is described by some migration of `ms`.
pub open spec fn lists_each(names: Seq<String>, ms: Seq<Migration>) -> bool {
    forall|j: int| 0 <= j < names.len() ==> #[trigger] listed(names[j]@, ms)
}

pub open spec fn listed(s: Seq<char>, ms: Seq<Migration>) -> bool {
    exists|k: int| 0 <= k < ms.len() && describes(#[trigger] ms[k], s)
}

pub open spec fn discovery_parse_failure(names: Seq<String>, e: MigrationParseError) -> bool {
    exists|i: int|
        0 <= i < names.len() && parse_migration_name(#[trigger] names[i]@) == Err::<(u32, Seq<char>), MigrationParseError>(e)
            && forall|j: int| 0 <= j < i ==> parses(#[trigger] names[j]@)
}

pub open spec fn discovery_duplicate(names: Seq<String>, v: u32) -> bool {
    &&& all_parse(names)
    &&& exists|i: int, j: int| shares_version(names, i, j) && version_of(names[i]@) == v
    &&& forall|i: int, j: int| shares_version(names, i, j) ==> v <= version_of(names[i]@)
}


/// Leading zeros do not change a version: `0001` and `1` are the same number.
pub proof fn lemma_zero_padding_keeps_version(d: Seq<char>)
    ensures
        decimal_value(seq!['0'] + d) == decimal_value(d),
    decreases d.len(),
{
    if d.len() > 0 {
        let z = seq!['0'] + d;
        assert(z.drop_last() =~= seq!['0'] + d.drop_last());
        assert(z.last() == d.last());
        lemma_zero_padding_keeps_version(d.drop_last());
    } else {
        let z = seq!['0'] + d;
        assert(z =~= seq!['0']);
        assert(z.drop_last() =~= Seq::<char>::empty());
        assert(decimal_value(z) == decimal_value(z.drop_last()) * 10 + ((z.last() as u32) - ('0' as u32)) as nat);
    }
}

/// A listing in which every name parses and two names carry the same
/// version (whatever their padding) is never a catalog: discovery can only
/// end in the duplicate-version error.
pub proof fn lemma_shared_version_is_rejected(names: Seq<String>, i: int, j: int)
    requires
        all_parse(names),
        shares_version(names, i, j),
    ensures
        forall|ms: Seq<Migration>| !discovery_ok(names, ms),
        forall|e: MigrationParseError| !discovery_parse_failure(names, e),
        exists|v: u32| v <= version_of(names[i]@) && discovery_duplicate(names, v),
{
    assert forall|e: MigrationParseError| !discovery_parse_failure(names, e) by {
        if discovery_parse_failure(names, e) {
            let k = choose|k: int| 0 <= k < names.len() && parse_migration_name(#[trigger] names[k]@) == Err::<(u32, Seq<char>), MigrationParseError>(e)
                && forall|j: int| 0 <= j < k ==> parses(#[trigger] names[j]@);
            assert(parses(names[k]@));
        }
    }
    lemma_smallest_shared_version(names, i, j);
}

proof fn lemma_smallest_shared_version(names: Seq<String>, x: int, y: int)
    requires
        all_parse(names),
        shares_version(names, x, y),
    ensures
        exists|v: u32| v <= version_of(names[x]@) && discovery_duplicate(names, v),
    decreases version_of(names[x]@),
{
    let w = version_of(names[x]@);
    if !discovery_duplicate(names, w) {
        let (a, b) = choose|a: int, b: int| shares_version(names, a, b) && !(w <= version_of(names[a]@));
        lemma_smallest_shared_version(names, a, b);
    }
}

/// The catalog that discovery returns is ordered by ascending version.
pub proof fn lemma_catalog_is_sorted(names: Seq<String>, ms: Seq<Migration>)
    requires
        discovery_ok(names, ms),
    ensures
        forall|a: int, b: int| 0 <= a < b < ms.len() ==> ms[a].version < ms[b].version,
{
}

impl Migration {
    /// Builds the catalog from a listing of file names: every name is parsed
    /// (the first failure aborts), the migrations are ordered by version, and
    /// a version carried by two files is rejected.
    pub fn from_file_names(names: &Vec<String>) -> (r: Result<Vec<Migration>, MigrationDiscoveryError>)
        ensures
            match r {
                Ok(ms) => discovery_ok(names@, ms@),
                Err(MigrationDiscoveryError::Parse(e)) => discovery_parse_failure(names@, e),
                Err(MigrationDiscoveryError::DuplicateVersion(v)) => discovery_duplicate(names@, v),
                Err(_) => false,
            },
    {
        let mut ms: Vec<Migration> = Vec::new();
        let ghost mut pos: Seq<int> = Seq::empty();
        let ghost mut src: Seq<int> = Seq::empty();
        let n = names.len();
        let mut i: usize = 0;
        while i < n
            invariant
                n == names@.len(),
                i <= n,
                ms@.len() == i,
                pos.len() == i,
                src.len() == i,
                forall|j: int| 0 <= j < i ==> parses(#[trigger] names@[j]@),
                forall|j: int| 0 <= j < i ==> 0 <= #[trigger] pos[j] < i && src[pos[j]] == j,
                forall|q: int| 0 <= q < i ==> 0 <= #[trigger] src[q] < i && pos[src[q]] == q,
                forall|q: int| 0 <= q < i ==> describes(#[trigger] ms@[q], names@[src[q]]@),
                forall|a: int, b: int| 0 <= a < b < i ==> ms@[a].version <= ms@[b].version,
            decreases n - i,
        {
            let m = match Migration::from_file_name(names[i].as_str()) {
                Ok(m) => m,
                Err(e) => {
                    return Err(MigrationDiscoveryError::Parse(e));
                },
            };
            let mut p: usize = ms.len();
            while p > 0 && ms[p - 1].version > m.version
                invariant
                    p <= ms@.len(),
                    forall|q: int| p <= q < ms@.len() ==> ms@[q].version > m.version,
                decreases p,
            {
                p = p - 1;
            }
            let ghost old_ms = ms@;
            let ghost old_pos = pos;
            let ghost old_src = src;
            let ghost ii = i as int;
            let ghost pp = p as int;
            ms.insert(p, m);
            proof {
                src = old_src.insert(pp, ii);
                pos = Seq::new((ii + 1) as nat, |j: int|
                    if j == ii { pp } else if old_pos[j] >= pp { old_pos[j] + 1 } else { old_pos[j] });
                assert forall|j: int| 0 <= j < ii + 1 implies 0 <= #[trigger] pos[j] < ii + 1 && src[pos[j]] == j by {
                    if j < ii {
                        assert(old_src[old_pos[j]] == j);
                    }
                }
                assert forall|q: int| 0 <= q < ii + 1 implies 0 <= #[trigger] src[q] < ii + 1 && pos[src[q]] == q by {
                    if q < pp {
                        assert(src[q] == old_src[q]);
                    } else if q > pp {
                        assert(src[q] == old_src[q - 1]);
                    }
                }
                assert forall|q: int| 0 <= q < ii + 1 implies describes(#[trigger] ms@[q], names@[src[q]]@) by {
                    if q < pp {
                        assert(ms@[q] == old_ms[q]);
                    } else if q > pp {
                        assert(ms@[q] == old_ms[q - 1]);
                    }
                }
                assert forall|a: int, b: int| 0 <= a < b < ii + 1 implies ms@[a].version <= ms@[b].version by {
                    if pp > 0 && a < pp {
                        assert(old_ms[a].version <= old_ms[pp - 1].version);
                    }
                }
            }
            i = i + 1;
        }
        let mut t: usize = 0;
        while n > 0 && t < n - 1
            invariant
                ms@.len() == n,
                n == names@.len(),
                t < n || n == 0,
                pos.len() == n,
                src.len() == n,
                forall|j: int| 0 <= j < n ==> parses(#[trigger] names@[j]@),
                forall|j: int| 0 <= j < n ==> 0 <= #[trigger] pos[j] < n && src[pos[j]] == j,
                forall|q: int| 0 <= q < n ==> 0 <= #[trigger] src[q] < n && pos[src[q]] == q,
                forall|q: int| 0 <= q < n ==> describes(#[trigger] ms@[q], names@[src[q]]@),
                forall|a: int, b: int| 0 <= a < b < n ==> ms@[a].version <= ms@[b].version,
                forall|a: int, b: int| 0 <= a < b <= t && b < n ==> ms@[a].version < ms@[b].version,
            decreases n - t,
        {
            if ms[t].version == ms[t + 1].version {
                let v = ms[t].version;
                proof {
                    let i1 = src[t as int];
                    let j1 = src[t + 1];
                    assert(describes(ms@[t as int], names@[i1]@));
                    assert(describes(ms@[t + 1], names@[j1]@));
                    assert(shares_version(names@, i1, j1));
                    assert forall|x: int, y: int| shares_version(names@, x, y) implies v <= version_of(names@[x]@) by {
                        let a = pos[x];
                        let b = pos[y];
                        assert(describes(ms@[a], names@[x]@));
                        assert(describes(ms@[b], names@[y]@));
                        if a < b && b <= t {
                            assert(ms@[a].version < ms@[b].version);
                        } else if b < a && a <= t {
                            assert(ms@[b].version < ms@[a].version);
                        } else if a <= t && b <= t {
                        } else if a > t {
                            assert(ms@[t + 1].version <= ms@[a].version);
                        } else {
                            assert(ms@[t + 1].version <= ms@[b].version);
                        }
                    }
                }
                return Err(MigrationDiscoveryError::DuplicateVersion(v));
            }
            t = t + 1;
        }
        proof {
            assert forall|a: int, b: int| 0 <= a < b < ms@.len() implies ms@[a].version < ms@[b].version by {
                if b > t {
                    assert(false);
                }
            }
            assert forall|x: int, y: int| !shares_version(names@, x, y) by {
                if shares_version(names@, x, y) {
                    let a = pos[x];
                    let b = pos[y];
                    assert(describes(ms@[a], names@[x]@));
                    assert(describes(ms@[b], names@[y]@));
                    if a < b {
                        assert(ms@[a].version < ms@[b].version);
                    } else {
                        assert(ms@[b].version < ms@[a].version);
                    }
                }
            }
            assert forall|j: int| 0 <= j < names@.len() implies #[trigger] listed(names@[j]@, ms@) by {
                let w = pos[j];
                assert(describes(ms@[w], names@[j]@));
            }
            assert(discovery_ok(names@, ms@));
        }
        Ok(ms)
    }
}

} // verus!
