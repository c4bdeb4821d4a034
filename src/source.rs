//! The migration files bundled with the library, and reading them by name.

use vstd::prelude::*;
use crate::migration::{has_sql_extension, is_sql_file_name};
use crate::text::{prefixed, starts_with_text};

verus! {

/// Why the SQL text of a migration could not be had.
#[derive(Debug)]
pub enum MigrationContentError {
    /// Reading the file failed.
    Io(std::io::Error),
    /// No bundled file has this name.
    MissingEmbeddedFile(String),
    /// The bundled file with this name is not valid text.
    NonUtf8EmbeddedFile(String),
}

impl MigrationContentError {
    /// Says why the text could not be had.
    pub fn message(&self) -> (r: String)
        ensures
            match self {
                MigrationContentError::Io(_) => starts_with_text(r@, "failed to read migration sql content: "@),
                MigrationContentError::MissingEmbeddedFile(n) => r@ == "embedded migration file not found: "@ + n@,
                MigrationContentError::NonUtf8EmbeddedFile(n) => r@ == "embedded migration file is not valid utf-8: "@ + n@,
            },
    {
        match self {
            MigrationContentError::Io(err) => prefixed("failed to read migration sql content: ", err.to_string().as_str()),
            MigrationContentError::MissingEmbeddedFile(name) => {
                prefixed("embedded migration file not found: ", name.as_str())
            },
            MigrationContentError::NonUtf8EmbeddedFile(name) => {
                prefixed("embedded migration file is not valid utf-8: ", name.as_str())
            },
        }
    }
}

/// One bundled file: its name and its text.
#[derive(Debug)]
pub struct EmbeddedFile {
    pub path: String,
    pub contents: String,
}

/// A fixed, read-only set of named files shipped inside the program.
#[derive(Debug)]
pub struct EmbeddedMigrations {
    pub files: Vec<EmbeddedFile>,
}

pub const ACCOUNTS_MIGRATION_NAME: &'static str = "0001_add_accounts_table.sql";

pub const ACCOUNTS_MIGRATION_SQL: &'static str = "CREATE TABLE IF NOT EXISTS accounts (
    id TEXT PRIMARY KEY NOT NULL,
    parent_id TEXT REFERENCES accounts(id),
    name TEXT NOT NULL,
    currency TEXT NOT NULL,
    is_closed INTEGER NOT NULL DEFAULT 0 CHECK (is_closed IN (0, 1)),
    created_at TEXT NOT NULL DEFAULT (datetime('now')),
    UNIQUE (parent_id, name)
);
";

pub const STATEMENTS_MIGRATION_NAME: &'static str = "0002_add_statements_table.sql";

pub const STATEMENTS_MIGRATION_SQL: &'static str = "CREATE TABLE IF NOT EXISTS statements (
    id TEXT PRIMARY KEY NOT NULL,
    institution TEXT NOT NULL,
    account_id TEXT NOT NULL REFERENCES accounts(id),
    period_start TEXT NOT NULL,
    period_end TEXT NOT NULL,
    currency TEXT NOT NULL,
    file_hash TEXT NOT NULL,
    file_size INTEGER NOT NULL,
    imported_at TEXT NOT NULL DEFAULT (datetime('now')),
    replaced_by TEXT REFERENCES statements(id)
);
";

pub const NOTE_MIGRATION_NAME: &'static str = "0003_add_account_note.sql";

pub const NOTE_MIGRATION_SQL: &'static str = "ALTER TABLE accounts ADD COLUMN note TEXT;
";

/// The names, in order, of the files of `fs` with a `.sql` extension, in
/// any letter case.
pub open spec fn sql_names(fs: Seq<EmbeddedFile>) -> Seq<Seq<char>>
    decreases fs.len(),
{
    if fs.len() == 0 {
        Seq::empty()
    } else {
        let rest = sql_names(fs.drop_last());
        if has_sql_extension(fs.last().path@) {
            rest.push(fs.last().path@)
        } else {
            rest
        }
    }
}

/// Index of the first file of `fs` named `name`, or -1.
pub open spec fn file_index(fs: Seq<EmbeddedFile>, name: Seq<char>) -> int
    decreases fs.len(),
{
    if fs.len() == 0 {
        -1
    } else if fs[0].path@ == name {
        0
    } else {
        let r = file_index(fs.drop_first(), name);
        if r < 0 {
            -1
        } else {
            r + 1
        }
    }
}

proof fn lemma_file_index(fs: Seq<EmbeddedFile>, name: Seq<char>, i: int)
    requires
        0 <= i <= fs.len(),
        i < fs.len() ==> fs[i].path@ == name,
        forall|j: int| 0 <= j < i ==> fs[j].path@ != name,
    ensures
        file_index(fs, name) == (if i == fs.len() { -1 } else { i }),
    decreases fs.len(),
{
    if fs.len() > 0 && fs[0].path@ != name {
        let t = fs.drop_first();
        assert forall|j: int| 0 <= j < i - 1 implies t[j].path@ != name by {
            assert(t[j] == fs[j + 1]);
        }
        lemma_file_index(t, name, i - 1);
    }
}

impl EmbeddedMigrations {
    /// The migrations that ship with the library.
    pub fn bundled() -> (r: EmbeddedMigrations)
        ensures
            r.files@.len() == 3,
            r.files@[0].path@ == ACCOUNTS_MIGRATION_NAME@,
            r.files@[1].path@ == STATEMENTS_MIGRATION_NAME@,
            r.files@[2].path@ == NOTE_MIGRATION_NAME@,
            r.files@[0].contents@ == ACCOUNTS_MIGRATION_SQL@,
            r.files@[1].contents@ == STATEMENTS_MIGRATION_SQL@,
            r.files@[2].contents@ == NOTE_MIGRATION_SQL@,
    {
        let mut files: Vec<EmbeddedFile> = Vec::new();
        files.push(EmbeddedFile {
            path: ACCOUNTS_MIGRATION_NAME.to_owned(),
            contents: ACCOUNTS_MIGRATION_SQL.to_owned(),
        });
        files.push(EmbeddedFile {
            path: STATEMENTS_MIGRATION_NAME.to_owned(),
            contents: STATEMENTS_MIGRATION_SQL.to_owned(),
        });
        files.push(EmbeddedFile {
            path: NOTE_MIGRATION_NAME.to_owned(),
            contents: NOTE_MIGRATION_SQL.to_owned(),
        });
        EmbeddedMigrations { files }
    }

    /// The names of the bundled files with a `.sql` extension (any letter
    /// case), in bundle order.
    pub fn migration_files(&self) -> (r: Vec<String>)
        ensures
            r@.map_values(|s: String| s@) == sql_names(self.files@),
    {
        let mut out: Vec<String> = Vec::new();
        let n = self.files.len();
        let mut i: usize = 0;
        while i < n
            invariant
                n == self.files@.len(),
                i <= n,
                out@.map_values(|s: String| s@) == sql_names(self.files@.subrange(0, i as int)),
            decreases n - i,
        {
            let ghost pre = self.files@.subrange(0, i as int);
            let ghost next = self.files@.subrange(0, i + 1);
            assert(next.drop_last() == pre);
            let f = &self.files[i];
            if is_sql_file_name(f.path.as_str()) {
                out.push(f.path.clone());
                assert(out@.map_values(|s: String| s@) =~= sql_names(pre).push(f.path@));
            }
            i = i + 1;
        }
        assert(self.files@.subrange(0, n as int) == self.files@);
        out
    }

    /// The text of the bundled file named `file_name`.
    pub fn read_file_utf8(&self, file_name: &str) -> (r: Result<String, MigrationContentError>)
        ensures
            match r {
                Ok(c) => file_index(self.files@, file_name@) >= 0
                    && c@ == self.files@[file_index(self.files@, file_name@)].contents@,
                Err(MigrationContentError::MissingEmbeddedFile(n)) => file_index(self.files@, file_name@) == -1
                    && n@ == file_name@,
                Err(_) => false,
            },
    {
        let wanted = file_name.to_owned();
        let n = self.files.len();
        let mut i: usize = 0;
        while i < n
            invariant
                n == self.files@.len(),
                i <= n,
                wanted@ == file_name@,
                forall|j: int| 0 <= j < i ==> self.files@[j].path@ != file_name@,
            decreases n - i,
        {
            if self.files[i].path == wanted {
                proof {
                    lemma_file_index(self.files@, file_name@, i as int);
                }
                return Ok(self.files[i].contents.clone());
            }
            i = i + 1;
        }
        proof {
            lemma_file_index(self.files@, file_name@, n as int);
        }
        Err(MigrationContentError::MissingEmbeddedFile(wanted))
    }
}

} // verus!
