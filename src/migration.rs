//! Migration descriptors: parsing `<VERSION>_<NAME>.sql` file names.

use vstd::prelude::*;
use vstd::string::*;
use crate::source::{EmbeddedMigrations, MigrationContentError, file_index};
use crate::text::{
    all_ascii_digits, decimal_value, find_first_char, find_last_char, first_index_of,
    last_index_of, parse_decimal_u32, lemma_first_index_bounds, lemma_last_index_bounds,
};

verus! {

/// One schema migration, found by its file name.
#[derive(Debug)]
pub struct Migration {
    pub version: u32,
    pub name: String,
    pub file_name: String,
}

/// Why a file name is not a migration name.
#[derive(Debug, PartialEq, Eq, Structural)]
pub enum MigrationParseError {
    /// The name does not end in `.sql` (any letter case).
    InvalidExtension,
    /// The stem is not `<VERSION>_<NAME>` with both parts non-empty.
    InvalidFilename,
    /// The version part is not a decimal number that fits in a `u32`.
    InvalidVersion,
}

impl MigrationParseError {
    /// Says what is wrong with the name.
    pub fn message(&self) -> (r: String)
        ensures
            match self {
                MigrationParseError::InvalidExtension => r@ == "migration file extension must be .sql"@,
                MigrationParseError::InvalidFilename => r@ == "migration filename must be <VERSION>_<NAME>.sql"@,
                MigrationParseError::InvalidVersion => r@ == "invalid migration version: not a decimal u32"@,
            },
    {
        match self {
            MigrationParseError::InvalidExtension => "migration file extension must be .sql".to_owned(),
            MigrationParseError::InvalidFilename => "migration filename must be <VERSION>_<NAME>.sql".to_owned(),
            MigrationParseError::InvalidVersion => "invalid migration version: not a decimal u32".to_owned(),
        }
    }
}

/// The last path component of `s`: what follows its last `/`.
pub open spec fn base_name(s: Seq<char>) -> Seq<char> {
    s.subrange(last_index_of(s, '/') + 1, s.len() as int)
}

/// Position of the dot that starts the extension of a base name, or a
/// non-positive value when it has none (a leading dot starts no extension).
pub open spec fn extension_dot(b: Seq<char>) -> int {
    last_index_of(b, '.')
}

pub open spec fn is_sql_extension(e: Seq<char>) -> bool {
    &&& e.len() == 3
    &&& (e[0] == 's' || e[0] == 'S')
    &&& (e[1] == 'q' || e[1] == 'Q')
    &&& (e[2] == 'l' || e[2] == 'L')
}

/// Whether the base name of `s` carries the `sql` extension, in any case.
pub open spec fn has_sql_extension(s: Seq<char>) -> bool {
    let b = base_name(s);
    let k = extension_dot(b);
    k > 0 && is_sql_extension(b.subrange(k + 1, b.len() as int))
}

/// What a migration file name stands for: its version and its name, or the
/// kind of defect.
pub open spec fn parse_migration_name(s: Seq<char>) -> Result<(u32, Seq<char>), MigrationParseError> {
    let b = base_name(s);
    if !has_sql_extension(s) {
        Err(MigrationParseError::InvalidExtension)
    } else {
        let stem = b.subrange(0, extension_dot(b));
        let u = first_index_of(stem, '_');
        if u <= 0 || u == stem.len() - 1 {
            Err(MigrationParseError::InvalidFilename)
        } else {
            let v = stem.subrange(0, u);
            if !all_ascii_digits(v) || decimal_value(v) > u32::MAX {
                Err(MigrationParseError::InvalidVersion)
            } else {
                Ok((decimal_value(v) as u32, stem.subrange(u + 1, stem.len() as int)))
            }
        }
    }
}

/// Whether `file_name` ends in a `.sql` extension, in any letter case.
pub fn is_sql_file_name(file_name: &str) -> (r: bool)
    ensures
        r == has_sql_extension(file_name@),
{
    proof {
        lemma_last_index_bounds(file_name@, '/');
    }
    let n = file_name.unicode_len();
    let start = match find_last_char(file_name, '/') {
        Some(i) => i + 1,
        None => 0,
    };
    let base = file_name.substring_char(start, n);
    proof {
        lemma_last_index_bounds(base@, '.');
    }
    let dot = match find_last_char(base, '.') {
        Some(k) => k,
        None => 0,
    };
    let bn = base.unicode_len();
    if dot == 0 || bn - dot - 1 != 3 {
        return false;
    }
    let e0 = base.get_char(dot + 1);
    let e1 = base.get_char(dot + 2);
    let e2 = base.get_char(dot + 3);
    (e0 == 's' || e0 == 'S') && (e1 == 'q' || e1 == 'Q') && (e2 == 'l' || e2 == 'L')
}

impl Migration {
    /// The SQL text of this migration, read from the bundled files when it
    /// is needed.
    pub fn sql(&self, source: &EmbeddedMigrations) -> (r: Result<String, MigrationContentError>)
        ensures
            match r {
                Ok(c) => file_index(source.files@, self.file_name@) >= 0
                    && c@ == source.files@[file_index(source.files@, self.file_name@)].contents@,
                Err(MigrationContentError::MissingEmbeddedFile(n)) => file_index(source.files@, self.file_name@) == -1
                    && n@ == self.file_name@,
                Err(_) => false,
            },
    {
        source.read_file_utf8(self.file_name.as_str())
    }

    /// Parses the migration file at `path`, by the last component of the
    /// path; the path itself is kept as the migration's file name.
    pub fn from_file(path: &str) -> (r: Result<Migration, MigrationParseError>)
        ensures
            match r {
                Ok(m) => parse_migration_name(path@) == Ok::<(u32, Seq<char>), MigrationParseError>((m.version, m.name@))
                    && m.file_name@ == path@,
                Err(e) => parse_migration_name(path@) == Err::<(u32, Seq<char>), MigrationParseError>(e),
            },
    {
        Migration::from_file_name(path)
    }

    /// Parses a migration file name such as `0001_create_accounts.sql`.
    pub fn from_file_name(file_name: &str) -> (r: Result<Migration, MigrationParseError>)
        ensures
            match r {
                Ok(m) => parse_migration_name(file_name@) == Ok::<(u32, Seq<char>), MigrationParseError>((m.version, m.name@))
                    && m.file_name@ == file_name@,
                Err(e) => parse_migration_name(file_name@) == Err::<(u32, Seq<char>), MigrationParseError>(e),
            },
    {
        if !is_sql_file_name(file_name) {
            return Err(MigrationParseError::InvalidExtension);
        }
        proof {
            lemma_last_index_bounds(file_name@, '/');
        }
        let n = file_name.unicode_len();
        let start = match find_last_char(file_name, '/') {
            Some(i) => i + 1,
            None => 0,
        };
        let base = file_name.substring_char(start, n);
        assert(base@ == base_name(file_name@));
        proof {
            lemma_last_index_bounds(base@, '.');
        }
        let dot = match find_last_char(base, '.') {
            Some(k) => k,
            None => 0,
        };
        let stem = base.substring_char(0, dot);
        proof {
            lemma_first_index_bounds(stem@, '_');
        }
        let u = match find_first_char(stem, '_') {
            Some(u) => u,
            None => {
                return Err(MigrationParseError::InvalidFilename);
            },
        };
        let sn = stem.unicode_len();
        if u == 0 || u == sn - 1 {
            return Err(MigrationParseError::InvalidFilename);
        }
        let version_text = stem.substring_char(0, u);
        let name_text = stem.substring_char(u + 1, sn);
        match parse_decimal_u32(version_text) {
            Some(version) => Ok(Migration {
                version,
                name: name_text.to_owned(),
                file_name: file_name.to_owned(),
            }),
            None => Err(MigrationParseError::InvalidVersion),
        }
    }
}

} // verus!
