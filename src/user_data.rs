//! The user's data directory: where the database and the content-addressed
//! statement files live, and the decisions of adding a statement document.

use vstd::prelude::*;
use vstd::string::*;
use crate::catalog::MigrationDiscoveryError;
use crate::migration::extension_dot;
use crate::outside::{sha256_of, Sha256Stream};
use crate::records::{Statement, StatementWriteError};
use crate::source::MigrationContentError;
use crate::text::{find_last_char, joined3, last_index_of, lemma_last_index_bounds, prefixed, starts_with_text};

verus! {

pub const APP_DIR_NAME: &'static str = "tally42";

pub const DB_FILE_NAME: &'static str = "tally42.db";

pub const STATEMENTS_DIR_NAME: &'static str = "statements";

pub const TEMP_FILE_PREFIX: &'static str = ".tmp-statement-";

/// Where one user's data lives: the data directory and the database file in
/// it. Paths are held as text.
#[derive(Debug)]
pub struct UserDataManager {
    data_dir: String,
    db_path: String,
}

/// Why a migration run stopped.
#[derive(Debug)]
pub enum MigrationRunnerError {
    Content(MigrationContentError),
    Sql(rusqlite::Error),
    /// The caller reported an outcome that does not answer the pending step.
    OutOfOrder,
}

/// Why the database could not be opened and brought to the current schema.
#[derive(Debug)]
pub enum DbError {
    Open(rusqlite::Error),
    DiscoverMigrations(MigrationDiscoveryError),
    RunMigrations(MigrationRunnerError),
}

#[derive(Debug)]
pub enum UserDataError {
    MissingHomeDir,
    CreateDataDir(std::io::Error),
    DeleteDatabase(std::io::Error),
    OpenDb(DbError),
}

/// Why adding a statement document failed, step by step.
#[derive(Debug)]
pub enum AddStatementError {
    OpenSource(std::io::Error),
    CreateTempFile(std::io::Error),
    ReadSource(std::io::Error),
    WriteTempFile(std::io::Error),
    TempFileMetadata(std::io::Error),
    FileTooLarge(u64),
    DuplicateFileHash { hash: String, path: String },
    RenameToFinal(std::io::Error),
    OpenDb(DbError),
    PrepareUserData(UserDataError),
    InsertStatement(StatementWriteError),
    InsertStatementCleanupFailed {
        insert_error: StatementWriteError,
        cleanup_error: std::io::Error,
        path: String,
    },
    /// The caller reported an outcome that does not answer the pending step.
    OutOfOrder,
}

impl MigrationRunnerError {
    /// Says why the run stopped.
    pub fn message(&self) -> (r: String)
        ensures
            match self {
                MigrationRunnerError::Content(_) => starts_with_text(r@, "failed to load migration content: "@),
                MigrationRunnerError::Sql(_) => starts_with_text(r@, "sqlite error while running migrations: "@),
                MigrationRunnerError::OutOfOrder => r@ == "migration run steps were reported out of order"@,
            },
    {
        match self {
            MigrationRunnerError::Content(err) => prefixed("failed to load migration content: ", err.message().as_str()),
            MigrationRunnerError::Sql(err) => prefixed("sqlite error while running migrations: ", err.to_string().as_str()),
            MigrationRunnerError::OutOfOrder => "migration run steps were reported out of order".to_owned(),
        }
    }
}

impl DbError {
    /// Says why the database could not be opened.
    pub fn message(&self) -> (r: String)
        ensures
            match self {
                DbError::Open(_) => starts_with_text(r@, "failed to open sqlite database: "@),
                DbError::DiscoverMigrations(_) => starts_with_text(r@, "failed to discover embedded migrations: "@),
                DbError::RunMigrations(_) => starts_with_text(r@, "failed to run embedded migrations: "@),
            },
    {
        match self {
            DbError::Open(err) => prefixed("failed to open sqlite database: ", err.to_string().as_str()),
            DbError::DiscoverMigrations(err) => prefixed("failed to discover embedded migrations: ", err.message().as_str()),
            DbError::RunMigrations(err) => prefixed("failed to run embedded migrations: ", err.message().as_str()),
        }
    }
}

impl UserDataError {
    /// Says what went wrong with the user's data directory.
    pub fn message(&self) -> (r: String)
        ensures
            match self {
                UserDataError::MissingHomeDir => r@
                    == "could not resolve user data directory: HOME is not set and XDG_DATA_HOME is absent"@,
                UserDataError::CreateDataDir(_) => starts_with_text(r@, "failed to create data directory: "@),
                UserDataError::DeleteDatabase(_) => starts_with_text(r@, "failed to delete sqlite database: "@),
                UserDataError::OpenDb(_) => starts_with_text(r@, "failed to initialize sqlite database: "@),
            },
    {
        match self {
            UserDataError::MissingHomeDir => {
                "could not resolve user data directory: HOME is not set and XDG_DATA_HOME is absent".to_owned()
            },
            UserDataError::CreateDataDir(err) => prefixed("failed to create data directory: ", err.to_string().as_str()),
            UserDataError::DeleteDatabase(err) => prefixed("failed to delete sqlite database: ", err.to_string().as_str()),
            UserDataError::OpenDb(err) => prefixed("failed to initialize sqlite database: ", err.message().as_str()),
        }
    }
}

impl AddStatementError {
    /// Says which step of adding the document failed, and why.
    pub fn message(&self) -> (r: String)
        ensures
            match self {
                AddStatementError::OpenSource(_) => starts_with_text(r@, "failed to open source statement file: "@),
                AddStatementError::CreateTempFile(_) => starts_with_text(r@, "failed to create temp statement file: "@),
                AddStatementError::ReadSource(_) => starts_with_text(r@, "failed while reading source statement file: "@),
                AddStatementError::WriteTempFile(_) => starts_with_text(r@, "failed while writing managed statement file: "@),
                AddStatementError::TempFileMetadata(_) => starts_with_text(r@, "failed to read temp statement file metadata: "@),
                AddStatementError::FileTooLarge(_) => starts_with_text(r@, "statement file too large for i64 size: "@),
                AddStatementError::DuplicateFileHash { hash, path } => r@
                    == "statement file with hash '"@ + hash@ + "' already exists at "@ + path@,
                AddStatementError::RenameToFinal(_) => starts_with_text(r@, "failed to finalize managed statement file: "@),
                AddStatementError::OpenDb(_) => starts_with_text(r@, "failed to open database for statement ingest: "@),
                AddStatementError::PrepareUserData(_) => starts_with_text(r@, "failed to prepare user data for statement ingest: "@),
                AddStatementError::InsertStatement(_) => starts_with_text(r@, "failed to insert statement row: "@),
                AddStatementError::InsertStatementCleanupFailed { .. } => starts_with_text(r@, "failed to insert statement row ("@),
                AddStatementError::OutOfOrder => r@ == "statement ingest steps were reported out of order"@,
            },
    {
        match self {
            AddStatementError::OpenSource(err) => prefixed("failed to open source statement file: ", err.to_string().as_str()),
            AddStatementError::CreateTempFile(err) => prefixed("failed to create temp statement file: ", err.to_string().as_str()),
            AddStatementError::ReadSource(err) => prefixed("failed while reading source statement file: ", err.to_string().as_str()),
            AddStatementError::WriteTempFile(err) => {
                prefixed("failed while writing managed statement file: ", err.to_string().as_str())
            },
            AddStatementError::TempFileMetadata(err) => {
                prefixed("failed to read temp statement file metadata: ", err.to_string().as_str())
            },
            AddStatementError::FileTooLarge(size) => prefixed("statement file too large for i64 size: ", size.to_string().as_str()),
            AddStatementError::DuplicateFileHash { hash, path } => {
                let head = joined3("statement file with hash '", hash.as_str(), "' already exists at ");
                prefixed(head.as_str(), path.as_str())
            },
            AddStatementError::RenameToFinal(err) => prefixed("failed to finalize managed statement file: ", err.to_string().as_str()),
            AddStatementError::OpenDb(err) => prefixed("failed to open database for statement ingest: ", err.message().as_str()),
            AddStatementError::PrepareUserData(err) => {
                prefixed("failed to prepare user data for statement ingest: ", err.message().as_str())
            },
            AddStatementError::InsertStatement(err) => prefixed("failed to insert statement row: ", err.message().as_str()),
            AddStatementError::InsertStatementCleanupFailed { insert_error, cleanup_error, path } => {
                let head = joined3("failed to insert statement row (", insert_error.message().as_str(), ") and failed to remove copied file ");
                let tail = joined3(path.as_str(), ": ", cleanup_error.to_string().as_str());
                let r = prefixed(head.as_str(), tail.as_str());
                proof {
                    let p = "failed to insert statement row ("@;
                    assert(head@.subrange(0, p.len() as int) == p);
                    assert(r@.subrange(0, p.len() as int) =~= head@.subrange(0, p.len() as int));
                }
                r
            },
            AddStatementError::OutOfOrder => "statement ingest steps were reported out of order".to_owned(),
        }
    }
}

/// `base` joined with `part` as a path: an absolute `part` replaces `base`;
/// otherwise one `/` separates them unless `base` is empty or ends in one.
pub open spec fn path_join(base: Seq<char>, part: Seq<char>) -> Seq<char> {
    if part.len() > 0 && part[0] == '/' {
        part
    } else if base.len() == 0 || base.last() == '/' {
        base + part
    } else {
        base + seq!['/'] + part
    }
}

/// The stem of a file name: all before its last dot, unless that dot leads.
pub open spec fn file_stem(b: Seq<char>) -> Seq<char> {
    if extension_dot(b) > 0 {
        b.subrange(0, extension_dot(b))
    } else {
        b
    }
}

/// The extension of the last component of a path, if it has a non-empty one.
pub open spec fn source_extension(p: Seq<char>) -> Option<Seq<char>> {
    let b = p.subrange(last_index_of(p, '/') + 1, p.len() as int);
    let k = extension_dot(b);
    if k > 0 && k + 1 < b.len() {
        Some(b.subrange(k + 1, b.len() as int))
    } else {
        None
    }
}

/// Whether the path names a TOML document: its extension is `toml`, in any
/// letter case.
pub open spec fn is_toml_path(p: Seq<char>) -> bool {
    match source_extension(p) {
        Some(e) => e.len() == 4 && (e[0] == 't' || e[0] == 'T') && (e[1] == 'o' || e[1] == 'O')
            && (e[2] == 'm' || e[2] == 'M') && (e[3] == 'l' || e[3] == 'L'),
        None => false,
    }
}

/// The name under which a document with digest `hash` is stored: the digest,
/// with the source's extension when it has one.
pub open spec fn stored_name(hash: Seq<char>, source: Seq<char>) -> Seq<char> {
    match source_extension(source) {
        Some(e) => hash + seq!['.'] + e,
        None => hash,
    }
}

/// The index of the first name in `files` whose stem is `hash`, or -1.
pub open spec fn stem_match(files: Seq<String>, hash: Seq<char>) -> int
    decreases files.len(),
{
    if files.len() == 0 {
        -1
    } else if file_stem(files[0]@) == hash {
        0
    } else {
        let r = stem_match(files.drop_first(), hash);
        if r < 0 {
            -1
        } else {
            r + 1
        }
    }
}

pub open spec fn is_lower_hex_digit(c: char) -> bool {
    ('0' <= c && c <= '9') || ('a' <= c && c <= 'f')
}

pub open spec fn hex_digit_value(c: char) -> int {
    if '0' <= c && c <= '9' {
        (c as u32) - ('0' as u32)
    } else {
        (c as u32) - ('a' as u32) + 10
    }
}

/// `t` is `b` written in lowercase hexadecimal, two digits per byte, high
/// digit first.
pub open spec fn is_lower_hex_of(t: Seq<char>, b: Seq<u8>) -> bool {
    &&& t.len() == 2 * b.len()
    &&& forall|i: int| 0 <= i < t.len() ==> is_lower_hex_digit(#[trigger] t[i])
    &&& forall|i: int| 0 <= i < b.len() ==> hex_digit_value(t[2 * i]) * 16 + hex_digit_value(t[2 * i + 1]) == #[trigger] b[i]
}

proof fn lemma_first_stem_match(files: Seq<String>, hash: Seq<char>, i: int)
    requires
        0 <= i <= files.len(),
        i < files.len() ==> file_stem(files[i]@) == hash,
        forall|j: int| 0 <= j < i ==> file_stem(#[trigger] files[j]@) != hash,
    ensures
        stem_match(files, hash) == (if i == files.len() { -1 } else { i }),
    decreases files.len(),
{
    if files.len() > 0 && file_stem(files[0]@) != hash {
        let t = files.drop_first();
        assert forall|j: int| 0 <= j < i - 1 implies file_stem(#[trigger] t[j]@) != hash by {
            assert(t[j] == files[j + 1]);
        }
        lemma_first_stem_match(t, hash, i - 1);
    }
}

fn join_path(base: &str, part: &str) -> (r: String)
    ensures
        r@ == path_join(base@, part@),
{
    let pn = part.unicode_len();
    if pn > 0 && part.get_char(0) == '/' {
        return part.to_owned();
    }
    let n = base.unicode_len();
    let mut out = base.to_owned();
    if n > 0 && base.get_char(n - 1) != '/' {
        out.append("/");
        proof {
            reveal_strlit("/");
        }
    }
    out.append(part);
    proof {
        if n > 0 && base@.last() != '/' {
            assert(out@ =~= base@ + seq!['/'] + part@);
        }
    }
    out
}

fn stem_of(name: &str) -> (r: String)
    ensures
        r@ == file_stem(name@),
{
    proof {
        lemma_last_index_bounds(name@, '.');
    }
    match find_last_char(name, '.') {
        Some(k) => {
            if k > 0 {
                name.substring_char(0, k).to_owned()
            } else {
                name.to_owned()
            }
        },
        None => name.to_owned(),
    }
}

fn extension_of(path: &str) -> (r: Option<String>)
    ensures
        match source_extension(path@) {
            Some(e) => r is Some && r.unwrap()@ == e,
            None => r is None,
        },
{
    let n = path.unicode_len();
    proof {
        lemma_last_index_bounds(path@, '/');
    }
    let start = match find_last_char(path, '/') {
        Some(i) => i + 1,
        None => 0,
    };
    let base = path.substring_char(start, n);
    let bn = base.unicode_len();
    proof {
        lemma_last_index_bounds(base@, '.');
    }
    match find_last_char(base, '.') {
        Some(k) => {
            if k > 0 && k + 1 < bn {
                Some(base.substring_char(k + 1, bn).to_owned())
            } else {
                None
            }
        },
        None => None,
    }
}

/// Whether `path` names a TOML document, by its extension in any case.
pub fn is_toml_file(path: &str) -> (r: bool)
    ensures
        r == is_toml_path(path@),
{
    match extension_of(path) {
        Some(e) => {
            let t = e.as_str();
            if t.unicode_len() != 4 {
                return false;
            }
            let c0 = t.get_char(0);
            let c1 = t.get_char(1);
            let c2 = t.get_char(2);
            let c3 = t.get_char(3);
            (c0 == 't' || c0 == 'T') && (c1 == 'o' || c1 == 'O') && (c2 == 'm' || c2 == 'M') && (c3 == 'l' || c3 == 'L')
        },
        None => false,
    }
}

/// Accepts the size of a copied document when the stored size field, an
/// `i64`, can hold it.
pub fn check_file_size(len: u64) -> (r: Result<i64, AddStatementError>)
    ensures
        len <= i64::MAX as u64 <==> r is Ok,
        match r {
            Ok(v) => v as int == len as int,
            Err(AddStatementError::FileTooLarge(x)) => x == len,
            Err(_) => false,
        },
{
    if len <= i64::MAX as u64 {
        Ok(len as i64)
    } else {
        Err(AddStatementError::FileTooLarge(len))
    }
}

/// A clean rollback reports the insert error alone; a failed removal
/// reports both, with the path of the file left behind.
pub open spec fn insert_failure_spec(
    insert_error: StatementWriteError,
    cleanup: Result<(), std::io::Error>,
    path: String,
) -> AddStatementError {
    match cleanup {
        Ok(_) => AddStatementError::InsertStatement(insert_error),
        Err(c) => AddStatementError::InsertStatementCleanupFailed { insert_error, cleanup_error: c, path },
    }
}

/// The error of a statement insert that failed after its document was
/// placed, given how removing the placed file went: a clean rollback
/// reports the insert error alone; a failed removal reports both, with the
/// path of the file left behind.
pub fn insert_failure(
    insert_error: StatementWriteError,
    cleanup: Result<(), std::io::Error>,
    path: String,
) -> (r: AddStatementError)
    ensures
        r == insert_failure_spec(insert_error, cleanup, path),
{
    match cleanup {
        Ok(()) => AddStatementError::InsertStatement(insert_error),
        Err(cleanup_error) => AddStatementError::InsertStatementCleanupFailed {
            insert_error,
            cleanup_error,
            path,
        },
    }
}

proof fn lemma_no_dot(s: Seq<char>)
    requires
        forall|i: int| 0 <= i < s.len() ==> is_lower_hex_digit(#[trigger] s[i]),
    ensures
        last_index_of(s, '.') == -1,
    decreases s.len(),
{
    if s.len() > 0 {
        assert(is_lower_hex_digit(s[s.len() - 1]));
        lemma_no_dot(s.drop_last());
    }
}

proof fn lemma_stem_match_found(files: Seq<String>, hash: Seq<char>, i: int)
    requires
        0 <= i < files.len(),
        file_stem(files[i]@) == hash,
    ensures
        0 <= stem_match(files, hash) <= i,
    decreases files.len(),
{
    if file_stem(files[0]@) != hash {
        let t = files.drop_first();
        assert(t[i - 1] == files[i]);
        lemma_stem_match_found(t, hash, i - 1);
    }
}

/// A document stored under its digest is found again by the duplicate
/// lookup, with or without an extension: once the store lists the stored
/// name, a second document with the same bytes (the same digest) meets a
/// stored file and is refused as a duplicate.
pub proof fn lemma_stored_document_is_found(hash: Seq<char>, source: Seq<char>, files: Seq<String>, i: int)
    requires
        hash.len() > 0,
        forall|k: int| 0 <= k < hash.len() ==> is_lower_hex_digit(#[trigger] hash[k]),
        0 <= i < files.len(),
        files[i]@ == stored_name(hash, source),
    ensures
        file_stem(stored_name(hash, source)) == hash,
        0 <= stem_match(files, hash) <= i,
{
    lemma_no_dot(hash);
    let name = stored_name(hash, source);
    match source_extension(source) {
        Some(e) => {
            let b = source.subrange(last_index_of(source, '/') + 1, source.len() as int);
            lemma_last_index_bounds(b, '.');
            let k = extension_dot(b);
            assert(e == b.subrange(k + 1, b.len() as int));
            assert forall|j: int| 0 <= j < e.len() implies e[j] != '.' by {
                assert(e[j] == b[k + 1 + j]);
                lemma_after_last_has_no(b, '.', k + 1 + j);
            }
            let d = hash.len() as int;
            assert(name == hash + seq!['.'] + e);
            assert forall|j: int| d < j < name.len() implies name[j] != '.' by {
                assert(name[j] == e[j - d - 1]);
            }
            lemma_last_index_is(name, '.', d);
            assert(name.subrange(0, d) =~= hash);
        },
        None => {},
    }
    lemma_stem_match_found(files, hash, i);
}

proof fn lemma_after_last_has_no(s: Seq<char>, c: char, j: int)
    requires
        last_index_of(s, c) < j < s.len(),
    ensures
        s[j] != c,
    decreases s.len(),
{
    lemma_last_index_bounds(s, c);
    if s.last() != c {
        if j < s.len() - 1 {
            assert(s.drop_last()[j] == s[j]);
            lemma_after_last_has_no(s.drop_last(), c, j);
        }
    }
}

proof fn lemma_last_index_is(s: Seq<char>, c: char, i: int)
    requires
        0 <= i < s.len(),
        s[i] == c,
        forall|j: int| i < j < s.len() ==> s[j] != c,
    ensures
        last_index_of(s, c) == i,
    decreases s.len(),
{
    if s.last() != c {
        let t = s.drop_last();
        assert forall|j: int| i < j < t.len() implies t[j] != c by {
            assert(t[j] == s[j]);
        }
        lemma_last_index_is(t, c, i);
    }
}

impl UserDataManager {
    pub closed spec fn data_dir_text(&self) -> Seq<char> {
        self.data_dir@
    }

    pub closed spec fn db_path_text(&self) -> Seq<char> {
        self.db_path@
    }

    pub open spec fn statements_dir_text(&self) -> Seq<char> {
        path_join(self.data_dir_text(), STATEMENTS_DIR_NAME@)
    }

    /// The layout rooted at `data_dir`: the database is `tally42.db` in it.
    pub fn from_data_dir(data_dir: &str) -> (r: UserDataManager)
        ensures
            r.data_dir_text() == data_dir@,
            r.db_path_text() == path_join(data_dir@, DB_FILE_NAME@),
    {
        UserDataManager { data_dir: data_dir.to_owned(), db_path: join_path(data_dir, DB_FILE_NAME) }
    }

    /// The layout under the data home: `$XDG_DATA_HOME/tally42` when that
    /// variable is set, else `$HOME/.local/share/tally42`; with neither, the
    /// directory cannot be resolved. The caller reads the two variables.
    pub fn from_environment(xdg_data_home: Option<String>, home: Option<String>) -> (r: Result<UserDataManager, UserDataError>)
        ensures
            match (xdg_data_home, home) {
                (Some(x), _) => r is Ok && r.unwrap().data_dir_text() == path_join(x@, APP_DIR_NAME@),
                (None, Some(h)) => r is Ok && r.unwrap().data_dir_text()
                    == path_join(path_join(path_join(h@, ".local"@), "share"@), APP_DIR_NAME@),
                (None, None) => r matches Err(UserDataError::MissingHomeDir),
            },
            r is Ok ==> r.unwrap().db_path_text() == path_join(r.unwrap().data_dir_text(), DB_FILE_NAME@),
    {
        match xdg_data_home {
            Some(x) => {
                let dir = join_path(x.as_str(), APP_DIR_NAME);
                Ok(UserDataManager::from_data_dir(dir.as_str()))
            },
            None => match home {
                Some(h) => {
                    let local = join_path(h.as_str(), ".local");
                    let share = join_path(local.as_str(), "share");
                    let dir = join_path(share.as_str(), APP_DIR_NAME);
                    Ok(UserDataManager::from_data_dir(dir.as_str()))
                },
                None => Err(UserDataError::MissingHomeDir),
            },
        }
    }

    pub fn data_dir(&self) -> (r: &str)
        ensures
            r@ == self.data_dir_text(),
    {
        self.data_dir.as_str()
    }

    pub fn db_path(&self) -> (r: &str)
        ensures
            r@ == self.db_path_text(),
    {
        self.db_path.as_str()
    }

    /// The managed directory of statement documents: `statements` in the
    /// data directory.
    pub fn statements_dir(&self) -> (r: String)
        ensures
            r@ == self.statements_dir_text(),
    {
        join_path(self.data_dir.as_str(), STATEMENTS_DIR_NAME)
    }

    /// Where a document is copied before it is known to be new: a name in
    /// the statements directory made of a fixed prefix and `token`.
    pub fn temp_file_path(&self, token: &str) -> (r: String)
        ensures
            r@ == path_join(self.statements_dir_text(), TEMP_FILE_PREFIX@ + token@),
    {
        let mut name = TEMP_FILE_PREFIX.to_owned();
        name.append(token);
        let dir = self.statements_dir();
        join_path(dir.as_str(), name.as_str())
    }

    /// The path a document with digest `file_hash` gets when it comes from
    /// `source_path`: the digest, plus the source's extension if non-empty.
    pub fn statement_file_path_for_source(&self, file_hash: &str, source_path: &str) -> (r: String)
        ensures
            r@ == path_join(self.statements_dir_text(), stored_name(file_hash@, source_path@)),
    {
        let dir = self.statements_dir();
        let name = match extension_of(source_path) {
            Some(ext) => {
                let mut name = file_hash.to_owned();
                name.append(".");
                name.append(ext.as_str());
                proof {
                    reveal_strlit(".");
                }
                name
            },
            None => file_hash.to_owned(),
        };
        join_path(dir.as_str(), name.as_str())
    }

    /// The stored file for digest `file_hash`, found by name or by stem, if
    /// any. `exact_exists` says whether the statements directory holds an
    /// entry named exactly `file_hash`; `files` are the names of its regular
    /// files, in listing order.
    pub fn find_statement_file_path(&self, file_hash: &str, exact_exists: bool, files: &Vec<String>) -> (r: Option<String>)
        ensures
            exact_exists ==> r is Some && r.unwrap()@ == path_join(self.statements_dir_text(), file_hash@),
            !exact_exists ==> match r {
                Some(p) => stem_match(files@, file_hash@) >= 0
                    && p@ == path_join(self.statements_dir_text(), files@[stem_match(files@, file_hash@)]@),
                None => stem_match(files@, file_hash@) == -1,
            },
    {
        let dir = self.statements_dir();
        if exact_exists {
            return Some(join_path(dir.as_str(), file_hash));
        }
        let wanted = file_hash.to_owned();
        let n = files.len();
        let mut i: usize = 0;
        while i < n
            invariant
                n == files@.len(),
                i <= n,
                wanted@ == file_hash@,
                !exact_exists,
                dir@ == self.statements_dir_text(),
                forall|j: int| 0 <= j < i ==> file_stem(#[trigger] files@[j]@) != file_hash@,
            decreases n - i,
        {
            let stem = stem_of(files[i].as_str());
            if stem == wanted {
                proof {
                    lemma_first_stem_match(files@, file_hash@, i as int);
                }
                return Some(join_path(dir.as_str(), files[i].as_str()));
            }
            i = i + 1;
        }
        proof {
            lemma_first_stem_match(files@, file_hash@, n as int);
        }
        None
    }

    /// Where the document with digest `file_hash` is stored, found by name
    /// or stem as `find_statement_file_path` does; when none is stored, the
    /// extensionless path it would have.
    pub fn statement_file_path(&self, file_hash: &str, exact_exists: bool, files: &Vec<String>) -> (r: String)
        ensures
            (exact_exists || stem_match(files@, file_hash@) == -1) ==> r@ == path_join(self.statements_dir_text(), file_hash@),
            (!exact_exists && stem_match(files@, file_hash@) >= 0) ==> r@ == path_join(
                self.statements_dir_text(),
                files@[stem_match(files@, file_hash@)]@,
            ),
    {
        match self.find_statement_file_path(file_hash, exact_exists, files) {
            Some(p) => p,
            None => {
                let dir = self.statements_dir();
                join_path(dir.as_str(), file_hash)
            },
        }
    }
}

/// SHA-256 over a document that arrives in chunks, giving the digest as
/// lowercase hexadecimal text.
pub struct ContentHasher {
    stream: Sha256Stream,
}

/// `t` is the SHA-256 digest of `b` in lowercase hexadecimal.
pub open spec fn is_sha256_hex_of(t: Seq<char>, b: Seq<u8>) -> bool {
    is_lower_hex_of(t, sha256_of(b))
}

impl ContentHasher {
    /// The bytes taken so far, in order.
    pub closed spec fn fed(&self) -> Seq<u8> {
        self.stream.fed()
    }

    pub fn new() -> (r: ContentHasher)
        ensures
            r.fed() == Seq::<u8>::empty(),
    {
        ContentHasher { stream: Sha256Stream::start() }
    }

    /// Takes the next chunk of the document.
    pub fn update(&mut self, chunk: &[u8])
        ensures
            final(self).fed() == old(self).fed() + chunk@,
    {
        self.stream.feed(chunk);
    }

    /// The SHA-256 digest of everything taken, as 64 lowercase hexadecimal
    /// digits.
    pub fn finish_hex(self) -> (r: String)
        ensures
            is_sha256_hex_of(r@, self.fed()),
            r@.len() == 64,
    {
        let digest = self.stream.digest();
        lower_hex(&digest)
    }
}

/// `bytes` in lowercase hexadecimal, two digits per byte, high digit first.
pub fn lower_hex(bytes: &Vec<u8>) -> (r: String)
    ensures
        is_lower_hex_of(r@, bytes@),
{
    let digits: &str = "0123456789abcdef";
    proof {
        reveal_strlit("0123456789abcdef");
    }
    assert(digits@.len() == 16);
    assert(forall|k: int| 0 <= k < 16 ==> is_lower_hex_digit(#[trigger] digits@[k]) && hex_digit_value(digits@[k]) == k);
    let mut out = String::new();
    let n = bytes.len();
    let mut i: usize = 0;
    while i < n
        invariant
            n == bytes@.len(),
            i <= n,
            digits@.len() == 16,
            forall|k: int| 0 <= k < 16 ==> is_lower_hex_digit(#[trigger] digits@[k]) && hex_digit_value(digits@[k]) == k,
            is_lower_hex_of(out@, bytes@.subrange(0, i as int)),
        decreases n - i,
    {
        let b = bytes[i];
        let hi = (b / 16) as usize;
        let lo = (b % 16) as usize;
        let ghost before = out@;
        out.append(digits.substring_char(hi, hi + 1));
        out.append(digits.substring_char(lo, lo + 1));
        proof {
            assert(out@ =~= before + seq![digits@[hi as int], digits@[lo as int]]);
            let pre = bytes@.subrange(0, i as int);
            let next = bytes@.subrange(0, i + 1);
            assert forall|k: int| 0 <= k < next.len() implies hex_digit_value(out@[2 * k]) * 16 + hex_digit_value(out@[2 * k + 1]) == #[trigger] next[k] by {
                if k < i {
                    assert(next[k] == pre[k]);
                } else {
                    assert(next[k] == b);
                }
            }
        }
        i = i + 1;
    }
    assert(bytes@.subrange(0, n as int) =~= bytes@);
    out
}

} // verus!
