//! Accounts and statements, and how rows of the database become them.

use vstd::prelude::*;
use crate::outside::{parse_uuid, uuid_from_text, uuid_text};
use crate::text::{joined3, prefixed, starts_with_text};

verus! {

/// One account. Ids are UUIDs, held as their 128-bit value. `parent_id` is
/// `None` for a root; `currency` is an opaque token; `created_at` is
/// assigned by the database.
#[derive(Debug)]
pub struct Account {
    pub id: u128,
    pub parent_id: Option<u128>,
    pub name: String,
    pub currency: String,
    pub is_closed: bool,
    pub created_at: String,
    pub note: Option<String>,
}

/// One imported statement document, recorded against an account. Ids are
/// UUIDs, held as their 128-bit value.
#[derive(Debug)]
pub struct Statement {
    pub id: u128,
    pub institution: String,
    pub account_id: u128,
    pub period_start: String,
    pub period_end: String,
    pub currency: String,
    pub file_hash: String,
    pub file_size: i64,
    pub imported_at: String,
    pub replaced_by: Option<u128>,
}

/// What the caller says about a statement document being added.
#[derive(Debug)]
pub struct AddStatementInput {
    pub institution: String,
    pub account_id: u128,
    pub period_start: String,
    pub period_end: String,
    pub currency: String,
    pub replaced_by: Option<u128>,
}

/// A row of the `accounts` table, as text and integers.
#[derive(Debug)]
pub struct AccountRow {
    pub id: String,
    pub parent_id: Option<String>,
    pub name: String,
    pub currency: String,
    pub is_closed: i64,
    pub created_at: String,
    pub note: Option<String>,
}

/// A row of the `statements` table, as text and integers.
#[derive(Debug)]
pub struct StatementRow {
    pub id: String,
    pub institution: String,
    pub account_id: String,
    pub period_start: String,
    pub period_end: String,
    pub currency: String,
    pub file_hash: String,
    pub file_size: i64,
    pub imported_at: String,
    pub replaced_by: Option<String>,
}

#[derive(Debug)]
pub enum AccountListError {
    Sql(rusqlite::Error),
    InvalidId { value: String, source: uuid::Error },
    InvalidParentId { value: String, source: uuid::Error },
}

#[derive(Debug)]
pub enum AccountWriteError {
    Sql(rusqlite::Error),
    ReadBack(AccountListError),
    NotFound(u128),
}

#[derive(Debug)]
pub enum StatementListError {
    Sql(rusqlite::Error),
    InvalidId { value: String, source: uuid::Error },
    InvalidAccountId { value: String, source: uuid::Error },
    InvalidReplacedById { value: String, source: uuid::Error },
}

#[derive(Debug)]
pub enum StatementWriteError {
    Sql(rusqlite::Error),
    ReadBack(StatementListError),
    NotFound(u128),
}

impl AccountListError {
    /// Says why the account rows could not be read.
    pub fn message(&self) -> (r: String)
        ensures
            match self {
                AccountListError::Sql(_) => starts_with_text(r@, "sqlite error while listing accounts: "@),
                AccountListError::InvalidId { value, .. } => starts_with_text(r@, "invalid account id UUID '"@ + value@ + "': "@),
                AccountListError::InvalidParentId { value, .. } => starts_with_text(
                    r@,
                    "invalid parent account id UUID '"@ + value@ + "': "@,
                ),
            },
    {
        match self {
            AccountListError::Sql(err) => prefixed("sqlite error while listing accounts: ", err.to_string().as_str()),
            AccountListError::InvalidId { value, source } => {
                let head = joined3("invalid account id UUID '", value.as_str(), "': ");
                prefixed(head.as_str(), source.to_string().as_str())
            },
            AccountListError::InvalidParentId { value, source } => {
                let head = joined3("invalid parent account id UUID '", value.as_str(), "': ");
                prefixed(head.as_str(), source.to_string().as_str())
            },
        }
    }
}

impl AccountWriteError {
    /// Says why the account write failed.
    pub fn message(&self) -> (r: String)
        ensures
            match self {
                AccountWriteError::Sql(_) => starts_with_text(r@, "sqlite error while writing account: "@),
                AccountWriteError::ReadBack(_) => starts_with_text(r@, "failed to read back account after write: "@),
                AccountWriteError::NotFound(_) => starts_with_text(r@, "account not found: "@),
            },
    {
        match self {
            AccountWriteError::Sql(err) => prefixed("sqlite error while writing account: ", err.to_string().as_str()),
            AccountWriteError::ReadBack(err) => {
                prefixed("failed to read back account after write: ", err.message().as_str())
            },
            AccountWriteError::NotFound(id) => prefixed("account not found: ", uuid_text(*id).as_str()),
        }
    }
}

impl StatementListError {
    /// Says why the statement rows could not be read.
    pub fn message(&self) -> (r: String)
        ensures
            match self {
                StatementListError::Sql(_) => starts_with_text(r@, "sqlite error while listing statements: "@),
                StatementListError::InvalidId { value, .. } => starts_with_text(r@, "invalid statement id UUID '"@ + value@ + "': "@),
                StatementListError::InvalidAccountId { value, .. } => starts_with_text(
                    r@,
                    "invalid statement account_id UUID '"@ + value@ + "': "@,
                ),
                StatementListError::InvalidReplacedById { value, .. } => starts_with_text(
                    r@,
                    "invalid statement replaced_by UUID '"@ + value@ + "': "@,
                ),
            },
    {
        match self {
            StatementListError::Sql(err) => prefixed("sqlite error while listing statements: ", err.to_string().as_str()),
            StatementListError::InvalidId { value, source } => {
                let head = joined3("invalid statement id UUID '", value.as_str(), "': ");
                prefixed(head.as_str(), source.to_string().as_str())
            },
            StatementListError::InvalidAccountId { value, source } => {
                let head = joined3("invalid statement account_id UUID '", value.as_str(), "': ");
                prefixed(head.as_str(), source.to_string().as_str())
            },
            StatementListError::InvalidReplacedById { value, source } => {
                let head = joined3("invalid statement replaced_by UUID '", value.as_str(), "': ");
                prefixed(head.as_str(), source.to_string().as_str())
            },
        }
    }
}

impl StatementWriteError {
    /// Says why the statement write failed.
    pub fn message(&self) -> (r: String)
        ensures
            match self {
                StatementWriteError::Sql(_) => starts_with_text(r@, "sqlite error while writing statement: "@),
                StatementWriteError::ReadBack(_) => starts_with_text(r@, "failed to read back statement after write: "@),
                StatementWriteError::NotFound(_) => starts_with_text(r@, "statement not found: "@),
            },
    {
        match self {
            StatementWriteError::Sql(err) => prefixed("sqlite error while writing statement: ", err.to_string().as_str()),
            StatementWriteError::ReadBack(err) => {
                prefixed("failed to read back statement after write: ", err.message().as_str())
            },
            StatementWriteError::NotFound(id) => prefixed("statement not found: ", uuid_text(*id).as_str()),
        }
    }
}

pub const LIST_ACCOUNTS_SQL: &'static str = "SELECT id, parent_id, name, currency, is_closed, created_at, note
FROM accounts
ORDER BY parent_id, name, id";

pub const GET_ACCOUNT_BY_ID_SQL: &'static str = "SELECT id, parent_id, name, currency, is_closed, created_at, note
FROM accounts
WHERE id = ?1";

pub const INSERT_ACCOUNT_SQL: &'static str = "INSERT INTO accounts (id, parent_id, name, currency, is_closed, note)
VALUES (?1, ?2, ?3, ?4, 0, ?5)";

pub const RENAME_ACCOUNT_SQL: &'static str = "UPDATE accounts SET name = ?2 WHERE id = ?1";

pub const CLOSE_ACCOUNT_SQL: &'static str = "UPDATE accounts SET is_closed = 1 WHERE id = ?1";

pub const LIST_STATEMENTS_SQL: &'static str = "SELECT id, institution, account_id, period_start, period_end, currency,
  file_hash, file_size, imported_at, replaced_by
FROM statements
ORDER BY imported_at, id";

pub const GET_STATEMENT_BY_ID_SQL: &'static str = "SELECT id, institution, account_id, period_start, period_end, currency,
  file_hash, file_size, imported_at, replaced_by
FROM statements
WHERE id = ?1";

pub const INSERT_STATEMENT_SQL: &'static str = "INSERT INTO statements (id, institution, account_id, period_start,
  period_end, currency, file_hash, file_size, replaced_by)
VALUES (?1, ?2, ?3, ?4, ?5, ?6, ?7, ?8, ?9)";

/// An optional UUID column decodes: absent stays absent, text must parse.
pub open spec fn optional_uuid_ok(t: Option<String>) -> bool {
    match t {
        None => true,
        Some(s) => uuid_from_text(s@) is Some,
    }
}

pub open spec fn optional_uuid_of(t: Option<String>, u: Option<u128>) -> bool {
    match t {
        None => u is None,
        Some(s) => uuid_from_text(s@) == Some(u.unwrap()) && u is Some,
    }
}

pub open spec fn optional_text_of(t: Option<String>, u: Option<String>) -> bool {
    match t {
        None => u is None,
        Some(s) => u is Some && u.unwrap()@ == s@,
    }
}

pub open spec fn account_row_ok(row: AccountRow) -> bool {
    uuid_from_text(row.id@) is Some && optional_uuid_ok(row.parent_id)
}

/// `a` is the account that `row` holds.
pub open spec fn account_of_row(row: AccountRow, a: Account) -> bool {
    &&& uuid_from_text(row.id@) == Some(a.id)
    &&& optional_uuid_of(row.parent_id, a.parent_id)
    &&& a.name@ == row.name@
    &&& a.currency@ == row.currency@
    &&& a.is_closed == (row.is_closed != 0)
    &&& a.created_at@ == row.created_at@
    &&& optional_text_of(row.note, a.note)
}

/// The error that decoding `row` reports: the id first, then the parent id.
pub open spec fn account_row_error(row: AccountRow, e: AccountListError) -> bool {
    match e {
        AccountListError::InvalidId { value, .. } => uuid_from_text(row.id@) is None && value@ == row.id@,
        AccountListError::InvalidParentId { value, .. } => uuid_from_text(row.id@) is Some
            && row.parent_id is Some && uuid_from_text(row.parent_id.unwrap()@) is None
            && value@ == row.parent_id.unwrap()@,
        AccountListError::Sql(_) => false,
    }
}

pub open spec fn statement_row_ok(row: StatementRow) -> bool {
    uuid_from_text(row.id@) is Some && uuid_from_text(row.account_id@) is Some
        && optional_uuid_ok(row.replaced_by)
}

/// `s` is the statement that `row` holds.
pub open spec fn statement_of_row(row: StatementRow, s: Statement) -> bool {
    &&& uuid_from_text(row.id@) == Some(s.id)
    &&& s.institution@ == row.institution@
    &&& uuid_from_text(row.account_id@) == Some(s.account_id)
    &&& s.period_start@ == row.period_start@
    &&& s.period_end@ == row.period_end@
    &&& s.currency@ == row.currency@
    &&& s.file_hash@ == row.file_hash@
    &&& s.file_size == row.file_size
    &&& s.imported_at@ == row.imported_at@
    &&& optional_uuid_of(row.replaced_by, s.replaced_by)
}

/// The error that decoding `row` reports: the id, then the account id, then
/// the replacing statement's id.
pub open spec fn statement_row_error(row: StatementRow, e: StatementListError) -> bool {
    match e {
        StatementListError::InvalidId { value, .. } => uuid_from_text(row.id@) is None && value@ == row.id@,
        StatementListError::InvalidAccountId { value, .. } => uuid_from_text(row.id@) is Some
            && uuid_from_text(row.account_id@) is None && value@ == row.account_id@,
        StatementListError::InvalidReplacedById { value, .. } => uuid_from_text(row.id@) is Some
            && uuid_from_text(row.account_id@) is Some && row.replaced_by is Some
            && uuid_from_text(row.replaced_by.unwrap()@) is None
            && value@ == row.replaced_by.unwrap()@,
        StatementListError::Sql(_) => false,
    }
}

fn clone_text(t: &Option<String>) -> (r: Option<String>)
    ensures
        optional_text_of(*t, r),
{
    match t {
        None => None,
        Some(s) => Some(s.clone()),
    }
}

fn parse_optional_uuid(t: &Option<String>) -> (r: Result<Option<u128>, uuid::Error>)
    ensures
        match r {
            Ok(u) => optional_uuid_of(*t, u),
            Err(_) => !optional_uuid_ok(*t),
        },
{
    match t {
        None => Ok(None),
        Some(s) => match parse_uuid(s.as_str()) {
            Ok(u) => Ok(Some(u)),
            Err(e) => Err(e),
        },
    }
}

/// Decodes one row of the `accounts` table. Malformed UUID text is an
/// error naming the column, never coerced or dropped.
pub fn account_from_row(row: &AccountRow) -> (r: Result<Account, AccountListError>)
    ensures
        match r {
            Ok(a) => account_row_ok(*row) && account_of_row(*row, a),
            Err(e) => !account_row_ok(*row) && account_row_error(*row, e),
        },
{
    let id = match parse_uuid(row.id.as_str()) {
        Ok(u) => u,
        Err(source) => {
            return Err(AccountListError::InvalidId { value: row.id.clone(), source });
        },
    };
    let parent_id = match parse_optional_uuid(&row.parent_id) {
        Ok(p) => p,
        Err(source) => {
            let value = match &row.parent_id {
                Some(s) => s.clone(),
                None => String::new(),
            };
            return Err(AccountListError::InvalidParentId { value, source });
        },
    };
    Ok(Account {
        id,
        parent_id,
        name: row.name.clone(),
        currency: row.currency.clone(),
        is_closed: row.is_closed != 0,
        created_at: row.created_at.clone(),
        note: clone_text(&row.note),
    })
}

/// Decodes one row of the `statements` table, each UUID column with an
/// error of its own.
pub fn statement_from_row(row: &StatementRow) -> (r: Result<Statement, StatementListError>)
    ensures
        match r {
            Ok(s) => statement_row_ok(*row) && statement_of_row(*row, s),
            Err(e) => !statement_row_ok(*row) && statement_row_error(*row, e),
        },
{
    let id = match parse_uuid(row.id.as_str()) {
        Ok(u) => u,
        Err(source) => {
            return Err(StatementListError::InvalidId { value: row.id.clone(), source });
        },
    };
    let account_id = match parse_uuid(row.account_id.as_str()) {
        Ok(u) => u,
        Err(source) => {
            return Err(StatementListError::InvalidAccountId { value: row.account_id.clone(), source });
        },
    };
    let replaced_by = match parse_optional_uuid(&row.replaced_by) {
        Ok(p) => p,
        Err(source) => {
            let value = match &row.replaced_by {
                Some(s) => s.clone(),
                None => String::new(),
            };
            return Err(StatementListError::InvalidReplacedById { value, source });
        },
    };
    Ok(Statement {
        id,
        institution: row.institution.clone(),
        account_id,
        period_start: row.period_start.clone(),
        period_end: row.period_end.clone(),
        currency: row.currency.clone(),
        file_hash: row.file_hash.clone(),
        file_size: row.file_size,
        imported_at: row.imported_at.clone(),
        replaced_by,
    })
}


/// Decodes the rows of an account listing, in order; the first row that
/// does not decode fails the listing.
pub fn accounts_from_rows(rows: &Vec<AccountRow>) -> (r: Result<Vec<Account>, AccountListError>)
    ensures
        match r {
            Ok(v) => v@.len() == rows@.len() && forall|i: int| 0 <= i < rows@.len()
                ==> account_row_ok(#[trigger] rows@[i]) && account_of_row(rows@[i], v@[i]),
            Err(e) => exists|i: int| 0 <= i < rows@.len() && !account_row_ok(#[trigger] rows@[i])
                && account_row_error(rows@[i], e)
                && forall|j: int| 0 <= j < i ==> account_row_ok(#[trigger] rows@[j]),
        },
{
    let mut out: Vec<Account> = Vec::new();
    let n = rows.len();
    let mut i: usize = 0;
    while i < n
        invariant
            n == rows@.len(),
            i <= n,
            out@.len() == i,
            forall|j: int| 0 <= j < i ==> account_row_ok(#[trigger] rows@[j]) && account_of_row(rows@[j], out@[j]),
        decreases n - i,
    {
        match account_from_row(&rows[i]) {
            Ok(a) => {
                out.push(a);
            },
            Err(e) => {
                return Err(e);
            },
        }
        i = i + 1;
    }
    Ok(out)
}

/// Decodes the rows of a statement listing, in order; the first row that
/// does not decode fails the listing.
pub fn statements_from_rows(rows: &Vec<StatementRow>) -> (r: Result<Vec<Statement>, StatementListError>)
    ensures
        match r {
            Ok(v) => v@.len() == rows@.len() && forall|i: int| 0 <= i < rows@.len()
                ==> statement_row_ok(#[trigger] rows@[i]) && statement_of_row(rows@[i], v@[i]),
            Err(e) => exists|i: int| 0 <= i < rows@.len() && !statement_row_ok(#[trigger] rows@[i])
                && statement_row_error(rows@[i], e)
                && forall|j: int| 0 <= j < i ==> statement_row_ok(#[trigger] rows@[j]),
        },
{
    let mut out: Vec<Statement> = Vec::new();
    let n = rows.len();
    let mut i: usize = 0;
    while i < n
        invariant
            n == rows@.len(),
            i <= n,
            out@.len() == i,
            forall|j: int| 0 <= j < i ==> statement_row_ok(#[trigger] rows@[j]) && statement_of_row(rows@[j], out@[j]),
        decreases n - i,
    {
        match statement_from_row(&rows[i]) {
            Ok(s) => {
                out.push(s);
            },
            Err(e) => {
                return Err(e);
            },
        }
        i = i + 1;
    }
    Ok(out)
}

/// An update by id that touched no row reports the id as not found.
pub fn check_account_updated(updated: usize, id: u128) -> (r: Result<(), AccountWriteError>)
    ensures
        updated == 0 <==> r is Err,
        match r {
            Err(AccountWriteError::NotFound(x)) => x == id,
            Err(_) => false,
            Ok(_) => true,
        },
{
    if updated == 0 {
        Err(AccountWriteError::NotFound(id))
    } else {
        Ok(())
    }
}

/// The result of an account write, from the row read back by its id.
pub fn account_read_back(row: Option<AccountRow>, id: u128) -> (r: Result<Account, AccountWriteError>)
    ensures
        match row {
            None => r matches Err(AccountWriteError::NotFound(x)) && x == id,
            Some(rw) => match r {
                Ok(a) => account_row_ok(rw) && account_of_row(rw, a),
                Err(AccountWriteError::ReadBack(e)) => !account_row_ok(rw) && account_row_error(rw, e),
                Err(_) => false,
            },
        },
{
    match row {
        None => Err(AccountWriteError::NotFound(id)),
        Some(rw) => match account_from_row(&rw) {
            Ok(a) => Ok(a),
            Err(e) => Err(AccountWriteError::ReadBack(e)),
        },
    }
}

/// The result of a statement write, from the row read back by its id.
pub fn statement_read_back(row: Option<StatementRow>, id: u128) -> (r: Result<Statement, StatementWriteError>)
    ensures
        match row {
            None => r matches Err(StatementWriteError::NotFound(x)) && x == id,
            Some(rw) => match r {
                Ok(s) => statement_row_ok(rw) && statement_of_row(rw, s),
                Err(StatementWriteError::ReadBack(e)) => !statement_row_ok(rw) && statement_row_error(rw, e),
                Err(_) => false,
            },
        },
{
    match row {
        None => Err(StatementWriteError::NotFound(id)),
        Some(rw) => match statement_from_row(&rw) {
            Ok(s) => Ok(s),
            Err(e) => Err(StatementWriteError::ReadBack(e)),
        },
    }
}

} // verus!
