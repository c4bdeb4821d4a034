use tally42::records::{
    account_from_row, account_read_back, accounts_from_rows, check_account_updated,
    statement_from_row, statement_read_back, statements_from_rows, AccountListError, AccountRow,
    AccountWriteError, StatementListError, StatementRow, StatementWriteError,
};
use uuid::Uuid;

fn account_row(id: &str, parent_id: Option<&str>, name: &str, is_closed: i64, note: Option<&str>) -> AccountRow {
    AccountRow {
        id: id.to_string(),
        parent_id: parent_id.map(|p| p.to_string()),
        name: name.to_string(),
        currency: "USD".to_string(),
        is_closed,
        created_at: "2026-02-22 13:00:00".to_string(),
        note: note.map(|n| n.to_string()),
    }
}

fn statement_row(id: &str, account_id: &str, replaced_by: Option<&str>) -> StatementRow {
    StatementRow {
        id: id.to_string(),
        institution: "Bank".to_string(),
        account_id: account_id.to_string(),
        period_start: "2026-02-01".to_string(),
        period_end: "2026-02-28".to_string(),
        currency: "USD".to_string(),
        file_hash: "sha256:first".to_string(),
        file_size: 100,
        imported_at: "2026-03-01 10:00:00".to_string(),
        replaced_by: replaced_by.map(|r| r.to_string()),
    }
}

#[test]
fn account_list_accounts_returns_all_fields() {
    let row = account_row(
        "11111111-1111-1111-1111-111111111111",
        None,
        "checking",
        0,
        Some("household spending"),
    );
    let accounts = accounts_from_rows(&vec![row]).expect("list accounts");
    assert_eq!(accounts.len(), 1);
    let a = &accounts[0];
    assert_eq!(a.id, Uuid::parse_str("11111111-1111-1111-1111-111111111111").unwrap().as_u128());
    assert_eq!(a.parent_id, None);
    assert_eq!(a.name, "checking");
    assert_eq!(a.currency, "USD");
    assert!(!a.is_closed);
    assert_eq!(a.created_at, "2026-02-22 13:00:00");
    assert_eq!(a.note.as_deref(), Some("household spending"));
}

#[test]
fn account_list_accounts_maps_is_closed_to_bool() {
    let rows = vec![
        account_row("33333333-3333-3333-3333-333333333333", None, "open", 0, None),
        account_row("44444444-4444-4444-4444-444444444444", None, "closed", 1, None),
    ];
    let accounts = accounts_from_rows(&rows).expect("list accounts");
    assert!(!accounts[0].is_closed);
    assert!(accounts[1].is_closed);
}

#[test]
fn account_list_accounts_errors_on_invalid_id_uuid() {
    let rows = vec![account_row("not-a-uuid", None, "broken", 0, None)];
    let err = accounts_from_rows(&rows).expect_err("expected invalid id error");
    assert!(matches!(err, AccountListError::InvalidId { ref value, .. } if value == "not-a-uuid"));
}

#[test]
fn account_list_accounts_errors_on_invalid_parent_id_uuid() {
    let rows = vec![account_row(
        "55555555-5555-5555-5555-555555555555",
        Some("not-a-uuid"),
        "broken-child",
        0,
        None,
    )];
    let err = accounts_from_rows(&rows).expect_err("expected invalid parent id error");
    assert!(matches!(err, AccountListError::InvalidParentId { ref value, .. } if value == "not-a-uuid"));
}

#[test]
fn account_row_with_parent_decodes_parent() {
    let row = account_row(
        "aaaaaaaa-aaaa-aaaa-aaaa-aaaaaaaaaaa2",
        Some("aaaaaaaa-aaaa-aaaa-aaaa-aaaaaaaaaaa1"),
        "a-child",
        0,
        None,
    );
    let a = account_from_row(&row).expect("decode");
    assert_eq!(a.parent_id, Some(Uuid::parse_str("aaaaaaaa-aaaa-aaaa-aaaa-aaaaaaaaaaa1").unwrap().as_u128()));
    assert_eq!(a.note, None);
}

#[test]
fn account_listing_stops_at_first_bad_row() {
    let rows = vec![
        account_row("11111111-1111-1111-1111-111111111111", None, "ok", 0, None),
        account_row("bad", None, "x", 0, None),
        account_row("also-bad", None, "y", 0, None),
    ];
    let err = accounts_from_rows(&rows).expect_err("bad row");
    assert!(matches!(err, AccountListError::InvalidId { ref value, .. } if value == "bad"));
}

#[test]
fn statement_rows_map_replaced_by() {
    let first = "15151515-1515-1515-1515-151515151515";
    let second = "16161616-1616-1616-1616-161616161616";
    let account = "14141414-1414-1414-1414-141414141414";
    let rows = vec![statement_row(first, account, None), statement_row(second, account, Some(first))];
    let statements = statements_from_rows(&rows).expect("list statements");
    assert_eq!(statements.len(), 2);
    assert!(statements[0].replaced_by.is_none());
    assert_eq!(statements[1].replaced_by, Some(Uuid::parse_str(first).unwrap().as_u128()));
    assert_eq!(statements[1].account_id, Uuid::parse_str(account).unwrap().as_u128());
    assert_eq!(statements[0].file_size, 100);
    assert_eq!(statements[0].file_hash, "sha256:first");
}

#[test]
fn statement_row_errors_name_their_column() {
    let good = "15151515-1515-1515-1515-151515151515";
    let e1 = statement_from_row(&statement_row("nope", good, None)).unwrap_err();
    assert!(matches!(e1, StatementListError::InvalidId { ref value, .. } if value == "nope"));
    let e2 = statement_from_row(&statement_row(good, "nope", None)).unwrap_err();
    assert!(matches!(e2, StatementListError::InvalidAccountId { ref value, .. } if value == "nope"));
    let e3 = statement_from_row(&statement_row(good, good, Some("nope"))).unwrap_err();
    assert!(matches!(e3, StatementListError::InvalidReplacedById { ref value, .. } if value == "nope"));
}

#[test]
fn close_account_reports_not_found_when_nothing_changed() {
    let missing = Uuid::parse_str("aaaaaaaa-0000-0000-0000-000000000000").unwrap().as_u128();
    let err = check_account_updated(0, missing).expect_err("close should fail");
    assert!(matches!(err, AccountWriteError::NotFound(id) if id == missing));
    assert!(check_account_updated(1, missing).is_ok());
}

#[test]
fn read_back_of_missing_rows_is_not_found() {
    let id = Uuid::parse_str("88888888-8888-8888-8888-888888888888").unwrap().as_u128();
    assert!(matches!(account_read_back(None, id), Err(AccountWriteError::NotFound(x)) if x == id));
    assert!(matches!(statement_read_back(None, id), Err(StatementWriteError::NotFound(x)) if x == id));
}

#[test]
fn read_back_decodes_or_reports_the_row() {
    let id = Uuid::parse_str("99999999-9999-9999-9999-999999999999").unwrap().as_u128();
    let row = account_row("99999999-9999-9999-9999-999999999999", None, "card", 1, None);
    let closed = account_read_back(Some(row), id).expect("read back");
    assert!(closed.is_closed);
    assert_eq!(closed.id, id);
    let bad = account_row("broken", None, "card", 1, None);
    assert!(matches!(
        account_read_back(Some(bad), id),
        Err(AccountWriteError::ReadBack(AccountListError::InvalidId { .. }))
    ));
}

#[test]
fn account_list_accounts_maps_null_parent_and_note() {
    let rows = vec![account_row("22222222-2222-2222-2222-222222222222", None, "root", 0, None)];
    let accounts = accounts_from_rows(&rows).expect("list accounts");
    assert_eq!(accounts[0].parent_id, None);
    assert_eq!(accounts[0].note, None);
}
