use sha2::Digest;
use tally42::ingest::{Ingest, IngestAction, IngestEvent};
use tally42::records::{Statement, StatementWriteError};
use tally42::user_data::{
    check_file_size, insert_failure, is_toml_file, lower_hex, AddStatementError, ContentHasher, UserDataError,
    UserDataManager,
};
use uuid::Uuid;

fn sha256_hex(bytes: &[u8]) -> String {
    format!("{:x}", sha2::Sha256::digest(bytes))
}

#[test]
fn from_data_dir_places_database_inside() {
    let manager = UserDataManager::from_data_dir("/tmp/nested/state");
    assert_eq!(manager.data_dir(), "/tmp/nested/state");
    assert_eq!(manager.db_path(), "/tmp/nested/state/tally42.db");
    assert_eq!(manager.statements_dir(), "/tmp/nested/state/statements");
    let trailing = UserDataManager::from_data_dir("/tmp/state/");
    assert_eq!(trailing.db_path(), "/tmp/state/tally42.db");
}

#[test]
fn from_environment_prefers_xdg_then_home() {
    let xdg = UserDataManager::from_environment(Some("/x".to_string()), Some("/h".to_string())).expect("xdg");
    assert_eq!(xdg.data_dir(), "/x/tally42");
    let home = UserDataManager::from_environment(None, Some("/home/u".to_string())).expect("home");
    assert_eq!(home.data_dir(), "/home/u/.local/share/tally42");
    assert_eq!(home.db_path(), "/home/u/.local/share/tally42/tally42.db");
    let neither = UserDataManager::from_environment(None, None);
    assert!(matches!(neither, Err(UserDataError::MissingHomeDir)));
}

#[test]
fn ingest_example_digest_size_and_path() {
    let bytes = b"%PDF-1.7 sample";
    let mut hasher = ContentHasher::new();
    hasher.update(&bytes[..5]);
    hasher.update(&bytes[5..]);
    let hash = hasher.finish_hex();
    assert_eq!(hash, sha256_hex(bytes));
    assert_eq!(check_file_size(bytes.len() as u64).expect("size"), 15);

    let manager = UserDataManager::from_data_dir("/data");
    let path = manager.statement_file_path_for_source(&hash, "/tmp/in/statement.pdf");
    assert_eq!(path, format!("/data/statements/{hash}.pdf"));
}

#[test]
fn stored_path_without_extension_is_the_digest() {
    let manager = UserDataManager::from_data_dir("/data");
    assert_eq!(manager.statement_file_path_for_source("abc", "/tmp/noext"), "/data/statements/abc");
    assert_eq!(manager.statement_file_path_for_source("abc", "/tmp/trailing."), "/data/statements/abc");
    assert_eq!(manager.statement_file_path_for_source("abc", "/tmp/.hidden"), "/data/statements/abc");
    assert_eq!(manager.statement_file_path_for_source("abc", "/tmp/a.b/file.tar.gz"), "/data/statements/abc.gz");
}

#[test]
fn second_ingest_of_same_bytes_is_a_duplicate() {
    let bytes = b"duplicate bytes";
    let hash = sha256_hex(bytes);
    let manager = UserDataManager::from_data_dir("/data");
    let stored = format!("{hash}.pdf");
    let files = vec!["other.pdf".to_string(), stored.clone()];
    let existing = manager.find_statement_file_path(&hash, false, &files);
    assert_eq!(existing, Some(format!("/data/statements/{stored}")));

    let (mut ingest, first) = Ingest::start(&manager, "/tmp/statement.pdf", "t1");
    assert!(matches!(first, IngestAction::PrepareStore));
    let action = run_to_lookup(&mut ingest, bytes, bytes.len() as u64);
    assert!(matches!(action, IngestAction::LookUp { ref file_hash } if file_hash == &hash));
    let action = ingest.next(IngestEvent::Existing(existing));
    assert!(matches!(action, IngestAction::DiscardTemp { ref temp_path } if temp_path == "/data/statements/.tmp-statement-t1"));
    let action = ingest.next(IngestEvent::TempDiscarded);
    match action {
        IngestAction::Finish(Err(AddStatementError::DuplicateFileHash { hash: h, path })) => {
            assert_eq!(h, hash);
            assert_eq!(path, format!("/data/statements/{stored}"));
        }
        other => panic!("unexpected: {:?}", other),
    }
}

fn run_to_lookup(ingest: &mut Ingest, bytes: &[u8], len: u64) -> IngestAction {
    assert!(matches!(ingest.next(IngestEvent::StoreReady(Ok(()))), IngestAction::OpenSource));
    assert!(matches!(ingest.next(IngestEvent::SourceOpened(Ok(()))), IngestAction::CreateTemp { .. }));
    assert!(matches!(ingest.next(IngestEvent::TempCreated(Ok(()))), IngestAction::Copy));
    let mut hasher = ContentHasher::new();
    hasher.update(bytes);
    ingest.next(IngestEvent::Copied(Ok((hasher, len))))
}

fn run_to_record(ingest: &mut Ingest, bytes: &[u8], hash: &str, len: u64, final_path: &str) {
    run_to_lookup(ingest, bytes, len);
    let action = ingest.next(IngestEvent::Existing(None));
    assert!(matches!(action, IngestAction::Place { final_path: ref f, .. } if f == final_path));
    let action = ingest.next(IngestEvent::Placed(Ok(())));
    assert!(matches!(action, IngestAction::Record { ref file_hash, file_size } if file_hash == hash && file_size == len as i64));
}

#[test]
fn failed_record_removes_the_placed_file() {
    let bytes = b"fk failure rollback";
    let hash = sha256_hex(bytes);
    let final_path = format!("/data/statements/{hash}.pdf");
    let missing = Uuid::parse_str("ffffffff-ffff-ffff-ffff-ffffffffffff").unwrap().as_u128();
    let manager = UserDataManager::from_data_dir("/data");

    let (mut ingest, _) = Ingest::start(&manager, "/tmp/statement.pdf", "t2");
    run_to_record(&mut ingest, bytes, &hash, bytes.len() as u64, &final_path);
    let action = ingest.next(IngestEvent::Recorded(Err(StatementWriteError::NotFound(missing))));
    assert!(matches!(action, IngestAction::RemovePlaced { final_path: ref f } if f == &final_path));
    let action = ingest.next(IngestEvent::PlacedRemoved(Ok(())));
    assert!(matches!(
        action,
        IngestAction::Finish(Err(AddStatementError::InsertStatement(StatementWriteError::NotFound(x)))) if x == missing
    ));

    let (mut ingest, _) = Ingest::start(&manager, "/tmp/statement.pdf", "t3");
    run_to_record(&mut ingest, bytes, &hash, bytes.len() as u64, &final_path);
    ingest.next(IngestEvent::Recorded(Err(StatementWriteError::NotFound(missing))));
    let denied = std::io::Error::new(std::io::ErrorKind::PermissionDenied, "denied");
    let action = ingest.next(IngestEvent::PlacedRemoved(Err(denied)));
    assert!(matches!(
        action,
        IngestAction::Finish(Err(AddStatementError::InsertStatementCleanupFailed { ref path, .. })) if path == &final_path
    ));
}

#[test]
fn successful_ingest_records_the_placed_document() {
    let bytes = b"%PDF-1.7 sample";
    let hash = sha256_hex(bytes);
    let final_path = format!("/data/statements/{hash}.pdf");
    let manager = UserDataManager::from_data_dir("/data");
    let (mut ingest, _) = Ingest::start(&manager, "/tmp/statement.pdf", "t4");
    run_to_record(&mut ingest, bytes, &hash, 15, &final_path);
    let account = Uuid::parse_str("21212121-2121-2121-2121-212121212121").unwrap().as_u128();
    let statement = Statement {
        id: Uuid::parse_str("13131313-1313-1313-1313-131313131313").unwrap().as_u128(),
        institution: "Chase".to_string(),
        account_id: account,
        period_start: "2026-01-01".to_string(),
        period_end: "2026-01-31".to_string(),
        currency: "USD".to_string(),
        file_hash: hash.clone(),
        file_size: 15,
        imported_at: "2026-02-01 00:00:00".to_string(),
        replaced_by: None,
    };
    match ingest.next(IngestEvent::Recorded(Ok(statement))) {
        IngestAction::Finish(Ok(s)) => {
            assert_eq!(s.file_hash, hash);
            assert_eq!(s.file_size, 15);
        }
        other => panic!("unexpected: {:?}", other),
    }
}

#[test]
fn ingest_stops_on_early_failures() {
    let manager = UserDataManager::from_data_dir("/data");
    let (mut ingest, _) = Ingest::start(&manager, "/tmp/statement.pdf", "t5");
    ingest.next(IngestEvent::StoreReady(Ok(())));
    let missing = std::io::Error::new(std::io::ErrorKind::NotFound, "missing");
    assert!(matches!(
        ingest.next(IngestEvent::SourceOpened(Err(missing))),
        IngestAction::Finish(Err(AddStatementError::OpenSource(_)))
    ));
    assert!(matches!(
        ingest.next(IngestEvent::TempDiscarded),
        IngestAction::Finish(Err(AddStatementError::OutOfOrder))
    ));

    let (mut big, _) = Ingest::start(&manager, "/tmp/statement.pdf", "t6");
    assert!(matches!(
        run_to_lookup(&mut big, b"abc", u64::MAX),
        IngestAction::Finish(Err(AddStatementError::FileTooLarge(n))) if n == u64::MAX
    ));

    let (mut placed, _) = Ingest::start(&manager, "/tmp/statement.pdf", "t7");
    run_to_lookup(&mut placed, b"abc", 3);
    assert!(matches!(placed.next(IngestEvent::Existing(None)), IngestAction::Place { .. }));
    let busy = std::io::Error::new(std::io::ErrorKind::Other, "busy");
    assert!(matches!(
        placed.next(IngestEvent::Placed(Err(busy))),
        IngestAction::Finish(Err(AddStatementError::RenameToFinal(_)))
    ));
}

#[test]
fn lookup_by_exact_name_and_fallback_path() {
    let manager = UserDataManager::from_data_dir("/data");
    let files: Vec<String> = Vec::new();
    assert_eq!(manager.find_statement_file_path("abc", true, &files), Some("/data/statements/abc".to_string()));
    assert_eq!(manager.find_statement_file_path("abc", false, &files), None);
    assert_eq!(manager.statement_file_path("abc", false, &files), "/data/statements/abc");
    let with_ext = vec!["abcd.pdf".to_string(), "abc.csv".to_string()];
    assert_eq!(manager.statement_file_path("abc", false, &with_ext), "/data/statements/abc.csv");
}

#[test]
fn oversized_file_is_rejected() {
    assert!(matches!(check_file_size(u64::MAX), Err(AddStatementError::FileTooLarge(n)) if n == u64::MAX));
    assert_eq!(check_file_size(i64::MAX as u64).expect("largest"), i64::MAX);
    assert_eq!(check_file_size(0).expect("empty"), 0);
}

#[test]
fn failed_insert_reports_rollback_outcome() {
    let id = Uuid::parse_str("ffffffff-ffff-ffff-ffff-ffffffffffff").unwrap().as_u128();
    let clean = insert_failure(StatementWriteError::NotFound(id), Ok(()), "/data/statements/x.pdf".to_string());
    assert!(matches!(clean, AddStatementError::InsertStatement(StatementWriteError::NotFound(x)) if x == id));
    let io = std::io::Error::new(std::io::ErrorKind::PermissionDenied, "denied");
    let compound = insert_failure(StatementWriteError::NotFound(id), Err(io), "/data/statements/x.pdf".to_string());
    assert!(matches!(
        compound,
        AddStatementError::InsertStatementCleanupFailed { ref path, .. } if path == "/data/statements/x.pdf"
    ));
}

#[test]
fn temp_file_lives_in_statements_dir() {
    let manager = UserDataManager::from_data_dir("/data");
    assert_eq!(manager.temp_file_path("tok"), "/data/statements/.tmp-statement-tok");
}

#[test]
fn lower_hex_writes_two_digits_per_byte() {
    assert_eq!(lower_hex(&vec![0x00, 0x0f, 0xa5, 0xff]), "000fa5ff");
    assert_eq!(lower_hex(&Vec::new()), "");
}

#[test]
fn empty_document_digest() {
    let hasher = ContentHasher::new();
    assert_eq!(
        hasher.finish_hex(),
        "e3b0c44298fc1c149afbf4c8996fb92427ae41e4649b934ca495991b7852b855"
    );
}

#[test]
fn toml_files_are_recognised_by_extension() {
    assert!(is_toml_file("/work/2026/amex.toml"));
    assert!(is_toml_file("notes.TOML"));
    assert!(!is_toml_file("/work/toml"));
    assert!(!is_toml_file("/work/.toml"));
    assert!(!is_toml_file("/work/a.toml.bak"));
    assert!(!is_toml_file("/work.toml/readme"));
}

#[test]
fn error_messages_name_the_failed_step() {
    let dup = AddStatementError::DuplicateFileHash { hash: "abc".to_string(), path: "/data/statements/abc.pdf".to_string() };
    assert_eq!(dup.message(), "statement file with hash 'abc' already exists at /data/statements/abc.pdf");
    assert_eq!(
        UserDataError::MissingHomeDir.message(),
        "could not resolve user data directory: HOME is not set and XDG_DATA_HOME is absent"
    );
    assert_eq!(AddStatementError::FileTooLarge(7).message(), "statement file too large for i64 size: 7");
    let id = Uuid::parse_str("88888888-8888-8888-8888-888888888888").unwrap().as_u128();
    let insert = AddStatementError::InsertStatement(StatementWriteError::NotFound(id));
    assert_eq!(
        insert.message(),
        "failed to insert statement row: statement not found: 88888888-8888-8888-8888-888888888888"
    );
}
