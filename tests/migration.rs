use tally42::catalog::MigrationDiscoveryError;
use tally42::migration::{Migration, MigrationParseError};
use tally42::runner::{pending_migrations, MigrationRun, RunAction, RunEvent};
use tally42::source::{EmbeddedFile, EmbeddedMigrations, MigrationContentError};
use tally42::text::parse_decimal_u32;

fn names(list: &[&str]) -> Vec<String> {
    list.iter().map(|s| s.to_string()).collect()
}

#[test]
fn from_file_name_parses_zero_padded_version() {
    let migration = Migration::from_file_name("0001_create_accounts.sql")
        .expect("parse migration file name");
    assert_eq!(migration.version, 1);
    assert_eq!(migration.name, "create_accounts");
    assert_eq!(migration.file_name, "0001_create_accounts.sql");
}

#[test]
fn from_file_name_rejects_non_sql_extension() {
    let err = Migration::from_file_name("0001_create_accounts.txt")
        .expect_err("non-sql migration extension should fail");
    assert!(matches!(err, MigrationParseError::InvalidExtension));
}

#[test]
fn from_file_name_reports_each_defect() {
    assert_eq!(Migration::from_file_name("not-a-migration.sql").unwrap_err(), MigrationParseError::InvalidFilename);
    assert_eq!(Migration::from_file_name("_name.sql").unwrap_err(), MigrationParseError::InvalidFilename);
    assert_eq!(Migration::from_file_name("0001_.sql").unwrap_err(), MigrationParseError::InvalidFilename);
    assert_eq!(Migration::from_file_name("v1_name.sql").unwrap_err(), MigrationParseError::InvalidVersion);
    assert_eq!(Migration::from_file_name("4294967296_big.sql").unwrap_err(), MigrationParseError::InvalidVersion);
    assert_eq!(Migration::from_file_name(".sql").unwrap_err(), MigrationParseError::InvalidExtension);
    assert_eq!(Migration::from_file_name("0001_x").unwrap_err(), MigrationParseError::InvalidExtension);
    assert_eq!(Migration::from_file_name("").unwrap_err(), MigrationParseError::InvalidExtension);
}

#[test]
fn from_file_name_accepts_any_case_suffix_and_largest_version() {
    let m = Migration::from_file_name("4294967295_last_one.SqL").expect("parse");
    assert_eq!(m.version, u32::MAX);
    assert_eq!(m.name, "last_one");
    let nested = Migration::from_file_name("migrations/0007_seven.sql").expect("parse nested");
    assert_eq!(nested.version, 7);
    assert_eq!(nested.name, "seven");
    assert_eq!(nested.file_name, "migrations/0007_seven.sql");
}

#[test]
fn embedded_source_lists_seed_file() {
    let source = EmbeddedMigrations::bundled();
    let files = source.migration_files();
    assert!(files.contains(&"0001_add_accounts_table.sql".to_string()));
}

#[test]
fn sql_reads_from_embedded_source() {
    let source = EmbeddedMigrations::bundled();
    let migration = Migration::from_file_name("0001_add_accounts_table.sql")
        .expect("parse migration file name");
    let loaded_sql = migration.sql(&source).expect("read embedded migration sql");

    assert!(loaded_sql.contains("CREATE TABLE accounts") || loaded_sql.contains("CREATE TABLE IF NOT EXISTS accounts"));
}

#[test]
fn embedded_read_of_missing_file_names_it() {
    let source = EmbeddedMigrations::bundled();
    match source.read_file_utf8("0009_missing.sql") {
        Err(MigrationContentError::MissingEmbeddedFile(name)) => assert_eq!(name, "0009_missing.sql"),
        other => panic!("unexpected: {:?}", other),
    }
}

#[test]
fn bundled_catalog_has_three_ordered_migrations() {
    let source = EmbeddedMigrations::bundled();
    let catalog = Migration::from_file_names(&source.migration_files()).expect("discover bundled");
    let versions: Vec<u32> = catalog.iter().map(|m| m.version).collect();
    assert_eq!(versions, vec![1, 2, 3]);
    for m in &catalog {
        assert!(m.sql(&source).is_ok());
    }
}

#[test]
fn from_source_returns_sorted_migrations() {
    let listing = names(&["0010_ten.sql", "0002_two.sql", "0001_one.sql"]);
    let migrations = Migration::from_file_names(&listing).expect("discover migrations");
    let versions: Vec<u32> = migrations.into_iter().map(|m| m.version).collect();

    assert_eq!(versions, vec![1, 2, 10]);
}

#[test]
fn from_source_fails_on_invalid_sql_filename() {
    let listing = names(&["not-a-migration.sql"]);
    let err = Migration::from_file_names(&listing).expect_err("invalid migration filename");

    assert!(matches!(
        err,
        MigrationDiscoveryError::Parse(MigrationParseError::InvalidFilename)
    ));
}

#[test]
fn from_source_fails_on_duplicate_version() {
    let listing = names(&["0001_first.sql", "1_second.sql"]);
    let err = Migration::from_file_names(&listing).expect_err("duplicate versions should fail");

    assert!(matches!(err, MigrationDiscoveryError::DuplicateVersion(1)));
}

#[test]
fn discovery_reports_the_smallest_shared_version() {
    let listing = names(&["0005_e.sql", "0003_c.sql", "5_e2.sql", "3_c2.sql", "0001_a.sql"]);
    let err = Migration::from_file_names(&listing).expect_err("duplicates");
    assert!(matches!(err, MigrationDiscoveryError::DuplicateVersion(3)));
}

#[test]
fn discovery_stops_at_the_first_bad_name() {
    let listing = names(&["0001_a.sql", "x_b.sql", "noshape.sql", "0001_dup.sql"]);
    let err = Migration::from_file_names(&listing).expect_err("bad name");
    assert!(matches!(err, MigrationDiscoveryError::Parse(MigrationParseError::InvalidVersion)));
}

#[test]
fn discovery_of_an_empty_listing_is_empty() {
    let migrations = Migration::from_file_names(&Vec::new()).expect("empty");
    assert!(migrations.is_empty());
}

#[test]
fn discovery_keeps_names_with_their_versions() {
    let listing = names(&["0002_b.sql", "0001_a.sql"]);
    let migrations = Migration::from_file_names(&listing).expect("discover");
    assert_eq!(migrations[0].name, "a");
    assert_eq!(migrations[0].file_name, "0001_a.sql");
    assert_eq!(migrations[1].name, "b");
    assert_eq!(migrations[1].file_name, "0002_b.sql");
}

#[test]
fn runs_apply_each_migration_once() {
    let listing = names(&["0001_a.sql", "0002_b.sql", "0003_c.sql"]);
    let catalog = Migration::from_file_names(&listing).expect("discover");
    let first = pending_migrations(&catalog, &Vec::new());
    assert_eq!(first, vec![0, 1, 2]);
    let mut ledger: Vec<u32> = Vec::new();
    for i in &first {
        ledger.push(catalog[*i].version);
    }
    let second = pending_migrations(&catalog, &ledger);
    assert!(second.is_empty());
    let third = pending_migrations(&catalog, &ledger);
    assert!(third.is_empty());
    assert_eq!(ledger.len(), 3);
}

#[test]
fn runs_skip_only_recorded_versions() {
    let listing = names(&["0001_a.sql", "0002_b.sql", "0003_c.sql"]);
    let catalog = Migration::from_file_names(&listing).expect("discover");
    assert_eq!(pending_migrations(&catalog, &vec![2, 99]), vec![0, 2]);
}

#[test]
fn parse_decimal_accepts_only_digits_within_range() {
    assert_eq!(parse_decimal_u32("0001"), Some(1));
    assert_eq!(parse_decimal_u32("4294967295"), Some(u32::MAX));
    assert_eq!(parse_decimal_u32("4294967296"), None);
    assert_eq!(parse_decimal_u32("+1"), None);
    assert_eq!(parse_decimal_u32(""), None);
}

#[test]
fn discovery_errors_explain_themselves() {
    assert_eq!(
        MigrationDiscoveryError::DuplicateVersion(1).message(),
        "duplicate migration version found: 1"
    );
    assert_eq!(
        MigrationDiscoveryError::Parse(MigrationParseError::InvalidExtension).message(),
        "failed to parse migration filename: migration file extension must be .sql"
    );
    assert_eq!(
        MigrationContentError::MissingEmbeddedFile("x.sql".to_string()).message(),
        "embedded migration file not found: x.sql"
    );
}

#[test]
fn bundled_listing_matches_sql_suffix_in_any_case() {
    let source = EmbeddedMigrations {
        files: vec![
            EmbeddedFile { path: "0004_upper.SQL".to_string(), contents: "SELECT 4;".to_string() },
            EmbeddedFile { path: "README.md".to_string(), contents: "notes".to_string() },
            EmbeddedFile { path: ".sql".to_string(), contents: "".to_string() },
        ],
    };
    assert_eq!(source.migration_files(), vec!["0004_upper.SQL".to_string()]);
}

#[test]
fn run_records_each_pending_migration_after_it_ran() {
    let listing = names(&["0001_a.sql", "0002_b.sql", "0003_c.sql"]);
    let catalog = Migration::from_file_names(&listing).expect("discover");
    let (mut run, first) = MigrationRun::start(&catalog);
    assert!(matches!(first, RunAction::PrepareLedger));
    let action = run.next(RunEvent::LedgerReady(Ok(vec![1])));
    assert!(matches!(action, RunAction::Read { ref file_name } if file_name == "0002_b.sql"));
    let action = run.next(RunEvent::ContentRead(Ok("SELECT 2;".to_string())));
    assert!(matches!(action, RunAction::Execute { ref sql } if sql == "SELECT 2;"));
    let action = run.next(RunEvent::Executed(Ok(())));
    assert!(matches!(action, RunAction::Record { version: 2, ref name } if name == "b"));
    let action = run.next(RunEvent::Recorded(Ok(())));
    assert!(matches!(action, RunAction::Read { ref file_name } if file_name == "0003_c.sql"));
    run.next(RunEvent::ContentRead(Ok("SELECT 3;".to_string())));
    run.next(RunEvent::Executed(Ok(())));
    assert!(matches!(run.next(RunEvent::Recorded(Ok(()))), RunAction::Finish(Ok(()))));
}

#[test]
fn run_stops_at_the_first_failure() {
    let listing = names(&["0001_a.sql", "0002_b.sql"]);
    let catalog = Migration::from_file_names(&listing).expect("discover");
    let (mut run, _) = MigrationRun::start(&catalog);
    run.next(RunEvent::LedgerReady(Ok(Vec::new())));
    let missing = MigrationContentError::MissingEmbeddedFile("0001_a.sql".to_string());
    assert!(matches!(
        run.next(RunEvent::ContentRead(Err(missing))),
        RunAction::Finish(Err(tally42::user_data::MigrationRunnerError::Content(_)))
    ));
    let (mut done, _) = MigrationRun::start(&catalog);
    assert!(matches!(done.next(RunEvent::LedgerReady(Ok(vec![1, 2]))), RunAction::Finish(Ok(()))));
}
