use agentdictate::job::RuntimeError;
use agentdictate::migrations::{
    backup_file_name, is_backup_of, migration_plan, require_known_schema, step_pending, MigrationPlan,
    LATEST_VERSION,
};

#[test]
fn a_newer_schema_version_is_refused() {
    assert_eq!(
        migration_plan(3, true),
        Err(RuntimeError::NewerDatabase { version: 3, latest: LATEST_VERSION })
    );
    assert_eq!(
        migration_plan(-1, true),
        Err(RuntimeError::NewerDatabase { version: -1, latest: 2 })
    );
    assert_eq!(require_known_schema(3), Err(RuntimeError::NewerDatabase { version: 3, latest: 2 }));
    assert_eq!(require_known_schema(2), Ok(()));
}

#[test]
fn older_databases_migrate_and_new_ones_skip_the_backup() {
    assert_eq!(migration_plan(2, true), Ok(MigrationPlan::UpToDate));
    assert_eq!(migration_plan(0, true), Ok(MigrationPlan::Migrate { from: 0, back_up: true }));
    assert_eq!(migration_plan(0, false), Ok(MigrationPlan::Migrate { from: 0, back_up: false }));
    assert_eq!(migration_plan(1, true), Ok(MigrationPlan::Migrate { from: 1, back_up: true }));
}

#[test]
fn a_step_another_connection_ran_is_skipped() {
    assert!(step_pending(0, 0));
    assert!(!step_pending(1, 0));
    assert!(step_pending(1, 1));
    assert!(step_pending(-5, 0));
}

#[test]
fn backups_are_named_by_version_and_recognised() {
    let backup = backup_file_name("agentdictate.sqlite", 2);
    assert_eq!(backup, "agentdictate.sqlite.pre-v2");
    assert!(is_backup_of(&backup, "agentdictate.sqlite"));
    assert!(is_backup_of("agentdictate.sqlite.pre-v17", "agentdictate.sqlite"));
    assert!(!is_backup_of("agentdictate.sqlite.pre-v", "agentdictate.sqlite"));
    assert!(!is_backup_of("agentdictate.sqlite.pre-v2a", "agentdictate.sqlite"));
    assert!(!is_backup_of("other.sqlite.pre-v2", "agentdictate.sqlite"));
    assert!(!is_backup_of("agentdictate.sqlite", "agentdictate.sqlite"));
}
