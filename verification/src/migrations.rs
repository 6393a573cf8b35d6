//! Numbered schema migrations. The database's `user_version` counts the
//! steps it has had. A database from a newer build is refused, never
//! downgraded. Before an existing database is migrated, a compact copy is
//! kept next to it as `<file>.pre-v<latest>`; the copies go once the
//! migrated database opens again.

use vstd::prelude::*;

use crate::job::RuntimeError;
use crate::text::{all_digits, chars_of, decimal, decimal_chars, is_ascii_digit, lemma_decimal_digits, push_char};

verus! {

/// The schema version this build migrates databases to: the number of its
/// steps.
pub const LATEST_VERSION: usize = 2;

/// What opening a database at a stored version does.
#[derive(Clone, Copy, Debug, PartialEq, Eq, Structural)]
pub enum MigrationPlan {
    /// Nothing to migrate; leftover backups go, since this open proves the
    /// last migration.
    UpToDate,
    /// Runs the steps after `from`. `back_up` is whether the database holds
    /// a schema worth a copy first (a new, empty one does not).
    Migrate { from: usize, back_up: bool },
}

/// The plan for a database at `version`, or `None` when a newer build made
/// it.
pub open spec fn spec_migration_plan(version: int, has_schema: bool) -> Option<MigrationPlan> {
    if version < 0 || version > LATEST_VERSION {
        None
    } else if version == LATEST_VERSION {
        Some(MigrationPlan::UpToDate)
    } else {
        Some(MigrationPlan::Migrate { from: version as usize, back_up: has_schema })
    }
}

/// Decides what opening a database at the stored `version` does; a
/// database that a newer build migrated is refused.
pub fn migration_plan(version: i64, has_schema: bool) -> (r: Result<MigrationPlan, RuntimeError>)
    ensures
        match spec_migration_plan(version as int, has_schema) {
            Some(plan) => r == Ok::<MigrationPlan, RuntimeError>(plan),
            None => r == Err::<MigrationPlan, RuntimeError>(
                RuntimeError::NewerDatabase { version, latest: LATEST_VERSION },
            ),
        },
{
    if version < 0 || version > LATEST_VERSION as i64 {
        return Err(RuntimeError::NewerDatabase { version, latest: LATEST_VERSION });
    }
    let pending = version as usize;
    if pending == LATEST_VERSION {
        Ok(MigrationPlan::UpToDate)
    } else {
        Ok(MigrationPlan::Migrate { from: pending, back_up: has_schema })
    }
}

/// Whether migration step `step` (counted from zero) still has to run on a
/// database whose version is now `stored_version`: another connection may
/// have run it since the plan was made.
pub fn step_pending(stored_version: i64, step: usize) -> (pending: bool)
    ensures
        pending == (stored_version <= step),
{
    stored_version <= 0 || (stored_version as u64) <= (step as u64)
}

/// Accepts a database this build can read: one at a version no newer than
/// its own.
pub fn require_known_schema(version: i64) -> (r: Result<(), RuntimeError>)
    ensures
        0 <= version <= LATEST_VERSION ==> r is Ok,
        !(0 <= version <= LATEST_VERSION) ==> r == Err::<(), RuntimeError>(
            RuntimeError::NewerDatabase { version, latest: LATEST_VERSION },
        ),
{
    if 0 <= version && version <= LATEST_VERSION as i64 {
        Ok(())
    } else {
        Err(RuntimeError::NewerDatabase { version, latest: LATEST_VERSION })
    }
}

pub open spec fn backup_marker() -> Seq<char> {
    ".pre-v"@
}

/// `<name>.pre-v<version>`.
pub open spec fn backup_name(name: Seq<char>, version: nat) -> Seq<char> {
    name + backup_marker() + decimal(version)
}

/// Whether `entry` is a backup of the database file `name`, of any
/// version: `<name>.pre-v` followed by one or more ASCII digits.
pub open spec fn is_backup_name(entry: Seq<char>, name: Seq<char>) -> bool {
    let prefix = name + backup_marker();
    &&& prefix.len() < entry.len()
    &&& entry.take(prefix.len() as int) == prefix
    &&& all_digits(entry.skip(prefix.len() as int))
}

/// The file name of the backup of database file `name` made before
/// migrating to `version`.
pub fn backup_file_name(name: &str, version: usize) -> (backup: String)
    ensures
        backup@ == backup_name(name@, version as nat),
{
    let mut backup = name.to_owned();
    backup.append(".pre-v");
    let digits = decimal_chars(version as u64);
    let ghost head = backup@;
    let mut i: usize = 0;
    while i < digits.len()
        invariant
            i <= digits@.len(),
            backup@ == head + digits@.take(i as int),
        decreases digits@.len() - i,
    {
        push_char(&mut backup, digits[i]);
        i += 1;
        proof {
            assert(backup@ =~= head + digits@.take(i as int));
        }
    }
    proof {
        assert(digits@.take(digits@.len() as int) =~= digits@);
    }
    backup
}

/// Whether the directory entry `entry` is a backup of database file `name`.
pub fn is_backup_of(entry: &str, name: &str) -> (backup: bool)
    ensures
        backup == is_backup_name(entry@, name@),
{
    let e = chars_of(entry);
    let mut prefix = chars_of(name);
    let marker = chars_of(".pre-v");
    let mut m: usize = 0;
    let ghost head = prefix@;
    while m < marker.len()
        invariant
            m <= marker@.len(),
            prefix@ == head + marker@.take(m as int),
        decreases marker@.len() - m,
    {
        prefix.push(marker[m]);
        m += 1;
        proof {
            assert(prefix@ =~= head + marker@.take(m as int));
        }
    }
    proof {
        assert(marker@.take(marker@.len() as int) =~= marker@);
    }
    if prefix.len() >= e.len() {
        return false;
    }
    let mut i: usize = 0;
    while i < prefix.len()
        invariant
            prefix@.len() < e@.len(),
            prefix@ == name@ + backup_marker(),
            e@ == entry@,
            i <= prefix@.len(),
            forall|k: int| 0 <= k < i ==> e@[k] == prefix@[k],
        decreases prefix@.len() - i,
    {
        if e[i] != prefix[i] {
            proof {
                assert(e@.take(prefix@.len() as int)[i as int] != prefix@[i as int]);
            }
            return false;
        }
        i += 1;
    }
    proof {
        assert(e@.take(prefix@.len() as int) =~= prefix@);
    }
    let start = prefix.len();
    let mut j = start;
    while j < e.len()
        invariant
            start <= j <= e@.len(),
            start == prefix@.len(),
            prefix@ == name@ + backup_marker(),
            e@ == entry@,
            e@.take(start as int) == prefix@,
            prefix@.len() < e@.len(),
            forall|k: int| start <= k < j ==> is_ascii_digit(#[trigger] e@[k]),
        decreases e@.len() - j,
    {
        if !('0' <= e[j] && e[j] <= '9') {
            proof {
                assert(e@.skip(start as int)[j - start] == e@[j as int]);
            }
            return false;
        }
        j += 1;
    }
    proof {
        assert forall|k: int| 0 <= k < e@.skip(start as int).len() implies is_ascii_digit(
            #[trigger] e@.skip(start as int)[k],
        ) by {
            assert(e@.skip(start as int)[k] == e@[start + k]);
        }
    }
    true
}

/// Every backup made before a migration is recognised as a backup of its
/// database, whatever the file's name and the version.
pub proof fn lemma_backup_is_recognised(name: Seq<char>, version: nat)
    ensures
        is_backup_name(backup_name(name, version), name),
{
    lemma_decimal_digits(version);
    let prefix = name + backup_marker();
    let b = backup_name(name, version);
    assert(b.take(prefix.len() as int) =~= prefix);
    assert(b.skip(prefix.len() as int) =~= decimal(version));
}

} // verus!
