use seeds_core::{
    dirty_version, find_applied, is_sorted_by_version, registry_contains, sort_by_version,
    validate_applied_seeds, AppliedSeeds, Seeder, Seeds, SeedsError, SeedsType,
};

#[test]
fn sort_by_version_orders_and_keeps_everything() {
    let mut scripts = vec![
        script(3, SeedsType::Simple, "c", b"c"),
        script(1, SeedsType::Simple, "a", b"a"),
        script(2, SeedsType::Simple, "b", b"b"),
        script(1, SeedsType::Simple, "a2", b"d"),
    ];
    sort_by_version(&mut scripts);
    let versions: Vec<i64> = scripts.iter().map(|m| m.version).collect();
    assert_eq!(versions, vec![1, 1, 2, 3]);
    assert!(is_sorted_by_version(&scripts));
    // Insertion keeps the relative order of equal versions.
    assert_eq!(scripts[0].sql, "a");
    assert_eq!(scripts[1].sql, "a2");
    let mut empty: Vec<Seeds> = Vec::new();
    sort_by_version(&mut empty);
    assert!(empty.is_empty());
}

#[test]
fn is_sorted_by_version_checks_order() {
    let sorted = vec![
        script(1, SeedsType::Simple, "a", b"a"),
        script(1, SeedsType::Simple, "b", b"b"),
        script(2, SeedsType::Simple, "c", b"c"),
    ];
    assert!(is_sorted_by_version(&sorted));
    let unsorted = vec![
        script(2, SeedsType::Simple, "c", b"c"),
        script(1, SeedsType::Simple, "a", b"a"),
    ];
    assert!(!is_sorted_by_version(&unsorted));
    assert!(is_sorted_by_version(&Vec::new()));
}

fn script(version: i64, kind: SeedsType, body: &str, checksum: &[u8]) -> Seeds {
    Seeds {
        version,
        seeds_type: kind,
        description: format!("script {}", version),
        sql: body.to_string(),
        checksum: checksum.to_vec(),
    }
}

fn record(version: i64, checksum: &[u8], success: bool) -> AppliedSeeds {
    AppliedSeeds {
        version,
        checksum: checksum.to_vec(),
        success,
        applied_at: 1_617_000_000,
        execution_ms: 12,
    }
}

#[test]
fn iter_yields_versions_in_order() {
    let seeder = Seeder::new(vec![
        script(1, SeedsType::Simple, "create table a;", b"a"),
        script(2, SeedsType::Simple, "create table b;", b"b"),
        script(3, SeedsType::Simple, "create table c;", b"c"),
    ]);
    let versions: Vec<i64> = seeder.iter().iter().map(|m| m.version).collect();
    assert_eq!(versions, vec![1, 2, 3]);
    assert_eq!(seeder.len(), 3);
}

#[test]
fn fresh_database_applies_everything_in_order() {
    // Registry of three simple scripts and no applied records: all three
    // are planned, in version order, and the run ends cleanly.
    let seeder = Seeder::new(vec![
        script(1, SeedsType::Simple, "create table a;", b"a"),
        script(2, SeedsType::Simple, "create table b;", b"b"),
        script(3, SeedsType::Simple, "create table c;", b"c"),
    ]);
    let plan = seeder.run_plan(&Vec::new());
    assert_eq!(plan.applies, vec![0, 1, 2]);
    assert!(plan.outcome.is_ok());
}

#[test]
fn second_run_applies_nothing() {
    let scripts = vec![
        script(1, SeedsType::Simple, "create table a;", b"a"),
        script(2, SeedsType::Simple, "create table b;", b"b"),
    ];
    let seeder = Seeder::new(scripts.clone());
    let first = seeder.run_plan(&Vec::new());
    assert_eq!(first.applies, vec![0, 1]);
    // Record what the first run applied, with the checksums it saw.
    let applied: Vec<AppliedSeeds> = first
        .applies
        .iter()
        .map(|&i| record(scripts[i].version, &scripts[i].checksum, true))
        .collect();
    let second = seeder.run_plan(&applied);
    assert_eq!(second.applies, Vec::<usize>::new());
    assert!(second.outcome.is_ok());
}

#[test]
fn changed_checksum_fails_with_mismatch() {
    // Version 1 was applied with checksum `A`; the registry now reports
    // checksum `B` for it.
    let seeder = Seeder::new(vec![
        script(1, SeedsType::Simple, "create table a (x int);", b"B"),
        script(2, SeedsType::Simple, "create table b;", b"b"),
    ]);
    let applied = vec![record(1, b"A", true)];
    let plan = seeder.run_plan(&applied);
    assert!(matches!(plan.outcome, Err(SeedsError::VersionMismatch(1))));
    assert_eq!(plan.applies, Vec::<usize>::new());
}

#[test]
fn dirty_record_blocks_run_and_revert() {
    let seeder = Seeder::new(vec![
        script(1, SeedsType::ReversibleUp, "create table a;", b"a"),
        script(1, SeedsType::ReversibleDown, "drop table a;", b"z"),
        script(2, SeedsType::ReversibleUp, "create table b;", b"b"),
    ]);
    let applied = vec![record(1, b"a", true), record(2, b"b", false)];
    let plan = seeder.run_plan(&applied);
    assert!(matches!(plan.outcome, Err(SeedsError::Dirty(2))));
    assert_eq!(plan.applies, Vec::<usize>::new());
    assert!(matches!(seeder.revert_plan(&applied), Err(SeedsError::Dirty(2))));
    assert_eq!(dirty_version(&applied), Some(2));
}

#[test]
fn missing_version_fails_unless_ignored() {
    let scripts = vec![script(1, SeedsType::Simple, "create table a;", b"a")];
    let applied = vec![record(1, b"a", true), record(5, b"x", true)];

    let strict = Seeder::new(scripts.clone());
    let plan = strict.run_plan(&applied);
    assert!(matches!(plan.outcome, Err(SeedsError::VersionMissing(5))));
    assert_eq!(plan.applies, Vec::<usize>::new());
    assert!(matches!(
        validate_applied_seeds(&applied, &strict),
        Err(SeedsError::VersionMissing(5))
    ));

    let mut tolerant = Seeder::new(scripts);
    tolerant.set_ignore_missing(true);
    let plan = tolerant.run_plan(&applied);
    assert!(plan.outcome.is_ok());
    assert_eq!(plan.applies, Vec::<usize>::new());
    assert!(validate_applied_seeds(&applied, &tolerant).is_ok());
}

#[test]
fn revert_undoes_one_version_per_call() {
    // A reversible pair for version 1, with version 1 applied: revert picks
    // the down half; once its record is gone, there is nothing to revert.
    let scripts = vec![
        script(1, SeedsType::ReversibleUp, "create table a;", b"a"),
        script(1, SeedsType::ReversibleDown, "drop table a;", b"z"),
    ];
    let seeder = Seeder::new(scripts.clone());
    let applied = vec![record(1, b"a", true)];
    let target = seeder.revert_plan(&applied).unwrap();
    assert_eq!(target, Some(1));
    assert!(matches!(scripts[1].seeds_type, SeedsType::ReversibleDown));

    let after = seeder.revert_plan(&Vec::new()).unwrap();
    assert_eq!(after, None);
}

#[test]
fn revert_picks_the_highest_applied_version() {
    let seeder = Seeder::new(vec![
        script(1, SeedsType::ReversibleUp, "a", b"a"),
        script(1, SeedsType::ReversibleDown, "ra", b"p"),
        script(2, SeedsType::ReversibleUp, "b", b"b"),
        script(2, SeedsType::ReversibleDown, "rb", b"q"),
        script(3, SeedsType::ReversibleUp, "c", b"c"),
        script(3, SeedsType::ReversibleDown, "rc", b"r"),
    ]);
    // Versions 1 and 2 are applied; 3 is not: the target is 2's down half.
    let applied = vec![record(1, b"a", true), record(2, b"b", true)];
    let target = seeder.revert_plan(&applied).unwrap();
    assert_eq!(target, Some(3));

    // After reverting 2, the next call picks 1's down half.
    let applied = vec![record(1, b"a", true)];
    let target = seeder.revert_plan(&applied).unwrap();
    assert_eq!(target, Some(1));
}

#[test]
fn run_skips_down_scripts_and_applied_versions() {
    let seeder = Seeder::new(vec![
        script(1, SeedsType::ReversibleUp, "a", b"a"),
        script(1, SeedsType::ReversibleDown, "ra", b"p"),
        script(2, SeedsType::ReversibleUp, "b", b"b"),
        script(2, SeedsType::ReversibleDown, "rb", b"q"),
    ]);
    let applied = vec![record(1, b"a", true)];
    let plan = seeder.run_plan(&applied);
    assert!(plan.outcome.is_ok());
    // Only the unapplied up half of version 2 is planned.
    assert_eq!(plan.applies, vec![2]);
}

#[test]
fn validate_rejects_mixed_kinds() {
    let seeder = Seeder::new(vec![
        script(1, SeedsType::Simple, "a", b"a"),
        script(2, SeedsType::ReversibleUp, "b", b"b"),
    ]);
    assert!(matches!(seeder.validate(), Err(SeedsError::InvalidMixReversibleAndSimple)));
}

#[test]
fn validate_rejects_duplicate_version_and_kind() {
    let seeder = Seeder::new(vec![
        script(1, SeedsType::Simple, "a", b"a"),
        script(1, SeedsType::Simple, "b", b"b"),
    ]);
    assert!(matches!(seeder.validate(), Err(SeedsError::DuplicateVersion(1))));
}

#[test]
fn validate_accepts_a_reversible_pair() {
    let seeder = Seeder::new(vec![
        script(1, SeedsType::ReversibleUp, "a", b"a"),
        script(1, SeedsType::ReversibleDown, "ra", b"p"),
        script(2, SeedsType::ReversibleUp, "b", b"b"),
    ]);
    assert!(seeder.validate().is_ok());
    let simple = Seeder::new(vec![
        script(1, SeedsType::Simple, "a", b"a"),
        script(2, SeedsType::Simple, "b", b"b"),
    ]);
    assert!(simple.validate().is_ok());
}

#[test]
fn status_marks_installed_and_pending() {
    let seeder = Seeder::new(vec![
        script(1, SeedsType::Simple, "a", b"a"),
        script(2, SeedsType::Simple, "b", b"b"),
        script(3, SeedsType::Simple, "c", b"c"),
    ]);
    let applied = vec![record(2, b"b", true)];
    let flags = seeder.status(&applied);
    assert_eq!(flags, vec![false, true, false]);
}

#[test]
fn empty_registry_plans_nothing() {
    let seeder = Seeder::new(Vec::new());
    let plan = seeder.run_plan(&Vec::new());
    assert!(plan.outcome.is_ok());
    assert_eq!(plan.applies, Vec::<usize>::new());
    assert_eq!(seeder.revert_plan(&Vec::new()).unwrap(), None);
    assert_eq!(seeder.status(&Vec::new()), Vec::<bool>::new());
}

#[test]
fn reverted_version_is_pending_again() {
    let scripts = vec![
        script(1, SeedsType::ReversibleUp, "a", b"a"),
        script(1, SeedsType::ReversibleDown, "ra", b"p"),
        script(2, SeedsType::ReversibleUp, "b", b"b"),
        script(2, SeedsType::ReversibleDown, "rb", b"q"),
    ];
    let seeder = Seeder::new(scripts.clone());

    // A full run applies both up halves.
    let plan = seeder.run_plan(&Vec::new());
    assert_eq!(plan.applies, vec![0, 2]);
    let applied: Vec<AppliedSeeds> = plan
        .applies
        .iter()
        .map(|&i| record(scripts[i].version, &scripts[i].checksum, true))
        .collect();

    // Reverting undoes version 2; its record is deleted.
    let target = seeder.revert_plan(&applied).unwrap();
    assert_eq!(target, Some(3));
    let remaining: Vec<AppliedSeeds> =
        applied.into_iter().filter(|r| r.version != 2).collect();

    // The next run plans exactly the reverted version's up half again.
    let plan = seeder.run_plan(&remaining);
    assert!(plan.outcome.is_ok());
    assert_eq!(plan.applies, vec![2]);
}

#[test]
fn lookup_helpers_scan_records() {
    let applied = vec![record(1, b"a", true), record(2, b"b", true)];
    assert_eq!(find_applied(&applied, 2), Some(1));
    assert_eq!(find_applied(&applied, 7), None);
    assert_eq!(dirty_version(&applied), None);

    let scripts = vec![script(1, SeedsType::Simple, "a", b"a")];
    assert!(registry_contains(&scripts, 1));
    assert!(!registry_contains(&scripts, 2));
}
