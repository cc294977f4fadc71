use rotire::actions::{Action, ActionInput, ActionType};
use rotire::filter::RotireFilter;
use rotire::model::{RotireError, RotireFile, RotireResult};
use rotire::Rotire;

fn entry(name: &str, size: u64, modified_at: u64) -> RotireFile {
    RotireFile {
        name: name.to_string(),
        size,
        modified_at,
        modified_unavailable: false,
    }
}

/// Ten files, distinct increasing modification times, each 10 bytes.
fn ten_files() -> Vec<RotireFile> {
    let mut files = Vec::new();
    for i in 0..10u64 {
        files.push(entry(&format!("file{}", i), 10, 1_000 + i));
    }
    files
}

fn names(files: &[RotireFile]) -> Vec<String> {
    files.iter().map(|f| f.name.clone()).collect()
}

#[test]
fn scenario_delete_keeps_four_newest() {
    let mut engine = Rotire::new("logs".to_string());
    let action = Action::new(ActionType::Delete, false);
    let plan = engine.run(4, action, ten_files()).unwrap();

    assert_eq!(
        names(&plan.rotate),
        vec!["file0", "file1", "file2", "file3", "file4", "file5"]
    );
    assert_eq!(names(&plan.kept), vec!["file6", "file7", "file8", "file9"]);

    // every removal succeeds
    let removed = vec![true; plan.rotate.len()];
    let outcome = engine
        .complete_run(&plan, ActionInput::Removed(removed))
        .unwrap();
    assert_eq!(outcome.result.affected_files, 6);
    assert_eq!(outcome.result.affected_files_size, 60);
    assert!(outcome.archive.is_none());
}

#[test]
fn scenario_dry_run_reports_without_touching() {
    let mut engine = Rotire::new("logs".to_string());
    let action = Action::new(ActionType::Delete, true);
    let plan = engine.run(4, action, ten_files()).unwrap();

    // a dry run needs no filesystem work at all
    let outcome = engine.complete_run(&plan, ActionInput::DryRun).unwrap();
    assert_eq!(outcome.result.affected_files, 6);
    assert_eq!(outcome.result.affected_files_size, 60);
    assert!(outcome.archive.is_none());
}

#[test]
fn scenario_suffix_filter_limits_candidates() {
    let mut engine = Rotire::new("logs".to_string());
    engine.add_filter(RotireFilter::Suffix { value: ".log".to_string() });
    let scanned = vec![
        entry("a.log", 1, 10),
        entry("b.txt", 2, 5),
        entry("c.log", 3, 20),
        entry("d.dat", 4, 1),
    ];
    let action = Action::new(ActionType::Delete, false);
    let plan = engine.run(0, action, scanned).unwrap();

    // only .log files are candidates, however old the others are
    assert_eq!(names(&plan.rotate), vec!["a.log", "c.log"]);
    assert!(plan.kept.is_empty());
}

#[test]
fn rotate_set_size_follows_clamped_keep_count() {
    let action = Action::new(ActionType::Delete, true);
    for (keep, expected_rotate) in [(4, 6), (0, 10), (10, 0), (20, 0), (-5, 10)] {
        let mut engine = Rotire::new("logs".to_string());
        let plan = engine.run(keep, action, ten_files()).unwrap();
        assert_eq!(plan.rotate.len(), expected_rotate);
        assert_eq!(plan.kept.len(), 10 - expected_rotate);

        // rotate and kept together are a permutation of the scan
        let mut all = names(&plan.rotate);
        all.extend(names(&plan.kept));
        all.sort();
        assert_eq!(all, names(&ten_files()));
    }
}

#[test]
fn sorted_candidates_are_monotonic() {
    let mut engine = Rotire::new("logs".to_string());
    let scanned = vec![
        entry("d", 1, 40),
        entry("a", 1, 10),
        entry("c", 1, 30),
        entry("b", 1, 20),
        entry("e", 1, 15),
    ];
    let plan = engine
        .run(2, Action::new(ActionType::Delete, true), scanned)
        .unwrap();
    let mut ordered = plan.rotate.clone();
    ordered.extend(plan.kept.iter().cloned());
    for pair in ordered.windows(2) {
        assert!(pair[0].modified_unavailable || pair[0].modified_at <= pair[1].modified_at);
    }
    assert_eq!(names(&plan.kept), vec!["c", "d"]);
}

#[test]
fn unreadable_timestamps_rotate_first() {
    let mut engine = Rotire::new("logs".to_string());
    let mut odd = entry("no-mtime", 1, u64::MAX);
    odd.modified_unavailable = true;
    let scanned = vec![entry("young", 1, 50), odd, entry("old", 1, 1)];
    let plan = engine
        .run(2, Action::new(ActionType::Delete, true), scanned)
        .unwrap();

    // the entry without a usable timestamp is treated as the oldest
    assert_eq!(names(&plan.rotate), vec!["no-mtime"]);
    assert_eq!(names(&plan.kept), vec!["old", "young"]);
}

#[test]
fn stable_order_for_equal_timestamps() {
    let mut engine = Rotire::new("logs".to_string());
    let scanned = vec![
        entry("first", 1, 7),
        entry("second", 1, 7),
        entry("third", 1, 7),
    ];
    let plan = engine
        .run(1, Action::new(ActionType::Delete, true), scanned)
        .unwrap();
    assert_eq!(names(&plan.rotate), vec!["first", "second"]);
    assert_eq!(names(&plan.kept), vec!["third"]);
}

#[test]
fn concurrent_run_is_rejected() {
    let mut engine = Rotire::new("logs".to_string());
    let action = Action::new(ActionType::Delete, true);
    let plan = engine.run(4, action, ten_files()).unwrap();

    // a second run before the first completes fails outright
    let second = engine.run(4, action, ten_files());
    assert!(matches!(second, Err(RotireError::ConcurrentRun)));

    // after completion the engine accepts runs again
    engine.complete_run(&plan, ActionInput::DryRun).unwrap();
    assert!(engine.run(4, action, ten_files()).is_ok());
}

#[test]
fn aborted_run_frees_the_engine() {
    let mut engine = Rotire::new("logs".to_string());
    let action = Action::new(ActionType::Delete, false);
    engine.run(4, action, ten_files()).unwrap();
    assert!(matches!(
        engine.run(4, action, ten_files()),
        Err(RotireError::ConcurrentRun)
    ));
    engine.abort_run();
    assert!(engine.run(4, action, ten_files()).is_ok());
}

#[test]
fn dry_run_totals_match_real_totals() {
    let action_real = Action::new(ActionType::Delete, false);
    let action_dry = Action::new(ActionType::Delete, true);

    let mut engine = Rotire::new("logs".to_string());
    let plan = engine.run(3, action_real, ten_files()).unwrap();
    let removed = vec![true; plan.rotate.len()];
    let real = engine
        .complete_run(&plan, ActionInput::Removed(removed))
        .unwrap();

    let mut engine = Rotire::new("logs".to_string());
    let plan = engine.run(3, action_dry, ten_files()).unwrap();
    let dry = engine.complete_run(&plan, ActionInput::DryRun).unwrap();

    assert_eq!(real.result.affected_files, dry.result.affected_files);
    assert_eq!(real.result.affected_files_size, dry.result.affected_files_size);
}

#[test]
fn failed_removals_are_not_counted() {
    let mut engine = Rotire::new("logs".to_string());
    let scanned = vec![entry("a", 5, 1), entry("b", 7, 2), entry("c", 11, 3)];
    let plan = engine
        .run(0, Action::new(ActionType::Delete, false), scanned)
        .unwrap();
    let outcome = engine
        .complete_run(&plan, ActionInput::Removed(vec![true, false, true]))
        .unwrap();
    assert_eq!(outcome.result.affected_files, 2);
    assert_eq!(outcome.result.affected_files_size, 16);
}

#[test]
fn result_counters_only_grow() {
    let mut result = RotireResult::new();
    assert_eq!(result.affected_files, 0);
    assert_eq!(result.affected_files_size, 0);
    result.inc_affected_files();
    result.inc_affected_files_size(42);
    result.inc_affected_files();
    result.inc_affected_files_size(8);
    assert_eq!(result.affected_files, 2);
    assert_eq!(result.affected_files_size, 50);
}

#[test]
fn result_display_reports_count_and_mebibytes() {
    let result = RotireResult {
        affected_files: 6,
        affected_files_size: 3 * 1024 * 1024 + 5,
    };
    assert_eq!(result.display_string(), "Affected files 6, containing 3 MiB.");
    let empty = RotireResult::new();
    assert_eq!(empty.display_string(), "Affected files 0, containing 0 MiB.");
}

#[test]
fn error_messages_name_the_condition() {
    assert_eq!(
        RotireError::ConcurrentRun.message(),
        "Can't start another run while one is already running."
    );
    assert_eq!(
        RotireError::ArchiveFinalizeFailed.message(),
        "The archive could not be finalized."
    );
}

#[test]
fn totals_fit_detects_overflow() {
    let fits = vec![entry("a", 10, 1), entry("b", u64::MAX - 10, 2)];
    assert!(rotire::model::totals_fit(&fits));
    let overflows = vec![entry("a", 11, 1), entry("b", u64::MAX - 10, 2)];
    assert!(!rotire::model::totals_fit(&overflows));
    assert!(rotire::model::totals_fit(&Vec::new()));
}

#[test]
fn default_action_is_a_real_archive_run() {
    let action = Action::default();
    assert_eq!(action.action_type, ActionType::Archive);
    assert_eq!(action.dry_run, false);
}
