use filewatch::engine::execute_rule;
use filewatch::engine::run;
use filewatch::engine::run_action;
use filewatch::fsmodel::FsState;
use filewatch::pattern::Pattern;
use filewatch::rules::ActionError;
use filewatch::rules::Rule;
use filewatch::rules::RuleAction;
use filewatch::rules::RuleActionType;
use filewatch::rules::Rules;

fn action(kind: RuleActionType, watch: &str, pattern: &str) -> RuleAction {
    RuleAction {
        action: kind,
        watch_dir: watch.to_string(),
        match_regex: Some(Pattern::new(pattern).unwrap()),
        rename_pattern: None,
        destination_dir: None,
        permissions: None,
    }
}

fn state(files: &[(&str, &[u8])]) -> FsState {
    let mut fs = FsState::new();
    for (path, data) in files {
        fs.upsert(path, data.to_vec(), 0o644);
    }
    fs
}

#[test]
fn rename_action_twice_is_a_noop_the_second_time() {
    let mut fs = state(&[("/w/a_old.txt", b"hello")]);
    let mut a = action(RuleActionType::Rename, "/w/", r"^([a-z]+)(_old)?\.txt$");
    a.rename_pattern = Some("$1.txt".to_string());

    let first = run_action(&mut fs, &a, false).unwrap();
    assert_eq!(first.len(), 1);
    assert!(first[0].is_ok());
    assert_eq!(fs.len(), 1);
    assert!(fs.contains("/w/a.txt"));
    assert!(!fs.contains("/w/a_old.txt"));

    // The file already carries its computed name: no error, no mutation.
    let second = run_action(&mut fs, &a, false).unwrap();
    assert_eq!(second.len(), 1);
    assert!(second[0].is_ok());
    assert_eq!(fs.len(), 1);
    assert!(fs.contains("/w/a.txt"));
    assert_eq!(fs.lookup("/w/a.txt").unwrap().data, b"hello");
}

#[test]
fn dry_run_reports_but_mutates_nothing() {
    let mut fs = state(&[("/in/a.log", b"a"), ("/in/b.log", b"b"), ("/in/c.txt", b"c")]);
    let a = action(RuleActionType::Delete, "/in/", r"\.log$");

    let planned = run_action(&mut fs, &a, true).unwrap();
    assert_eq!(planned.len(), 2);
    assert!(planned.iter().all(|o| o.is_ok()));
    assert_eq!(fs.len(), 3);
    assert!(fs.contains("/in/a.log"));
    assert!(fs.contains("/in/b.log"));
    assert!(fs.contains("/in/c.txt"));

    // A live run produces the same count of completed outcomes.
    let completed = run_action(&mut fs, &a, false).unwrap();
    assert_eq!(completed.len(), planned.len());
    assert!(completed.iter().all(|o| o.is_ok()));
    assert_eq!(fs.len(), 1);
    assert!(fs.contains("/in/c.txt"));
}

#[test]
fn one_failing_file_never_blocks_the_others() {
    // Three links are planned; the middle target is already occupied, so
    // that one file fails and the other two are still linked.
    let mut fs = state(&[
        ("/w/a.log", b"a"),
        ("/w/b.log", b"b"),
        ("/w/c.log", b"c"),
        ("/out/b.log", b"occupied"),
    ]);
    let mut a = action(RuleActionType::Link, "/w/", r"^[a-z]\.log$");
    a.destination_dir = Some("/out".to_string());

    let outcomes = run_action(&mut fs, &a, false).unwrap();
    assert_eq!(outcomes.len(), 3);
    assert!(outcomes[0].is_ok());
    assert_eq!(outcomes[1], Err(ActionError::Io));
    assert!(outcomes[2].is_ok());
    assert_eq!(outcomes.iter().filter(|o| o.is_err()).count(), 1);

    assert_eq!(fs.lookup("/out/a.log").unwrap().data, b"a");
    assert_eq!(fs.lookup("/out/b.log").unwrap().data, b"occupied");
    assert_eq!(fs.lookup("/out/c.log").unwrap().data, b"c");
}

#[test]
fn move_scenario_end_to_end() {
    let mut fs = state(&[("/tmp/in/a.log", b"payload"), ("/tmp/in/b.txt", b"keep")]);
    let mut a = action(RuleActionType::Move, "/tmp/in", r"\.log$");
    a.destination_dir = Some("/tmp/out".to_string());

    let outcomes = run_action(&mut fs, &a, false).unwrap();
    assert_eq!(outcomes.len(), 1);
    assert!(outcomes[0].is_ok());

    assert!(!fs.contains("/tmp/in/a.log"));
    assert_eq!(fs.lookup("/tmp/out/a.log").unwrap().data, b"payload");
    assert_eq!(fs.lookup("/tmp/in/b.txt").unwrap().data, b"keep");
}

#[test]
fn later_action_sees_what_the_earlier_one_produced() {
    // Rename then delete under the renamed name: the delete must find the
    // file the rename left behind, proving actions run in declared order.
    let mut fs = state(&[("/w/a_old.txt", b"x")]);
    let mut rename = action(RuleActionType::Rename, "/w/", r"^([a-z]+)_old\.txt$");
    rename.rename_pattern = Some("$1.txt".to_string());
    let delete = action(RuleActionType::Delete, "/w/", r"^a\.txt$");
    let rule = Rule { interval: "1h".to_string(), actions: vec![rename, delete] };

    let reports = execute_rule(&mut fs, &rule, false);
    assert_eq!(reports.len(), 2);
    assert!(reports[0].is_ok());
    let delete_outcomes = reports[1].as_ref().unwrap();
    assert_eq!(delete_outcomes.len(), 1);
    assert!(delete_outcomes[0].is_ok());
    assert_eq!(fs.len(), 0);
}

#[test]
fn invalid_action_is_reported_and_the_rule_continues() {
    let mut fs = state(&[("/w/a.txt", b"x")]);
    let mut broken = action(RuleActionType::Rename, "/w/", r".*");
    broken.rename_pattern = None;
    let delete = action(RuleActionType::Delete, "/w/", r"^a\.txt$");
    let rule = Rule { interval: "1h".to_string(), actions: vec![broken, delete] };

    let reports = execute_rule(&mut fs, &rule, false);
    assert_eq!(reports.len(), 2);
    assert_eq!(*reports[0].as_ref().unwrap_err(), ActionError::MissingParameter);
    assert!(reports[1].is_ok());
    assert_eq!(fs.len(), 0);
}

#[test]
fn rules_run_in_declaration_order() {
    let mut fs = state(&[("/w/a_old.txt", b"x")]);
    let mut rename = action(RuleActionType::Rename, "/w/", r"^([a-z]+)_old\.txt$");
    rename.rename_pattern = Some("$1.txt".to_string());
    let delete = action(RuleActionType::Delete, "/w/", r"^a\.txt$");
    let rules = Rules {
        entries: vec![
            ("first".to_string(), Rule { interval: "1h".to_string(), actions: vec![rename] }),
            ("second".to_string(), Rule { interval: "1h".to_string(), actions: vec![delete] }),
        ],
    };

    let reports = run(&mut fs, &rules, false);
    assert_eq!(reports.len(), 2);
    assert_eq!(fs.len(), 0);
}

#[test]
fn colliding_destinations_are_last_writer_wins() {
    // Two matched files share a basename; both moves target the same
    // destination path and the later one wins.
    let mut fs = state(&[("/in/one/a.log", b"first"), ("/in/two/a.log", b"second")]);
    let mut a = action(RuleActionType::Move, "/in/", r"a\.log$");
    a.destination_dir = Some("/out".to_string());

    let outcomes = run_action(&mut fs, &a, false).unwrap();
    assert_eq!(outcomes.len(), 2);
    assert!(outcomes.iter().all(|o| o.is_ok()));
    assert_eq!(fs.len(), 1);
    assert_eq!(fs.lookup("/out/a.log").unwrap().data, b"second");
}

#[test]
fn chmod_changes_only_the_mode() {
    let mut fs = state(&[("/w/a.sh", b"#!")]);
    let mut a = action(RuleActionType::Chmod, "/w/", r"\.sh$");
    a.permissions = Some(0o755);

    let outcomes = run_action(&mut fs, &a, false).unwrap();
    assert!(outcomes[0].is_ok());
    let rec = fs.lookup("/w/a.sh").unwrap();
    assert_eq!(rec.mode, 0o755);
    assert_eq!(rec.data, b"#!");
}

#[test]
fn copy_keeps_the_original() {
    let mut fs = state(&[("/in/a.log", b"a")]);
    let mut a = action(RuleActionType::Copy, "/in/", r"\.log$");
    a.destination_dir = Some("/out".to_string());

    let outcomes = run_action(&mut fs, &a, false).unwrap();
    assert!(outcomes[0].is_ok());
    assert_eq!(fs.lookup("/in/a.log").unwrap().data, b"a");
    assert_eq!(fs.lookup("/out/a.log").unwrap().data, b"a");
}
