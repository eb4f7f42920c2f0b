use filewatch::paths::basename;
use filewatch::paths::join_dir;
use filewatch::paths::str_eq;
use filewatch::paths::strip_prefix;
use filewatch::pattern::Pattern;
use filewatch::rules::generate_new_filename;
use filewatch::rules::match_directory_listing;
use filewatch::rules::path_matches;
use filewatch::rules::ActionError;
use filewatch::rules::FileOp;
use filewatch::rules::RuleAction;
use filewatch::rules::RuleActionType;

fn mk_action(kind: RuleActionType, watch: &str, pattern: &str) -> RuleAction {
    RuleAction {
        action: kind,
        watch_dir: watch.to_string(),
        match_regex: Some(Pattern::new(pattern).unwrap()),
        rename_pattern: None,
        destination_dir: None,
        permissions: None,
    }
}

#[test]
fn matches_relative_path_table() {
    // (root, absolute path, pattern, expected)
    let table: Vec<(&str, &str, &str, bool)> = vec![
        ("/in", "/in/a.log", r"\.log$", true),
        ("/in", "/in/b.txt", r"\.log$", false),
        ("/in/", "/in/a.log", r"^a\.log$", true),
        ("/in/", "/in/sub/a.log", r"^a\.log$", false),
        ("/in/", "/in/sub/a.log", r"^sub/a\.log$", true),
        // The path does not start with the root: it is tested unchanged.
        ("/other/", "/in/a.log", r"^/in/a\.log$", true),
        ("/other/", "/in/a.log", r"^a\.log$", false),
        ("", "x.log", r"^x\.log$", true),
    ];
    for (root, path, pattern, expected) in table {
        let re = Pattern::new(pattern).unwrap();
        assert_eq!(path_matches(&re, root, path), expected);
    }
}

#[test]
fn directory_listing_keeps_matches_in_order() {
    let re = Pattern::new(r"\.log$").unwrap();
    let listing = vec![
        "/in/z.log".to_string(),
        "/in/a.txt".to_string(),
        "/in/b.log".to_string(),
        "/in/c.md".to_string(),
    ];
    let matched = match_directory_listing("/in", &re, &listing);
    assert_eq!(matched, vec!["/in/z.log".to_string(), "/in/b.log".to_string()]);
}

#[test]
fn directory_listing_empty_is_not_an_error() {
    let re = Pattern::new(r"\.log$").unwrap();
    let matched = match_directory_listing("/in", &re, &Vec::new());
    assert!(matched.is_empty());
}

#[test]
fn template_expansion_reorders_date_segments() {
    let re = Pattern::new(r"^(\d{4})-(\d{2})-(\d{2})_(.+)\.txt$").unwrap();
    let out = generate_new_filename("/w/", "/w/2024-01-15_report.txt", &re, "$3/$2/$1_$4.txt")
        .unwrap();
    assert_eq!(out, "/w/15/01/2024_report.txt");
}

#[test]
fn template_dollar_escape_stays_literal() {
    let re = Pattern::new(r"^(\d+)\.txt$").unwrap();
    let out = generate_new_filename("/w/", "/w/7.txt", &re, "$$$1.txt").unwrap();
    assert_eq!(out, "/w/$7.txt");
}

#[test]
fn template_named_groups_expand() {
    let re = Pattern::new(r"^(?<stem>[a-z]+)\.log$").unwrap();
    let out = generate_new_filename("/w/", "/w/report.log", &re, "$stem.txt.log").unwrap();
    // `$stem` takes the longest word run: the reference is `stem` and the
    // remainder after the first `.` is literal.
    assert_eq!(out, "/w/report.txt.log");
}

#[test]
fn template_braced_reference_untouched() {
    let re = Pattern::new(r"^([a-z]+)_(\d+)\.txt$").unwrap();
    let out = generate_new_filename("/w/", "/w/abc_42.txt", &re, "${2}_${1}.txt").unwrap();
    assert_eq!(out, "/w/42_abc.txt");
}

#[test]
fn template_error_when_path_does_not_match() {
    let re = Pattern::new(r"^(\d{4})\.txt$").unwrap();
    let err = generate_new_filename("/w/", "/w/nope.md", &re, "$1.txt").unwrap_err();
    assert_eq!(err, ActionError::Template);
}

#[test]
fn invalid_pattern_is_rejected() {
    let err = Pattern::new("foo(").unwrap_err();
    assert_eq!(err, ActionError::Pattern);
}

#[test]
fn missing_parameter_fails_before_any_work() {
    let mut a = mk_action(RuleActionType::Rename, "/w/", r".*");
    a.rename_pattern = None;
    let err = a.execute(&vec!["/w/a.txt".to_string()]).unwrap_err();
    assert_eq!(err, ActionError::MissingParameter);

    let mut b = mk_action(RuleActionType::Move, "/w/", r".*");
    b.destination_dir = None;
    assert_eq!(b.execute(&Vec::new()).unwrap_err(), ActionError::MissingParameter);

    let mut c = mk_action(RuleActionType::Chmod, "/w/", r".*");
    c.permissions = None;
    assert_eq!(c.execute(&Vec::new()).unwrap_err(), ActionError::MissingParameter);

    let mut d = mk_action(RuleActionType::Delete, "/w/", r".*");
    d.match_regex = None;
    assert_eq!(d.execute(&Vec::new()).unwrap_err(), ActionError::MissingParameter);
}

#[test]
fn rename_plan_is_noop_when_target_equals_source() {
    let mut a = mk_action(RuleActionType::Rename, "/w/", r"^([a-z]+)(_old)?\.txt$");
    a.rename_pattern = Some("$1.txt".to_string());
    let plan = a.execute(&vec!["/w/a.txt".to_string()]).unwrap();
    assert_eq!(plan.len(), 1);
    assert!(matches!(plan[0], FileOp::NoOp));
}

#[test]
fn rename_plan_builds_target_from_captures() {
    let mut a = mk_action(RuleActionType::Rename, "/w/", r"^([a-z]+)_old\.txt$");
    a.rename_pattern = Some("$1.txt".to_string());
    let plan = a.execute(&vec!["/w/abc_old.txt".to_string()]).unwrap();
    assert_eq!(plan.len(), 1);
    match &plan[0] {
        FileOp::Rename { from, to } => {
            assert_eq!(from, "/w/abc_old.txt");
            assert_eq!(to, "/w/abc.txt");
        }
        other => panic!("unexpected op: {:?}", op_name(other)),
    }
}

#[test]
fn move_plan_is_copy_then_delete_into_destination() {
    let mut a = mk_action(RuleActionType::Move, "/in", r"\.log$");
    a.destination_dir = Some("/out".to_string());
    let plan = a.execute(&vec!["/in/a.log".to_string()]).unwrap();
    match &plan[0] {
        FileOp::CopyThenDelete { from, to } => {
            assert_eq!(from, "/in/a.log");
            assert_eq!(to, "/out/a.log");
        }
        other => panic!("unexpected op: {:?}", op_name(other)),
    }
}

#[test]
fn move_plan_is_noop_when_destination_equals_source() {
    let mut a = mk_action(RuleActionType::Move, "/in", r"\.log$");
    a.destination_dir = Some("/in".to_string());
    let plan = a.execute(&vec!["/in/a.log".to_string()]).unwrap();
    assert!(matches!(plan[0], FileOp::NoOp));
}

#[test]
fn copy_link_chmod_plans() {
    let mut c = mk_action(RuleActionType::Copy, "/in", r"\.log$");
    c.destination_dir = Some("/out".to_string());
    let plan = c.execute(&vec!["/in/a.log".to_string()]).unwrap();
    assert!(matches!(&plan[0], FileOp::Copy { .. }));

    let mut l = mk_action(RuleActionType::Link, "/in", r"\.log$");
    l.destination_dir = Some("/out".to_string());
    let plan = l.execute(&vec!["/in/a.log".to_string()]).unwrap();
    match &plan[0] {
        FileOp::HardLink { from, to } => {
            assert_eq!(from, "/in/a.log");
            assert_eq!(to, "/out/a.log");
        }
        other => panic!("unexpected op: {:?}", op_name(other)),
    }

    let mut m = mk_action(RuleActionType::Chmod, "/in", r"\.log$");
    m.permissions = Some(0o644);
    let plan = m.execute(&vec!["/in/a.log".to_string()]).unwrap();
    match &plan[0] {
        FileOp::Chmod { path, mode } => {
            assert_eq!(path, "/in/a.log");
            assert_eq!(*mode, 0o644);
        }
        other => panic!("unexpected op: {:?}", op_name(other)),
    }
}

#[test]
fn captures_hand_out_groups_in_order() {
    let re = Pattern::new(r"^(a)(b)?(c)$").unwrap();
    let caps = re.captures("ac").unwrap();
    assert_eq!(caps.len(), 4);
    assert_eq!(caps[0].as_deref(), Some("ac"));
    assert_eq!(caps[1].as_deref(), Some("a"));
    assert_eq!(caps[2], None);
    assert_eq!(caps[3].as_deref(), Some("c"));
    assert!(re.captures("zzz").is_none());
}

#[test]
fn pattern_keeps_its_source_text() {
    let re = Pattern::new(r"^x$").unwrap();
    assert_eq!(re.as_str(), r"^x$");
    assert!(re.is_match("x"));
    assert!(!re.is_match("y"));
}

#[test]
fn path_helpers() {
    assert_eq!(strip_prefix("/in/a.log", "/in/"), "a.log");
    assert_eq!(strip_prefix("/in/a.log", "/out/"), "/in/a.log");
    assert_eq!(strip_prefix("abc", "abc"), "");
    assert_eq!(basename("/a/b/c.txt"), "c.txt");
    assert_eq!(basename("c.txt"), "c.txt");
    assert_eq!(basename("/a/b/"), "");
    assert_eq!(basename(""), "");
    assert_eq!(join_dir("/out", "a.log"), "/out/a.log");
    assert!(str_eq("abc", "abc"));
    assert!(!str_eq("abc", "abd"));
    assert!(!str_eq("abc", "ab"));
}

fn op_name(op: &FileOp) -> &'static str {
    match op {
        FileOp::NoOp => "NoOp",
        FileOp::Rename { .. } => "Rename",
        FileOp::CopyThenDelete { .. } => "CopyThenDelete",
        FileOp::Copy { .. } => "Copy",
        FileOp::Delete { .. } => "Delete",
        FileOp::HardLink { .. } => "HardLink",
        FileOp::Chmod { .. } => "Chmod",
    }
}
