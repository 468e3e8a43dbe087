//! Code clones: markers, descriptions and the issues that are filed.

use crosslink::commands::cpitd::{
    build_scan_args, classify_output, clear, cpitd_available, dedup_marker, dry_run, file_report,
    find_existing_clone_issue, format_clone_description, format_clone_title, relate_clone_issues,
    report_has_ranges, report_scan, run, scan_and_file, shorten_path, status, CloneIssue,
    CpitdCloneGroup, CpitdCloneReport, CpitdCommands, CpitdOutput, CpitdTask, Filing,
};

fn report(file_a: &str, file_b: &str) -> CpitdCloneReport {
    CpitdCloneReport {
        file_a: file_a.to_string(),
        file_b: file_b.to_string(),
        total_cloned_lines: 10,
        groups: vec![CpitdCloneGroup {
            lines_a: vec![1, 10],
            lines_b: vec![20, 29],
            line_count: 10,
            token_count: 80,
        }],
    }
}

#[test]
fn test_dedup_marker_commutative() {
    let m1 = dedup_marker("src/a.rs", "src/b.rs");
    let m2 = dedup_marker("src/b.rs", "src/a.rs");
    assert_eq!(m1, m2);
}

#[test]
fn test_dedup_marker_contains_paths() {
    let marker = dedup_marker("foo.py", "bar.py");
    assert!(marker.contains("bar.py"));
    assert!(marker.contains("foo.py"));
    assert!(marker.starts_with("<!-- cpitd:"));
    assert!(marker.ends_with(" -->"));
}

#[test]
fn test_shorten_path_basic() {
    assert_eq!(shorten_path("src/commands/foo.rs"), "foo.rs");
    assert_eq!(shorten_path("bar.py"), "bar.py");
    assert_eq!(shorten_path("a/b/c/d.txt"), "d.txt");
}

#[test]
fn test_format_clone_description() {
    let report = CpitdCloneReport {
        file_a: "src/foo.rs".to_string(),
        file_b: "src/bar.rs".to_string(),
        total_cloned_lines: 10,
        groups: vec![CpitdCloneGroup {
            lines_a: vec![1, 10],
            lines_b: vec![20, 29],
            line_count: 10,
            token_count: 80,
        }],
    };
    let desc = format_clone_description(&report);
    assert!(desc.contains("<!-- cpitd:"));
    assert!(desc.contains("src/bar.rs"));
    assert!(desc.contains("src/foo.rs"));
    assert!(desc.contains("10"));
    assert!(desc.contains("80 tokens"));
}

#[test]
fn a_description_holds_its_marker() {
    let r = report("src/foo.rs", "src/bar.rs");
    assert!(format_clone_description(&r).contains(&dedup_marker("src/bar.rs", "src/foo.rs")));
    assert!(format_clone_title(&r).contains("foo.rs"));
    assert!(report_has_ranges(&r));
}

#[test]
fn a_second_scan_creates_nothing() {
    let reports = vec![report("a.rs", "b.rs"), report("a.rs", "c.rs")];
    let first = scan_and_file(&Vec::new(), &reports, &vec![5, 6]);
    assert_eq!(first.created.len(), 2);
    assert_eq!(first.created[0].0, 5);
    assert!(first.updated.is_empty());

    let known = vec![
        CloneIssue { id: 5, description: Some(format_clone_description(&reports[0])) },
        CloneIssue { id: 6, description: Some(format_clone_description(&reports[1])) },
    ];
    let second = scan_and_file(&known, &reports, &vec![7, 8]);
    assert!(second.created.is_empty());
    assert_eq!(second.updated, vec![5, 6]);
}

#[test]
fn a_known_clone_is_commented_on() {
    let r = report("a.rs", "b.rs");
    let known = vec![CloneIssue { id: 3, description: Some(format_clone_description(&r)) }];
    assert_eq!(find_existing_clone_issue(&known, "b.rs", "a.rs"), Some(3));
    assert_eq!(find_existing_clone_issue(&known, "b.rs", "z.rs"), None);
    match file_report(&known, &r) {
        Filing::Comment { id, comment, kind } => {
            assert_eq!(id, 3);
            assert!(comment.starts_with("[cpitd rescan] "));
            assert_eq!(kind, "note");
        }
        Filing::Create(_) => panic!("expected a comment"),
    }
}

#[test]
fn a_new_clone_becomes_a_labelled_issue_of_low_priority() {
    let r = report("src/a.rs", "src/b.rs");
    match file_report(&Vec::new(), &r) {
        Filing::Create(new) => {
            assert!(new.title.starts_with("Code clone: a.rs <-> b.rs ("));
            assert!(new.description.unwrap().contains(&dedup_marker("src/a.rs", "src/b.rs")));
            assert_eq!(new.priority, "low");
            assert_eq!(new.labels, vec!["cpitd", "refactor"]);
        }
        Filing::Comment { .. } => panic!("expected a new issue"),
    }
}

#[test]
fn clones_with_a_file_in_common_are_related() {
    let created = vec![
        (1, "a.rs".to_string(), "b.rs".to_string()),
        (2, "b.rs".to_string(), "c.rs".to_string()),
        (3, "x.rs".to_string(), "y.rs".to_string()),
    ];
    assert_eq!(relate_clone_issues(&created), vec![(1, 2)]);
}

#[test]
fn output_is_told_from_silence_and_from_errors() {
    assert_eq!(classify_output(" {} ", "noise"), Ok(true));
    assert_eq!(classify_output("  \n", " "), Ok(false));
    let error = classify_output("", " broken \n").unwrap_err();
    assert_eq!(error, "cpitd produced no output. stderr: broken");
}

#[test]
fn a_dry_run_says_what_it_found() {
    let none = CpitdOutput { clone_reports: vec![], total_pairs: 0 };
    assert_eq!(dry_run(&none, false), "No code clones detected.\n");
    assert_eq!(dry_run(&none, true), "");
    let one = CpitdOutput { clone_reports: vec![report("a.rs", "b.rs")], total_pairs: 1 };
    assert!(dry_run(&one, false).starts_with("Found 1 clone pair(s).\n\n"));
}

#[test]
fn the_tool_must_be_there_to_scan() {
    assert!(cpitd_available(Some(true)));
    assert!(!cpitd_available(Some(false)));
    assert!(!cpitd_available(None));
    let scan = CpitdCommands::Scan {
        paths: vec!["src".to_string()],
        min_tokens: 50,
        ignore: vec![],
        dry_run: true,
    };
    assert!(run(&scan, false, false).err().unwrap().contains("not installed"));
    assert!(matches!(run(&scan, true, false), Ok(CpitdTask::Scan { dry_run: true, .. })));
    assert!(matches!(run(&CpitdCommands::Clear, false, false), Ok(CpitdTask::Clear)));
}

#[test]
fn scan_arguments_name_the_tokens_and_the_ignored() {
    let args = build_scan_args(&vec!["src".to_string()], 50, &vec!["target".to_string()]);
    assert!(args.contains(&"50".to_string()));
    assert!(args.contains(&"target".to_string()));
    assert!(args.contains(&"src".to_string()));
}

#[test]
fn reports_count() {
    assert!(status(&vec![]).contains("No open cpitd clone issues"));
    assert!(status(&vec![("#1".to_string(), "Clone".to_string())]).contains("#1"));
    assert!(clear(2).contains('2'));
    let said = report_scan(&vec!["#1".to_string()], &vec!["#2".to_string()], false);
    assert!(said.contains("#1"));
}
