use sshmenu::permissions::{captured_text, failure_text, success_text, OpOutcome, PermissionFixer};

fn ok(stdout: &str) -> OpOutcome {
    OpOutcome::Exited { code: Some(0), stdout: stdout.to_string(), stderr: String::new() }
}

fn exited(code: Option<i32>, stdout: &str, stderr: &str) -> OpOutcome {
    OpOutcome::Exited { code, stdout: stdout.to_string(), stderr: stderr.to_string() }
}

fn five_operations() -> PermissionFixer {
    let operations = (1..=5).map(|i| vec![format!("/op{}", i)]).collect();
    PermissionFixer::new("tool".to_string(), "key.pem".to_string(), operations)
}

#[test]
fn a_failure_of_the_third_of_five_stops_before_the_fourth() {
    let mut f = five_operations();
    let mut run = Vec::new();
    let outcomes = vec![ok("one"), ok("two"), exited(Some(5), "three", "denied"), ok("four"), ok("five")];
    for outcome in outcomes {
        match f.next_operation() {
            Some(args) => run.push(args.clone()),
            None => break,
        }
        f.record(outcome);
    }
    assert_eq!(run, vec![vec!["/op1".to_string()], vec!["/op2".to_string()], vec!["/op3".to_string()]]);
    assert!(f.is_finished());
    assert!(f.next_operation().is_none());
    assert_eq!(f.attempted(), 3);
    let report = match f.result() {
        Some(Err(report)) => report,
        other => panic!("expected a failure, got {:?}", other),
    };
    assert_eq!(report.attempted, 3);
    assert_eq!(
        report.text,
        "❌ tool [\"/op3\"] failed with code 5\n> tool [\"/op1\"]\nstdout:\none\n> tool [\"/op2\"]\nstdout:\ntwo\n> tool [\"/op3\"]\nstdout:\nthree\nstderr:\ndenied\n"
    );
    assert!(!report.text.contains("four"));
}

#[test]
fn outcomes_after_the_end_change_nothing() {
    let mut f = five_operations();
    f.record(exited(Some(1), "", "bad"));
    let before = f.result().map(|r| r.map(|x| x.text).map_err(|x| x.text));
    f.record(ok("late"));
    f.record(exited(Some(2), "later", ""));
    assert_eq!(f.attempted(), 1);
    assert_eq!(f.result().map(|r| r.map(|x| x.text).map_err(|x| x.text)), before);
    assert_eq!(f.output(), "> tool [\"/op1\"]\nstderr:\nbad\n");
}

#[test]
fn all_operations_succeeding_is_a_success_with_the_combined_output() {
    let mut f = five_operations();
    let mut count = 0;
    while f.next_operation().is_some() {
        count += 1;
        assert!(f.result().is_none());
        f.record(exited(Some(0), if count == 2 { "" } else { "fine" }, if count == 4 { "warn" } else { "" }));
    }
    assert_eq!(count, 5);
    let report = match f.result() {
        Some(Ok(report)) => report,
        other => panic!("expected a success, got {:?}", other),
    };
    assert_eq!(report.attempted, 5);
    assert_eq!(
        report.text,
        "✔ Permissions fixed for key.pem\n> tool [\"/op1\"]\nstdout:\nfine\n> tool [\"/op2\"]\n> tool [\"/op3\"]\nstdout:\nfine\n> tool [\"/op4\"]\nstdout:\nfine\nstderr:\nwarn\n> tool [\"/op5\"]\nstdout:\nfine\n"
    );
}

#[test]
fn there_is_no_result_while_operations_are_left() {
    let mut f = five_operations();
    assert!(f.result().is_none());
    assert!(!f.is_finished());
    assert_eq!(f.output(), "");
    f.record(ok(""));
    assert!(f.result().is_none());
    assert_eq!(f.next_operation(), Some(&vec!["/op2".to_string()]));
}

#[test]
fn a_command_that_could_not_be_started_fails_the_sequence() {
    let mut f = PermissionFixer::acl("C:\\k".to_string(), "me");
    f.record(ok("reset"));
    f.record(OpOutcome::NotStarted { error: "program not found".to_string() });
    assert!(f.next_operation().is_none());
    let report = match f.result() {
        Some(Err(report)) => report,
        other => panic!("expected a failure, got {:?}", other),
    };
    assert_eq!(report.attempted, 2);
    assert_eq!(
        report.text,
        "❌ Failed to run icacls [\"/inheritance:r\"]: program not found\n> icacls [\"/reset\"]\nstdout:\nreset\n"
    );
}

#[test]
fn a_command_without_exit_code_is_reported_as_minus_one() {
    let mut f = PermissionFixer::mode_bits("/home/me/.ssh/id".to_string());
    f.record(exited(None, "", ""));
    match f.result() {
        Some(Err(report)) => {
            assert_eq!(report.text, "❌ chmod [\"400\"] failed with code -1\n> chmod [\"400\"]\n")
        }
        other => panic!("expected a failure, got {:?}", other),
    }
}

#[test]
fn a_negative_exit_code_is_reported_with_its_sign() {
    let mut f = PermissionFixer::mode_bits("k".to_string());
    f.record(exited(Some(-1073741510), "", ""));
    match f.result() {
        Some(Err(report)) => assert!(report.text.starts_with("❌ chmod [\"400\"] failed with code -1073741510\n")),
        other => panic!("expected a failure, got {:?}", other),
    }
}

#[test]
fn the_access_control_sequence_has_its_six_operations() {
    let mut f = PermissionFixer::acl("C:\\Users\\me\\.ssh\\id_rsa".to_string(), "me");
    assert_eq!(f.program(), "icacls");
    assert_eq!(f.path(), "C:\\Users\\me\\.ssh\\id_rsa");
    let mut seen: Vec<Vec<String>> = Vec::new();
    while let Some(args) = f.next_operation() {
        seen.push(args.clone());
        f.record(ok(""));
    }
    let expected: Vec<Vec<String>> = vec![
        vec!["/reset"],
        vec!["/inheritance:r"],
        vec!["/remove", "NT AUTHORITY\\Authenticated Users"],
        vec!["/remove", "BUILTIN\\Users"],
        vec!["/remove", "Everyone"],
        vec!["/grant:r", "me:R"],
    ]
    .into_iter()
    .map(|args| args.into_iter().map(String::from).collect())
    .collect();
    assert_eq!(seen, expected);
    assert!(matches!(f.result(), Some(Ok(_))));
}

#[test]
fn arguments_are_shown_quoted_and_escaped() {
    let mut f = PermissionFixer::acl("k".to_string(), "me");
    for _ in 0..4 {
        f.record(ok(""));
    }
    assert_eq!(
        f.output(),
        "> icacls [\"/reset\"]\n> icacls [\"/inheritance:r\"]\n> icacls [\"/remove\", \"NT AUTHORITY\\\\Authenticated Users\"]\n> icacls [\"/remove\", \"BUILTIN\\\\Users\"]\n"
    );
}

#[test]
fn the_mode_bit_sequence_is_one_operation() {
    let mut f = PermissionFixer::mode_bits("/k".to_string());
    assert_eq!(f.program(), "chmod");
    assert_eq!(f.next_operation(), Some(&vec!["400".to_string()]));
    f.record(ok("ok"));
    assert!(f.next_operation().is_none());
    match f.result() {
        Some(Ok(report)) => {
            assert_eq!(report.text, "✔ Permissions fixed for /k\n> chmod [\"400\"]\nstdout:\nok\n");
            assert_eq!(report.attempted, 1);
        }
        other => panic!("expected a success, got {:?}", other),
    }
}

#[test]
fn a_sequence_of_no_operations_succeeds_at_once() {
    let f = PermissionFixer::new("tool".to_string(), "p".to_string(), Vec::new());
    assert!(f.is_finished());
    assert!(f.next_operation().is_none());
    match f.result() {
        Some(Ok(report)) => {
            assert_eq!(report.text, "✔ Permissions fixed for p\n");
            assert_eq!(report.attempted, 0);
        }
        other => panic!("expected a success, got {:?}", other),
    }
}

#[test]
fn success_is_exit_code_zero() {
    assert!(ok("").succeeded());
    assert!(!exited(Some(1), "", "").succeeded());
    assert!(!exited(None, "", "").succeeded());
    assert!(!OpOutcome::NotStarted { error: String::new() }.succeeded());
}

#[test]
fn an_operation_that_ran_adds_its_command_and_its_output() {
    let both = exited(Some(0), "processed file: k", "warning");
    assert_eq!(
        captured_text("icacls", "[\"/reset\"]", &both),
        "> icacls [\"/reset\"]\nstdout:\nprocessed file: k\nstderr:\nwarning\n"
    );
    assert_eq!(captured_text("icacls", "[]", &exited(Some(3), "", "")), "> icacls []\n");
    assert_eq!(captured_text("t", "x", &exited(None, "", "e")), "> t x\nstderr:\ne\n");
}

#[test]
fn an_operation_that_could_not_be_started_adds_nothing() {
    let outcome = OpOutcome::NotStarted { error: "no such program".to_string() };
    assert_eq!(captured_text("icacls", "[\"/reset\"]", &outcome), "");
}

#[test]
fn the_first_line_of_a_failure_names_the_command_and_the_reason() {
    assert_eq!(
        failure_text("icacls", "[\"/reset\"]", &exited(Some(1332), "out", "err")),
        "❌ icacls [\"/reset\"] failed with code 1332"
    );
    assert_eq!(failure_text("chmod", "[\"400\"]", &exited(None, "", "")), "❌ chmod [\"400\"] failed with code -1");
    assert_eq!(
        failure_text("icacls", "[]", &OpOutcome::NotStarted { error: "denied".to_string() }),
        "❌ Failed to run icacls []: denied"
    );
}

#[test]
fn the_first_line_of_a_success_names_the_file() {
    assert_eq!(success_text("C:\\keys\\id"), "✔ Permissions fixed for C:\\keys\\id");
    assert_eq!(success_text(""), "✔ Permissions fixed for ");
}
