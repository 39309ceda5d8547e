use codex_workflow::session::SessionLauncher;
use codex_workflow::session::SessionRequest;
use codex_workflow::session::SessionResult;
use codex_workflow::session::render_session_log;

#[test]
fn session_args_are_built_in_order() {
    let launcher = SessionLauncher::new(
        "/usr/bin/codex".to_string(),
        vec!["a=1".to_string(), "b=2".to_string()],
    );
    assert_eq!(launcher.codex_bin(), "/usr/bin/codex");
    let request = SessionRequest {
        prompt: "do the thing".to_string(),
        working_dir: "/repo".to_string(),
        log_path: "/art/worker.log".to_string(),
        model: Some("m1".to_string()),
    };
    let args = launcher.session_args(&request);
    assert_eq!(
        args,
        vec![
            "exec".to_string(),
            "-c".to_string(),
            "a=1".to_string(),
            "-c".to_string(),
            "b=2".to_string(),
            "--skip-git-repo-check".to_string(),
            "-m".to_string(),
            "m1".to_string(),
            "-C".to_string(),
            "/repo".to_string(),
            "do the thing".to_string(),
        ]
    );
}

#[test]
fn session_args_without_overrides_or_model() {
    let launcher = SessionLauncher::new("codex".to_string(), Vec::new());
    let request = SessionRequest {
        prompt: "p".to_string(),
        working_dir: "/wd".to_string(),
        log_path: "/l".to_string(),
        model: None,
    };
    assert_eq!(
        launcher.session_args(&request),
        vec![
            "exec".to_string(),
            "--skip-git-repo-check".to_string(),
            "-C".to_string(),
            "/wd".to_string(),
            "p".to_string(),
        ]
    );
}

#[test]
fn result_success_means_exit_code_zero() {
    assert!(SessionResult::from_output(Some(0), String::new(), String::new()).success);
    assert!(!SessionResult::from_output(Some(1), String::new(), String::new()).success);
    assert!(!SessionResult::from_output(None, String::new(), String::new()).success);
}

#[test]
fn log_text_has_the_exact_structure() {
    let log = render_session_log("ask politely", Some(0), "output line", "warnings");
    assert_eq!(
        log,
        "# Prompt\nask politely\n\n# Exit Status: Some(0)\n\n## STDOUT\noutput line\n\n## STDERR\nwarnings\n"
            .to_string()
    );
}

#[test]
fn log_text_keeps_a_trailing_newline_and_spells_signals() {
    let log = render_session_log("p", None, "done\n", "");
    assert_eq!(
        log,
        "# Prompt\np\n\n# Exit Status: None\n\n## STDOUT\ndone\n\n## STDERR\n\n".to_string()
    );
    let negative = render_session_log("p", Some(-9), "", "");
    assert!(negative.contains("# Exit Status: Some(-9)"));
}
