use codex_workflow::layout::WorkflowLayout;
use codex_workflow::manifest::TicketSpec;
use codex_workflow::manifest::WorkflowManifest;
use codex_workflow::prompts::build_review_prompt;
use codex_workflow::prompts::build_worker_prompt;
use codex_workflow::prompts::review_prompt_for;
use codex_workflow::prompts::worker_prompt_for;

fn fixture() -> (WorkflowManifest, WorkflowLayout) {
    let manifest = WorkflowManifest {
        source_path: "/w/flow.yaml".to_string(),
        name: Some("flow".to_string()),
        overview: Some("Keep the build green.".to_string()),
        tickets: Vec::new(),
    };
    let layout = WorkflowLayout::new("/art".to_string());
    (manifest, layout)
}

fn ticket() -> TicketSpec {
    TicketSpec {
        id: "T1".to_string(),
        summary: "Fix the parser".to_string(),
        requirements: vec!["Add tests".to_string(), "Update docs".to_string()],
        working_dir: None,
        prompt: None,
        review_prompt: None,
    }
}

#[test]
fn worker_prompt_names_the_ticket_and_patch_dir() {
    let (manifest, layout) = fixture();
    let prompt = build_worker_prompt(&manifest, &ticket(), &layout);
    assert!(prompt.starts_with("Workflow overview:\nKeep the build green."));
    assert!(prompt.contains("Ticket T1: Fix the parser"));
    assert!(prompt.contains("Requirements:\n- Add tests\n- Update docs"));
    // The instruction names the patch directory; wrapping may break the
    // path after a slash or hyphen, so drop the line breaks before looking.
    let flat = prompt.replace('\n', "");
    assert!(flat.contains("/art/ticket-T1/patches"));
    assert!(!prompt.ends_with('\n'));
}

#[test]
fn review_prompt_points_at_the_worker_log() {
    let (manifest, layout) = fixture();
    let prompt = build_review_prompt(&manifest, &ticket(), &layout);
    assert!(prompt.contains("Review ticket T1 (Fix the parser) for correctness and completeness."));
    assert!(prompt.contains("Confirm that the following requirements are satisfied:\n- Add tests\n- Update docs"));
    assert!(prompt.contains("/art/ticket-T1/worker.log"));
}

#[test]
fn explicit_prompt_overrides_win() {
    let (manifest, layout) = fixture();
    let mut t = ticket();
    t.prompt = Some("custom worker".to_string());
    t.review_prompt = Some("custom review".to_string());
    assert_eq!(worker_prompt_for(&manifest, &t, &layout), "custom worker".to_string());
    assert_eq!(review_prompt_for(&manifest, &t, &layout), "custom review".to_string());
    t.prompt = None;
    assert!(worker_prompt_for(&manifest, &t, &layout).contains("Ticket T1"));
}

#[test]
fn generated_text_is_wrapped_to_the_column_width() {
    let (mut manifest, layout) = fixture();
    manifest.overview = Some(
        "This overview sentence is deliberately made long enough that wrapping at one hundred \
         display columns must break it into several shorter lines for log readability purposes."
            .to_string(),
    );
    let prompt = build_worker_prompt(&manifest, &ticket(), &layout);
    assert!(prompt.lines().count() > 4);
    for line in prompt.lines() {
        assert!(line.chars().count() <= 100, "line too long: {line}");
    }
}
