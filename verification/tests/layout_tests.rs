use codex_workflow::layout::WorkflowLayout;
use codex_workflow::layout::sanitize;

#[test]
fn ticket_dirs_are_sanitized() {
    let layout = WorkflowLayout::new(String::from("/tmp/workflow"));
    let dir = layout.ticket_dir("ABC/123");
    assert!(dir.ends_with("ticket-ABC_123"));
    assert_eq!(
        layout.worker_log_path("hello world"),
        String::from("/tmp/workflow/ticket-hello_world/worker.log")
    );
}

#[test]
fn sanitize_keeps_safe_characters() {
    assert_eq!(sanitize("abc-DEF_09"), String::from("abc-DEF_09"));
    assert_eq!(sanitize("a b/c.d"), String::from("a_b_c_d"));
    assert_eq!(sanitize(""), String::from(""));
}

#[test]
fn layout_paths_hang_off_the_root() {
    let layout = WorkflowLayout::new(String::from("/root/dir"));
    assert_eq!(layout.state_file(), String::from("/root/dir/state.json"));
    assert_eq!(layout.ticket_dir("T1"), String::from("/root/dir/ticket-T1"));
    assert_eq!(
        layout.review_log_path("T1"),
        String::from("/root/dir/ticket-T1/review.log")
    );
    assert_eq!(layout.patch_dir("T1"), String::from("/root/dir/ticket-T1/patches"));
    assert_eq!(layout.root(), "/root/dir");
}

#[test]
fn trailing_slash_roots_do_not_double_the_separator() {
    let layout = WorkflowLayout::new(String::from("/r/"));
    assert_eq!(layout.state_file(), String::from("/r/state.json"));
}
