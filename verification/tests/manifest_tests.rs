use codex_workflow::errors::WorkflowError;
use codex_workflow::manifest::ManifestFormat;
use codex_workflow::manifest::TicketSpec;
use codex_workflow::manifest::WorkflowManifest;
use codex_workflow::manifest::manifest_format_for;

fn ticket(id: &str) -> TicketSpec {
    TicketSpec {
        id: id.to_string(),
        summary: format!("Ticket {id}"),
        requirements: Vec::new(),
        working_dir: None,
        prompt: None,
        review_prompt: None,
    }
}

fn manifest(path: &str, tickets: Vec<TicketSpec>) -> WorkflowManifest {
    WorkflowManifest { source_path: path.to_string(), name: None, overview: None, tickets }
}

#[test]
fn empty_manifest_fails_validation() {
    let m = manifest("demo.yaml", Vec::new());
    let err = m.validate().unwrap_err();
    assert!(matches!(err, WorkflowError::EmptyManifest));
    assert_eq!(err.message(), "workflow manifest must contain at least one ticket".to_string());
}

#[test]
fn duplicate_ticket_ids_fail_validation() {
    let m = manifest("demo.yaml", vec![ticket("A"), ticket("B"), ticket("A")]);
    let err = m.validate().unwrap_err();
    match err {
        WorkflowError::DuplicateTicketId { ref ticket_id } => assert_eq!(ticket_id, "A"),
        _ => panic!("wrong error variant"),
    }
    assert_eq!(err.message(), "duplicate ticket id A".to_string());
}

#[test]
fn unique_nonempty_manifest_validates() {
    let m = manifest("demo.yaml", vec![ticket("A"), ticket("B")]);
    assert!(m.validate().is_ok());
}

#[test]
fn workflow_name_prefers_declared_name_then_stem() {
    let mut m = manifest("/w/flows/demo.yaml", vec![ticket("A")]);
    assert_eq!(m.workflow_name(), "demo".to_string());
    m.name = Some("named".to_string());
    assert_eq!(m.workflow_name(), "named".to_string());
    let bare = manifest("", vec![ticket("A")]);
    assert_eq!(bare.workflow_name(), "workflow".to_string());
}

#[test]
fn manifest_dir_is_the_containing_directory() {
    assert_eq!(manifest("/w/flows/demo.yaml", Vec::new()).manifest_dir(), "/w/flows".to_string());
    assert_eq!(manifest("demo.yaml", Vec::new()).manifest_dir(), ".".to_string());
    assert_eq!(manifest("/demo.yaml", Vec::new()).manifest_dir(), "/".to_string());
}

#[test]
fn working_dir_resolution() {
    let mut t = ticket("A");
    assert_eq!(t.resolved_working_dir("/base"), "/base".to_string());
    t.working_dir = Some("sub/dir".to_string());
    assert_eq!(t.resolved_working_dir("/base"), "/base/sub/dir".to_string());
    t.working_dir = Some("/abs".to_string());
    assert_eq!(t.resolved_working_dir("/base"), "/abs".to_string());
}

#[test]
fn format_follows_the_extension_case_insensitively() {
    assert_eq!(manifest_format_for("a/flow.yaml"), ManifestFormat::Yaml);
    assert_eq!(manifest_format_for("a/flow.YML"), ManifestFormat::Yaml);
    assert_eq!(manifest_format_for("flow.toml"), ManifestFormat::Toml);
    assert_eq!(manifest_format_for("flow.TML"), ManifestFormat::Toml);
    assert_eq!(manifest_format_for("flow.json"), ManifestFormat::Unknown);
    assert_eq!(manifest_format_for("flow"), ManifestFormat::Unknown);
}
