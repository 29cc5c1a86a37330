use lsp_proxy::snapshot::{SnapshotTrigger, TakeSnapshot};

#[test]
fn default_trigger_writes_to_dot_snapshots() {
    let trigger = SnapshotTrigger::new();
    assert_eq!(trigger.capture("my_component"), ".snapshots/my_component.png");
    let trigger = SnapshotTrigger::default();
    assert_eq!(trigger.capture("after_click"), ".snapshots/after_click.png");
}

#[test]
fn custom_output_dir_is_used() {
    let trigger = SnapshotTrigger::with_output_dir("test_output");
    assert_eq!(trigger.capture("button_hover"), "test_output/button_hover.png");
    let trigger = SnapshotTrigger::with_output_dir(".snapshots");
    assert_eq!(trigger.capture("x"), SnapshotTrigger::new().capture("x"));
}

#[test]
fn event_prefix_names_the_file() {
    let event = TakeSnapshot { prefix: "snapshot_demo".to_string() };
    let copy = event.clone();
    assert_eq!(copy.prefix, "snapshot_demo");
    let trigger = SnapshotTrigger::new();
    assert_eq!(trigger.capture(&event.prefix), ".snapshots/snapshot_demo.png");
    assert_eq!(trigger.capture(""), ".snapshots/.png");
}
