use contextfy::bridge;
use contextfy::ContextfyKit;

#[test]
fn test_contextfy_kit_default() {
    let _kit = bridge::ContextfyKit::default();
}

#[test]
fn test_contextfy_kit_new() {
    let _kit = bridge::ContextfyKit::new();
}

#[test]
fn test_reexport() {
    let _kit: ContextfyKit = ContextfyKit::new();
}

#[test]
fn bridge_shapes_project_results() {
    let b = contextfy::Brief {
        id: "x1".to_string(),
        title: "T".to_string(),
        parent_doc_title: "P".to_string(),
        summary: "S".to_string(),
    };
    let nb = bridge::Brief::from_result(&b);
    assert_eq!(nb.id, "x1");
    assert_eq!(nb.title, "T");
    assert_eq!(nb.summary, "S");
    let d = contextfy::Details { id: "x2".to_string(), title: "U".to_string(), content: "C".to_string() };
    let nd = bridge::Details::from_result(&d);
    assert_eq!(nd.id, "x2");
    assert_eq!(nd.title, "U");
    assert_eq!(nd.content, "C");
}
