use sdag::viz::view_pipeline;

#[test]
fn pipeline_picture_from_mermaid() {
    let text = "flowchart LR\n    A --> B";
    let picture = view_pipeline(text).unwrap();
    assert_ne!(picture, text);
    assert!(picture.contains('A'));
    assert!(picture.contains('B'));
    assert!(!picture.contains("-->"));
}

#[test]
fn empty_mermaid_cannot_be_drawn() {
    assert!(view_pipeline("").is_err());
}
