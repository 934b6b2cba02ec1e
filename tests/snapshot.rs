use wereply::ax_path::{AxNode, AxNodeInfo, AxRect};
use wereply::ax_snapshot::snapshot_tree;

fn node(role: &str, title: &str, children: Vec<AxNode>) -> AxNode {
    AxNode {
        info: AxNodeInfo { role: Some(role.to_string()), title: Some(title.to_string()) },
        value: None,
        frame: Some(AxRect { x: 1, y: 2, width: 3, height: 4 }),
        enabled: Some(true),
        focused: Some(false),
        children,
    }
}

#[test]
fn snapshot_includes_children_and_metadata() {
    let root = node("AXWindow", "root", vec![node("AXGroup", "child", vec![])]);
    let value: serde_json::Value = serde_json::from_str(&snapshot_tree(&root, 2)).unwrap();
    let obj = value.as_object().expect("root object");
    assert_eq!(obj.get("role").unwrap().as_str(), Some("AXWindow"));
    let children = obj.get("children").unwrap().as_array().unwrap();
    assert_eq!(children.len(), 1);
    let child = children[0].as_object().unwrap();
    assert_eq!(child.get("title").unwrap().as_str(), Some("child"));
    assert!(child.get("frame").unwrap().is_object());
}

#[test]
fn snapshot_respects_depth_limit() {
    let root = node("AXWindow", "root", vec![node("AXGroup", "child", vec![node("AXStaticText", "leaf", vec![])])]);
    let value: serde_json::Value = serde_json::from_str(&snapshot_tree(&root, 1)).unwrap();
    let obj = value.as_object().unwrap();
    let children = obj.get("children").unwrap().as_array().unwrap();
    let child = children[0].as_object().unwrap();
    let grand_children = child.get("children").unwrap().as_array().unwrap();
    assert!(grand_children.is_empty());
}

#[test]
fn snapshot_escapes_text_and_writes_nulls() {
    let mut leaf = node("AXStaticText", "say \"hi\"\\\n\u{1}", vec![]);
    leaf.value = Some("ü".to_string());
    leaf.frame = None;
    leaf.enabled = None;
    let root = node("AXWindow", "w", vec![leaf, node("AXGroup", "", vec![])]);
    let text = snapshot_tree(&root, 3);
    let value: serde_json::Value = serde_json::from_str(&text).unwrap();
    let first = &value["children"][0];
    assert_eq!(first["title"].as_str(), Some("say \"hi\"\\\n\u{1}"));
    assert_eq!(first["value"].as_str(), Some("ü"));
    assert!(first["frame"].is_null() && first["enabled"].is_null());
    assert_eq!(first["focused"].as_bool(), Some(false));
    assert_eq!(value["frame"]["height"].as_i64(), Some(4));
    assert_eq!(value["children"].as_array().unwrap().len(), 2);
    assert!(text.contains("\\u0001"));
}
