use pax_manifest::manifest::TemplateNodeDefinition;
use pax_manifest::node_map::TemplateNodeMap;

fn node(id: &str, pascal: &str, children: &[&str]) -> TemplateNodeDefinition {
    TemplateNodeDefinition {
        id: id.to_string(),
        component_id: "c".to_string(),
        inline_attributes: None,
        children_ids: children.iter().map(|s| s.to_string()).collect(),
        pascal_identifier: pascal.to_string(),
    }
}

#[test]
fn node_map_insert_get_remove() {
    let mut m = TemplateNodeMap::new();
    assert_eq!(m.len(), 0);
    m.insert("a".to_string(), node("a", "Group", &[]));
    m.insert("b".to_string(), node("b", "Rectangle", &[]));
    assert_eq!(m.len(), 2);
    assert_eq!(m.get(&"a".to_string()).unwrap().pascal_identifier, "Group");
    m.insert("a".to_string(), node("a", "Frame", &[]));
    assert_eq!(m.len(), 2);
    assert_eq!(m.get(&"a".to_string()).unwrap().pascal_identifier, "Frame");
    let removed = m.remove(&"b".to_string()).unwrap();
    assert_eq!(removed.pascal_identifier, "Rectangle");
    assert!(m.get(&"b".to_string()).is_none());
    assert!(m.remove(&"b".to_string()).is_none());
    assert_eq!(m.len(), 1);
}

#[test]
fn node_map_clone_and_entries() {
    let mut m = TemplateNodeMap::new();
    m.insert("x".to_string(), node("x", "Text", &["y"]));
    m.insert("y".to_string(), node("y", "Text", &[]));
    let c = m.clone();
    m.remove(&"x".to_string());
    assert_eq!(c.len(), 2);
    assert_eq!(c.get(&"x".to_string()).unwrap().children_ids, vec!["y".to_string()]);
    let mut keys: Vec<String> = c.as_entries().iter().map(|(k, _)| k.clone()).collect();
    keys.sort();
    assert_eq!(keys, vec!["x".to_string(), "y".to_string()]);
}
