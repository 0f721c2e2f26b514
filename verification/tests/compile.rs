use std::collections::HashMap;

use pax_manifest::manifest::{
    AttributeValueDefinition, ComponentDefinition, PaxManifest, PropertyDefinition,
    TemplateNodeDefinition,
};
use pax_manifest::node_map::TemplateNodeMap;
use pax_manifest::traversal::{find_property, recurse_template_and_compile_expressions, TemplateTraversalContext};

fn prop(name: &str, pascal: &str) -> PropertyDefinition {
    PropertyDefinition {
        name: name.to_string(),
        original_type: pascal.to_string(),
        fully_qualified_dependencies: vec![],
        fully_qualified_type: format!("crate::{}", pascal),
        pascalized_fully_qualified_type: pascal.to_string(),
    }
}

fn node(
    id: &str,
    pascal: &str,
    attrs: Option<Vec<(&str, AttributeValueDefinition)>>,
    children: &[&str],
) -> TemplateNodeDefinition {
    TemplateNodeDefinition {
        id: id.to_string(),
        component_id: "Root".to_string(),
        inline_attributes: attrs.map(|v| v.into_iter().map(|(k, a)| (k.to_string(), a)).collect()),
        children_ids: children.iter().map(|s| s.to_string()).collect(),
        pascal_identifier: pascal.to_string(),
    }
}

fn ident(s: &str, id: Option<usize>) -> AttributeValueDefinition {
    AttributeValueDefinition::Identifier(s.to_string(), id)
}

fn expr(s: &str, id: Option<usize>) -> AttributeValueDefinition {
    AttributeValueDefinition::Expression(s.to_string(), id)
}

fn component(id: &str, template: Option<Vec<TemplateNodeDefinition>>, props: Vec<PropertyDefinition>) -> ComponentDefinition {
    ComponentDefinition {
        source_id: id.to_string(),
        pascal_identifier: id.to_string(),
        rust_module_path: "crate".to_string(),
        root_template_node_id: None,
        template,
        settings: None,
        property_definitions: props,
    }
}

fn root_node() -> TemplateNodeDefinition {
    node(
        "r",
        "Group",
        Some(vec![
            ("x", ident("self.x", Some(99))),
            ("fill", AttributeValueDefinition::LiteralValue("red".to_string())),
        ]),
        &["s1", "s2"],
    )
}

fn node_map() -> TemplateNodeMap {
    let mut m = TemplateNodeMap::new();
    m.insert("s1".to_string(), node("s1", "Repeat", Some(vec![("fill", expr("a+b", None))]), &["g"]));
    m.insert("g".to_string(), node("g", "Rectangle", Some(vec![("fill", ident("self.fill", Some(0)))]), &[]));
    m.insert("s2".to_string(), node("s2", "Text", Some(vec![("x", expr("1", Some(5)))]), &[]));
    m
}

fn root_props() -> Vec<PropertyDefinition> {
    vec![prop("fill", "Color"), prop("x", "Size"), prop("x", "Shadowed")]
}

fn attr(n: &TemplateNodeDefinition, i: usize) -> &AttributeValueDefinition {
    &n.inline_attributes.as_ref().unwrap()[i].1
}

#[test]
fn find_property_takes_the_first_match() {
    let props = root_props();
    assert_eq!(find_property(&props, &"x".to_string()), Some(1));
    assert_eq!(find_property(&props, &"fill".to_string()), Some(0));
    assert_eq!(find_property(&props, &"y".to_string()), None);
}

#[test]
fn traversal_compiles_every_reachable_node() {
    let comp = component("Root", None, root_props());
    let ctx = TemplateTraversalContext {
        active_node_def: root_node(),
        component_def: &comp,
        stack_offset: 3,
        uid_gen: 0,
        expression_specs: HashMap::new(),
        template_node_definitions: node_map(),
    };
    let out = recurse_template_and_compile_expressions(ctx);
    assert_eq!(out.stack_offset, 3);
    assert_eq!(out.uid_gen, 4);
    // The walk returns its own node, compiled in place.
    assert_eq!(out.active_node_def.id, "r");
    assert_eq!(out.active_node_def.children_ids, vec!["s1".to_string(), "s2".to_string()]);
    assert!(matches!(attr(&out.active_node_def, 0), AttributeValueDefinition::Identifier(s, Some(0)) if s == "self.x"));
    assert!(matches!(attr(&out.active_node_def, 1), AttributeValueDefinition::LiteralValue(s) if s == "red"));
    // Specs are filed for the identifier bindings only.
    assert_eq!(out.expression_specs.len(), 2);
    let s0 = &out.expression_specs[&0];
    assert_eq!(s0.id, 0);
    assert_eq!(s0.properties_type, "Group");
    assert_eq!(s0.pascalized_return_type, "Size");
    assert_eq!(s0.input_statement, "self.x");
    assert_eq!(s0.output_statement, "");
    assert!(s0.invocations.is_empty());
    let s2 = &out.expression_specs[&2];
    assert_eq!(s2.id, 2);
    assert_eq!(s2.properties_type, "Rectangle");
    assert_eq!(s2.pascalized_return_type, "Color");
    assert_eq!(s2.input_statement, "self.fill");
    // Every node is filed back compiled under its own id.
    let m = &out.template_node_definitions;
    assert_eq!(m.len(), 3);
    let s1 = m.get(&"s1".to_string()).unwrap();
    assert_eq!(s1.id, "s1");
    assert!(matches!(attr(s1, 0), AttributeValueDefinition::Expression(s, Some(1)) if s == "a+b"));
    let g = m.get(&"g".to_string()).unwrap();
    assert_eq!(g.id, "g");
    assert!(matches!(attr(g, 0), AttributeValueDefinition::Identifier(s, Some(2)) if s == "self.fill"));
    let s2n = m.get(&"s2".to_string()).unwrap();
    assert_eq!(s2n.id, "s2");
    assert!(matches!(attr(s2n, 0), AttributeValueDefinition::Expression(_, Some(3))));
}

#[test]
fn traversal_of_a_leaf_keeps_the_map() {
    let comp = component("Root", None, root_props());
    let leaf = node("leaf", "Slot", Some(vec![("x", expr("2", None)), ("fill", ident("self.fill", Some(4)))]), &[]);
    let ctx = TemplateTraversalContext {
        active_node_def: leaf,
        component_def: &comp,
        stack_offset: 0,
        uid_gen: 10,
        expression_specs: HashMap::new(),
        template_node_definitions: node_map(),
    };
    let out = recurse_template_and_compile_expressions(ctx);
    assert_eq!(out.stack_offset, 0);
    assert_eq!(out.uid_gen, 12);
    assert!(matches!(attr(&out.active_node_def, 0), AttributeValueDefinition::Expression(_, Some(10))));
    assert!(matches!(attr(&out.active_node_def, 1), AttributeValueDefinition::Identifier(_, Some(11))));
    assert_eq!(out.expression_specs[&11].properties_type, "Slot");
    assert_eq!(out.template_node_definitions.len(), 3);
}

#[test]
fn traversal_of_a_node_with_three_kinds_of_attribute() {
    let comp = component("Root", None, vec![prop("fill", "Color")]);
    let n = node(
        "n",
        "Rectangle",
        Some(vec![
            ("fill", ident("self.c", Some(9))),
            ("x", expr("1+1", None)),
            ("y", AttributeValueDefinition::LiteralValue("5".to_string())),
        ]),
        &[],
    );
    let ctx = TemplateTraversalContext {
        active_node_def: n,
        component_def: &comp,
        stack_offset: 0,
        uid_gen: 0,
        expression_specs: HashMap::new(),
        template_node_definitions: TemplateNodeMap::new(),
    };
    let out = recurse_template_and_compile_expressions(ctx);
    assert_eq!(out.uid_gen, 2);
    assert_eq!(out.stack_offset, 0);
    assert!(matches!(attr(&out.active_node_def, 0), AttributeValueDefinition::Identifier(s, Some(0)) if s == "self.c"));
    assert!(matches!(attr(&out.active_node_def, 1), AttributeValueDefinition::Expression(s, Some(1)) if s == "1+1"));
    assert!(matches!(attr(&out.active_node_def, 2), AttributeValueDefinition::LiteralValue(s) if s == "5"));
    assert_eq!(out.expression_specs.len(), 1);
    let spec = &out.expression_specs[&0];
    assert_eq!(spec.id, 0);
    assert_eq!(spec.properties_type, "Rectangle");
    assert_eq!(spec.pascalized_return_type, "Color");
    assert_eq!(spec.input_statement, "self.c");
    assert_eq!(spec.output_statement, "");
    assert!(spec.invocations.is_empty());
}

fn manifest() -> PaxManifest {
    let second = node("q", "Group", Some(vec![("x", ident("self.other_x", Some(1)))]), &[]);
    PaxManifest {
        components: vec![
            component("Root", Some(vec![root_node()]), root_props()),
            component("Plain", None, vec![]),
            component("Other", Some(vec![second]), vec![prop("x", "Numeric")]),
        ],
        root_component_id: "Root".to_string(),
        expression_specs: None,
        template_node_definitions: node_map(),
    }
}

#[test]
fn compile_all_expressions_replaces_templates_and_specs() {
    let mut m = manifest();
    assert!(m.can_compile_all_expressions());
    m.compile_all_expressions();
    assert_eq!(m.root_component_id, "Root");
    assert_eq!(m.components.len(), 3);
    let t0 = m.components[0].template.as_ref().unwrap();
    assert_eq!(t0.len(), 1);
    assert_eq!(t0[0].id, "r");
    assert!(matches!(attr(&t0[0], 0), AttributeValueDefinition::Identifier(_, Some(0))));
    assert!(m.components[1].template.is_none());
    let t2 = m.components[2].template.as_ref().unwrap();
    // One counter runs across the whole manifest.
    assert!(matches!(attr(&t2[0], 0), AttributeValueDefinition::Identifier(_, Some(4))));
    let specs = m.expression_specs.as_ref().unwrap();
    assert_eq!(specs.len(), 3);
    assert_eq!(specs[&0].properties_type, "Group");
    assert_eq!(specs[&0].pascalized_return_type, "Size");
    assert_eq!(specs[&0].input_statement, "self.x");
    assert_eq!(specs[&2].pascalized_return_type, "Color");
    assert_eq!(specs[&4].properties_type, "Group");
    assert_eq!(specs[&4].pascalized_return_type, "Numeric");
    assert_eq!(specs[&4].input_statement, "self.other_x");
    for (k, v) in specs.iter() {
        assert_eq!(*k, v.id);
    }
    assert_eq!(m.template_node_definitions.len(), 3);
    assert_eq!(m.template_node_definitions.get(&"s1".to_string()).unwrap().id, "s1");
}

#[test]
fn compile_gives_top_level_nodes_distinct_ids() {
    let n0 = node("n0", "Group", Some(vec![("x", expr("1", None))]), &[]);
    let n1 = node("n1", "Group", Some(vec![("y", expr("2", None))]), &[]);
    let mut m = PaxManifest {
        components: vec![component("Root", Some(vec![n0, n1]), vec![])],
        root_component_id: "Root".to_string(),
        expression_specs: None,
        template_node_definitions: TemplateNodeMap::new(),
    };
    m.compile_all_expressions();
    let t = m.components[0].template.as_ref().unwrap();
    assert!(matches!(attr(&t[0], 0), AttributeValueDefinition::Expression(s, Some(0)) if s == "1"));
    assert!(matches!(attr(&t[1], 0), AttributeValueDefinition::Expression(s, Some(1)) if s == "2"));
    assert_eq!(m.expression_specs.as_ref().unwrap().len(), 0);
}

#[test]
fn compile_accepts_an_identifier_without_vtable_id() {
    let mut m = manifest();
    m.components[2].template = Some(vec![node("q", "Group", Some(vec![("x", ident("self.x", None))]), &[])]);
    assert!(m.can_compile_all_expressions());
    m.compile_all_expressions();
    let t2 = m.components[2].template.as_ref().unwrap();
    assert!(matches!(attr(&t2[0], 0), AttributeValueDefinition::Identifier(_, Some(4))));
    assert_eq!(m.expression_specs.as_ref().unwrap()[&4].input_statement, "self.x");
}

#[test]
fn compile_is_refused_for_an_unknown_property() {
    let mut m = manifest();
    m.components[2].template = Some(vec![node("q", "Group", Some(vec![("nope", ident("self.x", Some(0)))]), &[])]);
    assert!(!m.can_compile_all_expressions());
}

#[test]
fn compile_is_refused_for_a_missing_child() {
    let mut m = manifest();
    m.components[1].template = Some(vec![node("p", "Group", None, &["missing"])]);
    assert!(!m.can_compile_all_expressions());
}

#[test]
fn compile_is_refused_for_a_child_on_its_own_path() {
    let mut m = manifest();
    let mut nodes = node_map();
    nodes.insert("loop".to_string(), node("loop", "Group", None, &["loop"]));
    m.template_node_definitions = nodes;
    m.components[1].template = Some(vec![node("p", "Group", None, &["loop"])]);
    assert!(!m.can_compile_all_expressions());
}

#[test]
fn compile_of_an_empty_manifest() {
    let mut m = PaxManifest {
        components: vec![],
        root_component_id: "Root".to_string(),
        expression_specs: None,
        template_node_definitions: TemplateNodeMap::new(),
    };
    assert!(m.can_compile_all_expressions());
    m.compile_all_expressions();
    assert_eq!(m.expression_specs.as_ref().unwrap().len(), 0);
}

#[test]
fn compile_visits_a_shared_child_once_per_parent() {
    let mut nodes = TemplateNodeMap::new();
    nodes.insert("leaf".to_string(), node("leaf", "Rectangle", Some(vec![("fill", expr("c", None))]), &[]));
    let root = node("top", "Group", None, &["leaf", "leaf"]);
    let mut m = PaxManifest {
        components: vec![component("Root", Some(vec![root]), root_props())],
        root_component_id: "Root".to_string(),
        expression_specs: None,
        template_node_definitions: nodes,
    };
    m.compile_all_expressions();
    let leaf = m.template_node_definitions.get(&"leaf".to_string()).unwrap();
    // The second visit draws the next id and overwrites the first.
    assert!(matches!(attr(leaf, 0), AttributeValueDefinition::Expression(_, Some(1))));
    assert_eq!(m.components[0].template.as_ref().unwrap()[0].id, "top");
}
