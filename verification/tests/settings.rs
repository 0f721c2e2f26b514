use pax_manifest::manifest::{
    ComponentDefinition, Number, SettingsLiteralBlockDefinition, SettingsLiteralValue,
    SettingsSelectorBlockDefinition, SettingsValueDefinition, Unit,
};

fn block() -> SettingsLiteralBlockDefinition {
    SettingsLiteralBlockDefinition {
        explicit_type_pascal_identifier: Some("Stroke".to_string()),
        settings_key_value_pairs: vec![
            (
                "width".to_string(),
                SettingsValueDefinition::Literal(SettingsLiteralValue::LiteralNumberWithUnit(
                    Number::Float(2.5f64.to_bits()),
                    Unit::Pixels,
                )),
            ),
            (
                "dash".to_string(),
                SettingsValueDefinition::Literal(SettingsLiteralValue::LiteralArray(vec![
                    SettingsLiteralValue::LiteralNumber(Number::Int(3)),
                    SettingsLiteralValue::LiteralArray(vec![SettingsLiteralValue::String("x".to_string())]),
                ])),
            ),
            (
                "inner".to_string(),
                SettingsValueDefinition::Block(SettingsLiteralBlockDefinition {
                    explicit_type_pascal_identifier: None,
                    settings_key_value_pairs: vec![("e".to_string(), SettingsValueDefinition::Enum("A".to_string()))],
                }),
            ),
        ],
    }
}

#[test]
fn settings_clone_is_deep() {
    let block_def = SettingsSelectorBlockDefinition { selector: "#r".to_string(), value_block: block() };
    let copy = block_def.clone();
    assert_eq!(format!("{:?}", copy), format!("{:?}", block_def));
    assert_eq!(copy.value_block.settings_key_value_pairs.len(), 3);
    match &copy.value_block.settings_key_value_pairs[0].1 {
        SettingsValueDefinition::Literal(SettingsLiteralValue::LiteralNumberWithUnit(Number::Float(bits), Unit::Pixels)) => {
            assert_eq!(f64::from_bits(*bits), 2.5)
        }
        other => panic!("unexpected {:?}", other),
    }
}

#[test]
fn component_clone_keeps_settings() {
    let c = ComponentDefinition {
        source_id: "s".to_string(),
        pascal_identifier: "P".to_string(),
        rust_module_path: "crate::p".to_string(),
        root_template_node_id: Some("r".to_string()),
        template: None,
        settings: Some(vec![SettingsSelectorBlockDefinition { selector: ".a".to_string(), value_block: block() }]),
        property_definitions: vec![],
    };
    let d = c.clone();
    assert_eq!(format!("{:?}", c), format!("{:?}", d));
}
