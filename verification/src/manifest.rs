use std::collections::HashMap;
use vstd::prelude::*;

use crate::node_map::TemplateNodeMap;

verus! {

/// Definition container for an entire Pax cartridge.
pub struct PaxManifest {
    pub components: Vec<ComponentDefinition>,
    pub root_component_id: String,
    pub expression_specs: Option<HashMap<usize, ExpressionSpec>>,
    pub template_node_definitions: TemplateNodeMap,
}

/// What the expression vtable needs to know about one compiled expression.
pub struct ExpressionSpec {
    pub id: usize,
    pub properties_type: String,
    pub pascalized_return_type: String,
    pub invocations: Vec<ExpressionSpecInvocation>,
    pub output_statement: String,
    pub input_statement: String,
}

/// One symbol that an expression reads, with where on the runtime stack to find it.
pub struct ExpressionSpecInvocation {
    /// For example `self.some_prop`.
    pub identifier: String,
    /// For example `some_prop` from `self.some_prop`.
    pub atomic_identifier: String,
    pub stack_offset: usize,
    /// For example `PropertiesCoproduct::Foo` or `PropertiesCoproduct::RepeatItem`.
    pub properties_type: String,
}

#[derive(Debug)]
pub struct ComponentDefinition {
    pub source_id: String,
    pub pascal_identifier: String,
    pub rust_module_path: String,
    /// Optional not because it cannot exist, but because there are times in
    /// this data structure's lifecycle when it is not yet known.
    pub root_template_node_id: Option<String>,
    pub template: Option<Vec<TemplateNodeDefinition>>,
    /// Can be hydrated as a tree via child ids / parent id.
    pub settings: Option<Vec<SettingsSelectorBlockDefinition>>,
    pub property_definitions: Vec<PropertyDefinition>,
}

/// An entry within a component template, e.g. a `<Rectangle>` declaration inside a template.
#[derive(Debug)]
pub struct TemplateNodeDefinition {
    pub id: String,
    pub component_id: String,
    pub inline_attributes: Option<Vec<(String, AttributeValueDefinition)>>,
    pub children_ids: Vec<String>,
    pub pascal_identifier: String,
}

#[derive(Debug)]
pub struct PropertyDefinition {
    /// String representation of the identifier of a declared Property.
    pub name: String,
    /// Type as authored, literally. May be partially namespace-qualified or aliased.
    pub original_type: String,
    /// Constituent components of a type, for example `Rc<String>` has the
    /// dependencies `std::rc::Rc` and `std::string::String`.
    pub fully_qualified_dependencies: Vec<String>,
    /// Same type as `original_type`, but normalized to be fully qualified.
    pub fully_qualified_type: String,
    /// Same as the fully qualified type, but Pascalized into an enum identifier.
    pub pascalized_fully_qualified_type: String,
}

#[derive(Debug)]
pub enum AttributeValueDefinition {
    LiteralValue(String),
    /// Expression contents and vtable id binding.
    Expression(String, Option<usize>),
    /// Identifier contents and vtable id binding.
    Identifier(String, Option<usize>),
    EventBindingTarget(String),
}

#[derive(Debug)]
pub struct SettingsSelectorBlockDefinition {
    pub selector: String,
    pub value_block: SettingsLiteralBlockDefinition,
}

#[derive(Debug)]
pub struct SettingsLiteralBlockDefinition {
    pub explicit_type_pascal_identifier: Option<String>,
    pub settings_key_value_pairs: Vec<(String, SettingsValueDefinition)>,
}

#[derive(Debug)]
pub enum SettingsValueDefinition {
    Literal(SettingsLiteralValue),
    Expression(String),
    Enum(String),
    Block(SettingsLiteralBlockDefinition),
}

#[derive(Debug)]
pub enum SettingsLiteralValue {
    LiteralNumberWithUnit(Number, Unit),
    LiteralNumber(Number),
    LiteralArray(Vec<SettingsLiteralValue>),
    String(String),
}

/// A numeric settings literal. A floating-point literal is carried by its
/// IEEE 754 binary64 bit pattern: nothing here computes with it.
#[derive(Debug, Clone, Copy)]
pub enum Number {
    Float(u64),
    Int(isize),
}

#[derive(Debug, Clone, Copy)]
pub enum Unit {
    Pixels,
    Percent,
}

// ---------------------------------------------------------------------------
// Mathematical views
// ---------------------------------------------------------------------------

pub struct ExpressionSpecInvocationView {
    pub identifier: Seq<char>,
    pub atomic_identifier: Seq<char>,
    pub stack_offset: usize,
    pub properties_type: Seq<char>,
}

pub struct ExpressionSpecView {
    pub id: usize,
    pub properties_type: Seq<char>,
    pub pascalized_return_type: Seq<char>,
    pub invocations: Seq<ExpressionSpecInvocationView>,
    pub output_statement: Seq<char>,
    pub input_statement: Seq<char>,
}

pub enum AttributeValueView {
    LiteralValue(Seq<char>),
    Expression(Seq<char>, Option<usize>),
    Identifier(Seq<char>, Option<usize>),
    EventBindingTarget(Seq<char>),
}

pub struct TemplateNodeView {
    pub id: Seq<char>,
    pub component_id: Seq<char>,
    pub inline_attributes: Option<Seq<(Seq<char>, AttributeValueView)>>,
    pub children_ids: Seq<Seq<char>>,
    pub pascal_identifier: Seq<char>,
}

pub struct PropertyDefinitionView {
    pub name: Seq<char>,
    pub original_type: Seq<char>,
    pub fully_qualified_dependencies: Seq<Seq<char>>,
    pub fully_qualified_type: Seq<char>,
    pub pascalized_fully_qualified_type: Seq<char>,
}


pub struct ComponentDefinitionView {
    pub source_id: Seq<char>,
    pub pascal_identifier: Seq<char>,
    pub rust_module_path: Seq<char>,
    pub root_template_node_id: Option<Seq<char>>,
    pub template: Option<Seq<TemplateNodeView>>,
    pub settings: Option<Seq<SettingsSelectorBlockView>>,
    pub property_definitions: Seq<PropertyDefinitionView>,
}

pub struct SettingsSelectorBlockView {
    pub selector: Seq<char>,
    pub value_block: SettingsLiteralBlockView,
}

pub struct SettingsLiteralBlockView {
    pub explicit_type_pascal_identifier: Option<Seq<char>>,
    pub settings_key_value_pairs: Seq<(Seq<char>, SettingsValueView)>,
}

pub enum SettingsValueView {
    Literal(SettingsLiteralValueView),
    Expression(Seq<char>),
    Enum(Seq<char>),
    Block(SettingsLiteralBlockView),
}

pub enum SettingsLiteralValueView {
    LiteralNumberWithUnit(Number, Unit),
    LiteralNumber(Number),
    LiteralArray(Seq<SettingsLiteralValueView>),
    String(Seq<char>),
}

pub open spec fn option_string_view(s: Option<String>) -> Option<Seq<char>> {
    match s {
        Some(s) => Some(s@),
        None => None,
    }
}

pub open spec fn literal_value_view(v: SettingsLiteralValue) -> SettingsLiteralValueView
    decreases v,
{
    match v {
        SettingsLiteralValue::LiteralNumberWithUnit(n, u) =>
            SettingsLiteralValueView::LiteralNumberWithUnit(n, u),
        SettingsLiteralValue::LiteralNumber(n) => SettingsLiteralValueView::LiteralNumber(n),
        SettingsLiteralValue::LiteralArray(items) => SettingsLiteralValueView::LiteralArray(
            literal_values_view(items@),
        ),
        SettingsLiteralValue::String(s) => SettingsLiteralValueView::String(s@),
    }
}

pub open spec fn literal_values_view(s: Seq<SettingsLiteralValue>) -> Seq<SettingsLiteralValueView>
    decreases s,
{
    if s.len() == 0 {
        Seq::empty()
    } else {
        literal_values_view(s.drop_last()).push(literal_value_view(s.last()))
    }
}

pub open spec fn value_definition_view(v: SettingsValueDefinition) -> SettingsValueView
    decreases v,
{
    match v {
        SettingsValueDefinition::Literal(l) => SettingsValueView::Literal(literal_value_view(l)),
        SettingsValueDefinition::Expression(s) => SettingsValueView::Expression(s@),
        SettingsValueDefinition::Enum(s) => SettingsValueView::Enum(s@),
        SettingsValueDefinition::Block(b) => SettingsValueView::Block(literal_block_view(b)),
    }
}

pub open spec fn literal_block_view(b: SettingsLiteralBlockDefinition) -> SettingsLiteralBlockView
    decreases b,
{
    SettingsLiteralBlockView {
        explicit_type_pascal_identifier: option_string_view(b.explicit_type_pascal_identifier),
        settings_key_value_pairs: settings_pairs_view(b.settings_key_value_pairs@),
    }
}

pub open spec fn settings_pairs_view(s: Seq<(String, SettingsValueDefinition)>) -> Seq<
    (Seq<char>, SettingsValueView),
>
    decreases s,
{
    if s.len() == 0 {
        Seq::empty()
    } else {
        settings_pairs_view(s.drop_last()).push((s.last().0@, value_definition_view(s.last().1)))
    }
}

impl View for SettingsLiteralValue {
    type V = SettingsLiteralValueView;

    open spec fn view(&self) -> SettingsLiteralValueView {
        literal_value_view(*self)
    }
}

impl View for SettingsValueDefinition {
    type V = SettingsValueView;

    open spec fn view(&self) -> SettingsValueView {
        value_definition_view(*self)
    }
}

impl View for SettingsLiteralBlockDefinition {
    type V = SettingsLiteralBlockView;

    open spec fn view(&self) -> SettingsLiteralBlockView {
        literal_block_view(*self)
    }
}

impl View for SettingsSelectorBlockDefinition {
    type V = SettingsSelectorBlockView;

    open spec fn view(&self) -> SettingsSelectorBlockView {
        SettingsSelectorBlockView { selector: self.selector@, value_block: self.value_block@ }
    }
}

pub open spec fn settings_view(v: Seq<SettingsSelectorBlockDefinition>) -> Seq<SettingsSelectorBlockView> {
    v.map_values(|b: SettingsSelectorBlockDefinition| b@)
}

impl View for ComponentDefinition {
    type V = ComponentDefinitionView;

    open spec fn view(&self) -> ComponentDefinitionView {
        ComponentDefinitionView {
            source_id: self.source_id@,
            pascal_identifier: self.pascal_identifier@,
            rust_module_path: self.rust_module_path@,
            root_template_node_id: option_string_view(self.root_template_node_id),
            template: match self.template {
                Some(t) => Some(t@.map_values(|n: TemplateNodeDefinition| n@)),
                None => None,
            },
            settings: match self.settings {
                Some(s) => Some(settings_view(s@)),
                None => None,
            },
            property_definitions: properties_view(self.property_definitions@),
        }
    }
}

pub open spec fn strings_view(v: Seq<String>) -> Seq<Seq<char>> {
    v.map_values(|s: String| s@)
}

pub open spec fn attributes_view(
    v: Seq<(String, AttributeValueDefinition)>,
) -> Seq<(Seq<char>, AttributeValueView)> {
    v.map_values(|a: (String, AttributeValueDefinition)| (a.0@, a.1@))
}

pub open spec fn properties_view(v: Seq<PropertyDefinition>) -> Seq<PropertyDefinitionView> {
    v.map_values(|p: PropertyDefinition| p@)
}

impl View for ExpressionSpecInvocation {
    type V = ExpressionSpecInvocationView;

    open spec fn view(&self) -> ExpressionSpecInvocationView {
        ExpressionSpecInvocationView {
            identifier: self.identifier@,
            atomic_identifier: self.atomic_identifier@,
            stack_offset: self.stack_offset,
            properties_type: self.properties_type@,
        }
    }
}

impl View for ExpressionSpec {
    type V = ExpressionSpecView;

    open spec fn view(&self) -> ExpressionSpecView {
        ExpressionSpecView {
            id: self.id,
            properties_type: self.properties_type@,
            pascalized_return_type: self.pascalized_return_type@,
            invocations: self.invocations@.map_values(|i: ExpressionSpecInvocation| i@),
            output_statement: self.output_statement@,
            input_statement: self.input_statement@,
        }
    }
}

impl View for AttributeValueDefinition {
    type V = AttributeValueView;

    open spec fn view(&self) -> AttributeValueView {
        match self {
            AttributeValueDefinition::LiteralValue(s) => AttributeValueView::LiteralValue(s@),
            AttributeValueDefinition::Expression(s, id) => AttributeValueView::Expression(s@, *id),
            AttributeValueDefinition::Identifier(s, id) => AttributeValueView::Identifier(s@, *id),
            AttributeValueDefinition::EventBindingTarget(s) => AttributeValueView::EventBindingTarget(
                s@,
            ),
        }
    }
}

impl View for TemplateNodeDefinition {
    type V = TemplateNodeView;

    open spec fn view(&self) -> TemplateNodeView {
        TemplateNodeView {
            id: self.id@,
            component_id: self.component_id@,
            inline_attributes: match self.inline_attributes {
                Some(a) => Some(attributes_view(a@)),
                None => None,
            },
            children_ids: strings_view(self.children_ids@),
            pascal_identifier: self.pascal_identifier@,
        }
    }
}

impl View for PropertyDefinition {
    type V = PropertyDefinitionView;

    open spec fn view(&self) -> PropertyDefinitionView {
        PropertyDefinitionView {
            name: self.name@,
            original_type: self.original_type@,
            fully_qualified_dependencies: strings_view(self.fully_qualified_dependencies@),
            fully_qualified_type: self.fully_qualified_type@,
            pascalized_fully_qualified_type: self.pascalized_fully_qualified_type@,
        }
    }
}

// ---------------------------------------------------------------------------
// Copies that keep the view
// ---------------------------------------------------------------------------

pub fn clone_strings(v: &Vec<String>) -> (r: Vec<String>)
    ensures
        strings_view(r@) == strings_view(v@),
{
    let mut r: Vec<String> = Vec::new();
    let mut i: usize = 0;
    while i < v.len()
        invariant
            i <= v.len(),
            strings_view(r@) == strings_view(v@.take(i as int)),
        decreases v.len() - i,
    {
        let ghost prev = r@;
        r.push(v[i].clone());
        assert(v@.take(i + 1) == v@.take(i as int).push(v@[i as int]));
        assert(strings_view(r@) =~= strings_view(prev).push(v@[i as int]@));
        i = i + 1;
    }
    assert(v@.take(v.len() as int) == v@);
    r
}

impl Clone for AttributeValueDefinition {
    fn clone(&self) -> (r: Self)
        ensures
            r@ == self@,
    {
        match self {
            AttributeValueDefinition::LiteralValue(s) => AttributeValueDefinition::LiteralValue(
                s.clone(),
            ),
            AttributeValueDefinition::Expression(s, id) => AttributeValueDefinition::Expression(
                s.clone(),
                *id,
            ),
            AttributeValueDefinition::Identifier(s, id) => AttributeValueDefinition::Identifier(
                s.clone(),
                *id,
            ),
            AttributeValueDefinition::EventBindingTarget(s) =>
                AttributeValueDefinition::EventBindingTarget(s.clone()),
        }
    }
}

pub fn clone_attributes(v: &Vec<(String, AttributeValueDefinition)>) -> (r: Vec<
    (String, AttributeValueDefinition),
>)
    ensures
        attributes_view(r@) == attributes_view(v@),
{
    let mut r: Vec<(String, AttributeValueDefinition)> = Vec::new();
    let mut i: usize = 0;
    while i < v.len()
        invariant
            i <= v.len(),
            attributes_view(r@) == attributes_view(v@.take(i as int)),
        decreases v.len() - i,
    {
        let name = v[i].0.clone();
        let value = v[i].1.clone();
        let ghost prev = r@;
        r.push((name, value));
        assert(v@.take(i + 1) == v@.take(i as int).push(v@[i as int]));
        assert(attributes_view(r@) =~= attributes_view(prev).push((v@[i as int].0@, v@[i as int].1@)));
        i = i + 1;
    }
    assert(v@.take(v.len() as int) == v@);
    r
}

impl Clone for PropertyDefinition {
    fn clone(&self) -> (r: Self)
        ensures
            r@ == self@,
    {
        PropertyDefinition {
            name: self.name.clone(),
            original_type: self.original_type.clone(),
            fully_qualified_dependencies: clone_strings(&self.fully_qualified_dependencies),
            fully_qualified_type: self.fully_qualified_type.clone(),
            pascalized_fully_qualified_type: self.pascalized_fully_qualified_type.clone(),
        }
    }
}

impl Clone for TemplateNodeDefinition {
    fn clone(&self) -> (r: Self)
        ensures
            r@ == self@,
    {
        let inline_attributes = match &self.inline_attributes {
            Some(a) => Some(clone_attributes(a)),
            None => None,
        };
        TemplateNodeDefinition {
            id: self.id.clone(),
            component_id: self.component_id.clone(),
            inline_attributes,
            children_ids: clone_strings(&self.children_ids),
            pascal_identifier: self.pascal_identifier.clone(),
        }
    }
}

fn clone_option_string(s: &Option<String>) -> (r: Option<String>)
    ensures
        option_string_view(r) == option_string_view(*s),
{
    match s {
        Some(s) => Some(s.clone()),
        None => None,
    }
}

#[verifier::loop_isolation(false)]
fn clone_literal_value(v: &SettingsLiteralValue) -> (r: SettingsLiteralValue)
    ensures
        r@ == v@,
    decreases v,
{
    match v {
        SettingsLiteralValue::LiteralNumberWithUnit(n, u) =>
            SettingsLiteralValue::LiteralNumberWithUnit(*n, *u),
        SettingsLiteralValue::LiteralNumber(n) => SettingsLiteralValue::LiteralNumber(*n),
        SettingsLiteralValue::String(s) => SettingsLiteralValue::String(s.clone()),
        SettingsLiteralValue::LiteralArray(items) => {
            let mut r: Vec<SettingsLiteralValue> = Vec::new();
            let mut i: usize = 0;
            assert(items@.take(0) =~= Seq::<SettingsLiteralValue>::empty());
            while i < items.len()
                invariant
                    i <= items.len(),
                    literal_values_view(r@) == literal_values_view(items@.take(i as int)),
                decreases items.len() - i,
            {
                proof {
                    assert(decreases_to!(*v => items@[i as int]));
                }
                let ghost prev = r@;
                r.push(clone_literal_value(&items[i]));
                assert(r@.drop_last() == prev);
                assert(items@.take(i + 1).drop_last() == items@.take(i as int));
                i = i + 1;
            }
            assert(items@.take(items@.len() as int) == items@);
            SettingsLiteralValue::LiteralArray(r)
        },
    }
}

fn clone_value_definition(v: &SettingsValueDefinition) -> (r: SettingsValueDefinition)
    ensures
        r@ == v@,
    decreases v, 1nat,
{
    match v {
        SettingsValueDefinition::Literal(l) => SettingsValueDefinition::Literal(
            clone_literal_value(l),
        ),
        SettingsValueDefinition::Expression(s) => SettingsValueDefinition::Expression(s.clone()),
        SettingsValueDefinition::Enum(s) => SettingsValueDefinition::Enum(s.clone()),
        SettingsValueDefinition::Block(b) => SettingsValueDefinition::Block(
            clone_literal_block(b),
        ),
    }
}

#[verifier::loop_isolation(false)]
fn clone_literal_block(b: &SettingsLiteralBlockDefinition) -> (r: SettingsLiteralBlockDefinition)
    ensures
        r@ == b@,
    decreases b, 0nat,
{
    let explicit_type_pascal_identifier = clone_option_string(&b.explicit_type_pascal_identifier);
    let pairs = &b.settings_key_value_pairs;
    let mut r: Vec<(String, SettingsValueDefinition)> = Vec::new();
    let mut i: usize = 0;
    assert(pairs@.take(0) =~= Seq::<(String, SettingsValueDefinition)>::empty());
    while i < pairs.len()
        invariant
            i <= pairs.len(),
            settings_pairs_view(r@) == settings_pairs_view(pairs@.take(i as int)),
        decreases pairs.len() - i,
    {
        proof {
            assert(decreases_to!(*b => pairs@[i as int].1));
        }
        let key = pairs[i].0.clone();
        let value = clone_value_definition(&pairs[i].1);
        let ghost prev = r@;
        r.push((key, value));
        assert(r@.drop_last() == prev);
        assert(pairs@.take(i + 1).drop_last() == pairs@.take(i as int));
        i = i + 1;
    }
    assert(pairs@.take(pairs@.len() as int) == pairs@);
    SettingsLiteralBlockDefinition { explicit_type_pascal_identifier, settings_key_value_pairs: r }
}

impl Clone for SettingsLiteralValue {
    fn clone(&self) -> (r: Self)
        ensures
            r@ == self@,
    {
        clone_literal_value(self)
    }
}

impl Clone for SettingsValueDefinition {
    fn clone(&self) -> (r: Self)
        ensures
            r@ == self@,
    {
        clone_value_definition(self)
    }
}

impl Clone for SettingsLiteralBlockDefinition {
    fn clone(&self) -> (r: Self)
        ensures
            r@ == self@,
    {
        clone_literal_block(self)
    }
}

impl Clone for SettingsSelectorBlockDefinition {
    fn clone(&self) -> (r: Self)
        ensures
            r@ == self@,
    {
        SettingsSelectorBlockDefinition {
            selector: self.selector.clone(),
            value_block: clone_literal_block(&self.value_block),
        }
    }
}

impl Clone for ComponentDefinition {
    fn clone(&self) -> (r: Self)
        ensures
            r@ == self@,
    {
        let template = match &self.template {
            Some(v) => {
                let mut copy: Vec<TemplateNodeDefinition> = Vec::new();
                let mut i: usize = 0;
                while i < v.len()
                    invariant
                        i <= v@.len(),
                        copy@.len() == i,
                        forall|j: int| 0 <= j < i ==> (#[trigger] copy@[j])@ == v@[j]@,
                    decreases v@.len() - i,
                {
                    copy.push(v[i].clone());
                    i = i + 1;
                }
                assert(copy@.map_values(|n: TemplateNodeDefinition| n@) =~= v@.map_values(
                    |n: TemplateNodeDefinition| n@,
                ));
                Some(copy)
            },
            None => None,
        };
        let settings = match &self.settings {
            Some(v) => {
                let mut copy: Vec<SettingsSelectorBlockDefinition> = Vec::new();
                let mut i: usize = 0;
                while i < v.len()
                    invariant
                        i <= v@.len(),
                        copy@.len() == i,
                        forall|j: int| 0 <= j < i ==> (#[trigger] copy@[j])@ == v@[j]@,
                    decreases v@.len() - i,
                {
                    copy.push(v[i].clone());
                    i = i + 1;
                }
                assert(settings_view(copy@) =~= settings_view(v@));
                Some(copy)
            },
            None => None,
        };
        let mut props: Vec<PropertyDefinition> = Vec::new();
        let mut i: usize = 0;
        while i < self.property_definitions.len()
            invariant
                i <= self.property_definitions@.len(),
                props@.len() == i,
                forall|j: int|
                    0 <= j < i ==> (#[trigger] props@[j])@ == self.property_definitions@[j]@,
            decreases self.property_definitions@.len() - i,
        {
            props.push(self.property_definitions[i].clone());
            i = i + 1;
        }
        assert(properties_view(props@) =~= properties_view(self.property_definitions@));
        ComponentDefinition {
            source_id: self.source_id.clone(),
            pascal_identifier: self.pascal_identifier.clone(),
            rust_module_path: self.rust_module_path.clone(),
            root_template_node_id: clone_option_string(&self.root_template_node_id),
            template,
            settings,
            property_definitions: props,
        }
    }
}

} // verus!
