use std::collections::HashMap;
use vstd::prelude::*;

use crate::manifest::{
    attributes_view, clone_strings, properties_view, strings_view, AttributeValueDefinition,
    AttributeValueView, ComponentDefinition, ExpressionSpec, ExpressionSpecView,
    PropertyDefinition, PropertyDefinitionView, TemplateNodeDefinition, TemplateNodeView,
};
use crate::node_map::{lemma_node_map_finite, TemplateNodeMap};

verus! {

broadcast use {vstd::std_specs::hash::group_hash_axioms, lemma_node_map_finite};

/// The state that a template traversal carries from node to node.
pub struct TraversalState {
    /// The node being worked on.
    pub active: TemplateNodeView,
    /// The depth of the runtime stack at the active node.
    pub stack_offset: usize,
    /// The next id that the id generator yields.
    pub next_uid: usize,
    /// The expression specs compiled so far, by id.
    pub specs: Map<usize, ExpressionSpecView>,
    /// The template nodes not on the current path from the root, by id.
    pub nodes: Map<Seq<char>, TemplateNodeView>,
}

/// What compiling a list of inline attributes yields.
pub struct AttributePass {
    pub attributes: Seq<(Seq<char>, AttributeValueView)>,
    pub next_uid: usize,
    pub specs: Map<usize, ExpressionSpecView>,
}

/// The position of the first property definition from `i` on named `name`.
pub open spec fn property_index_from(
    props: Seq<PropertyDefinitionView>,
    name: Seq<char>,
    i: int,
) -> Option<int>
    decreases props.len() - i,
{
    if i < 0 || i >= props.len() {
        None
    } else if props[i].name == name {
        Some(i)
    } else {
        property_index_from(props, name, i + 1)
    }
}

/// The position of the first property definition named `name`.
pub open spec fn first_property(props: Seq<PropertyDefinitionView>, name: Seq<char>) -> Option<int> {
    property_index_from(props, name, 0)
}

/// Whether a node of this kind opens a frame on the runtime stack.
pub open spec fn opens_stack_frame(pascal: Seq<char>) -> bool {
    pascal == "Slot"@ || pascal == "Repeat"@ || pascal == "Conditional"@
}

/// The spec compiled for an identifier binding `input` of property `prop`
/// on a node of kind `pascal`.
pub open spec fn identifier_spec(
    id: usize,
    pascal: Seq<char>,
    prop: PropertyDefinitionView,
    input: Seq<char>,
) -> ExpressionSpecView {
    ExpressionSpecView {
        id,
        properties_type: pascal,
        pascalized_return_type: prop.pascalized_fully_qualified_type,
        invocations: Seq::empty(),
        output_statement: Seq::empty(),
        input_statement: input,
    }
}

/// Compiles one inline attribute: an identifier binding or an expression
/// draws the next id, which is written back as its vtable id, and an
/// identifier binding also gets an expression spec filed under that id;
/// literals and event bindings stay as they are. `None` where compilation
/// cannot go on: the id generator is exhausted, or no property of the
/// component carries an identifier binding's name.
pub open spec fn compile_attribute(
    attr: (Seq<char>, AttributeValueView),
    pascal: Seq<char>,
    props: Seq<PropertyDefinitionView>,
    next_uid: usize,
    specs: Map<usize, ExpressionSpecView>,
) -> Option<((Seq<char>, AttributeValueView), usize, Map<usize, ExpressionSpecView>)> {
    match attr.1 {
        AttributeValueView::Identifier(s, _) => {
            if next_uid == usize::MAX || first_property(props, attr.0) is None {
                None
            } else {
                let prop = props[first_property(props, attr.0)->0];
                Some(
                    (
                        (attr.0, AttributeValueView::Identifier(s, Some(next_uid))),
                        (next_uid + 1) as usize,
                        specs.insert(next_uid, identifier_spec(next_uid, pascal, prop, s)),
                    ),
                )
            }
        },
        AttributeValueView::Expression(s, _) => {
            if next_uid == usize::MAX {
                None
            } else {
                Some(
                    (
                        (attr.0, AttributeValueView::Expression(s, Some(next_uid))),
                        (next_uid + 1) as usize,
                        specs,
                    ),
                )
            }
        },
        _ => Some((attr, next_uid, specs)),
    }
}

/// Compiles the inline attributes of a node in order.
pub open spec fn compile_attributes(
    attrs: Seq<(Seq<char>, AttributeValueView)>,
    pascal: Seq<char>,
    props: Seq<PropertyDefinitionView>,
    next_uid: usize,
    specs: Map<usize, ExpressionSpecView>,
) -> Option<AttributePass>
    decreases attrs.len(),
{
    if attrs.len() == 0 {
        Some(AttributePass { attributes: Seq::empty(), next_uid, specs })
    } else {
        match compile_attributes(attrs.drop_last(), pascal, props, next_uid, specs) {
            None => None,
            Some(p) => match compile_attribute(attrs.last(), pascal, props, p.next_uid, p.specs) {
                None => None,
                Some(r) => Some(
                    AttributePass { attributes: p.attributes.push(r.0), next_uid: r.1, specs: r.2 },
                ),
            },
        }
    }
}

/// Compiles the inline attributes of the active node.
pub open spec fn compile_active_node(
    st: TraversalState,
    props: Seq<PropertyDefinitionView>,
) -> Option<TraversalState> {
    match st.active.inline_attributes {
        None => Some(st),
        Some(attrs) => match compile_attributes(
            attrs,
            st.active.pascal_identifier,
            props,
            st.next_uid,
            st.specs,
        ) {
            None => None,
            Some(p) => Some(
                TraversalState {
                    active: TemplateNodeView { inline_attributes: Some(p.attributes), ..st.active },
                    next_uid: p.next_uid,
                    specs: p.specs,
                    ..st
                },
            ),
        },
    }
}

/// A traversal from the active node: a `Slot`, `Repeat` or `Conditional`
/// node opens a frame on the runtime stack for its walk; its attributes are
/// compiled; then each child id in turn is taken out of `nodes`, traversed
/// as the active node, and its compiled node is filed back under its id.
/// The result's active node is the compiled active node. `depth` bounds the
/// nesting; `None` where the walk cannot go on: the stack offset would
/// overflow, attribute compilation fails (see `compile_attribute`), or a
/// child id has no node in `nodes`.
pub open spec fn visit(
    st: TraversalState,
    props: Seq<PropertyDefinitionView>,
    depth: nat,
) -> Option<TraversalState>
    decreases depth, 1nat, 0nat,
{
    if opens_stack_frame(st.active.pascal_identifier) && st.stack_offset == usize::MAX {
        None
    } else {
        match compile_active_node(entered(st), props) {
            None => None,
            Some(st1) => match visit_children(st1, st1.active.children_ids, props, depth) {
                None => None,
                Some(st2) => Some(TraversalState { stack_offset: st.stack_offset, ..st2 }),
            },
        }
    }
}

/// Traverses the given children of the active node in order (see `visit`).
pub open spec fn visit_children(
    st: TraversalState,
    children: Seq<Seq<char>>,
    props: Seq<PropertyDefinitionView>,
    depth: nat,
) -> Option<TraversalState>
    decreases depth, 0nat, children.len(),
{
    if children.len() == 0 {
        Some(st)
    } else {
        match visit_children(st, children.drop_last(), props, depth) {
            None => None,
            Some(st1) => {
                let id = children.last();
                if depth == 0 || !st1.nodes.contains_key(id) {
                    None
                } else {
                    let child = TraversalState {
                        active: st1.nodes[id],
                        nodes: st1.nodes.remove(id),
                        ..st1
                    };
                    match visit(child, props, (depth - 1) as nat) {
                        None => None,
                        Some(st2) => Some(
                            TraversalState {
                                active: st1.active,
                                nodes: st2.nodes.insert(id, st2.active),
                                ..st2
                            },
                        ),
                    }
                }
            },
        }
    }
}

pub open spec fn specs_view(m: Map<usize, ExpressionSpec>) -> Map<usize, ExpressionSpecView> {
    m.map_values(|e: ExpressionSpec| e@)
}

/// The context threaded through the traversal of one top-level template node.
pub struct TemplateTraversalContext<'a> {
    pub active_node_def: TemplateNodeDefinition,
    pub component_def: &'a ComponentDefinition,
    pub stack_offset: usize,
    /// The next id that the id generator yields.
    pub uid_gen: usize,
    pub expression_specs: HashMap<usize, ExpressionSpec>,
    pub template_node_definitions: TemplateNodeMap,
}

impl<'a> TemplateTraversalContext<'a> {
    pub open spec fn state(&self) -> TraversalState {
        TraversalState {
            active: self.active_node_def@,
            stack_offset: self.stack_offset,
            next_uid: self.uid_gen,
            specs: specs_view(self.expression_specs@),
            nodes: self.template_node_definitions@,
        }
    }

    pub open spec fn props(&self) -> Seq<PropertyDefinitionView> {
        properties_view(self.component_def.property_definitions@)
    }
}

// ---------------------------------------------------------------------------
// Lemmas on the model
// ---------------------------------------------------------------------------

proof fn lemma_specs_view_insert(m: Map<usize, ExpressionSpec>, k: usize, e: ExpressionSpec)
    ensures
        specs_view(m.insert(k, e)) == specs_view(m).insert(k, e@),
{
    assert(specs_view(m.insert(k, e)) =~= specs_view(m).insert(k, e@));
}

proof fn lemma_property_index_from(props: Seq<PropertyDefinitionView>, name: Seq<char>, i: int)
    requires
        0 <= i,
    ensures
        property_index_from(props, name, i) matches Some(j) ==> i <= j < props.len()
            && props[j].name == name && forall|k: int| i <= k < j ==> props[k].name != name,
        property_index_from(props, name, i) is None <==> forall|k: int|
            i <= k < props.len() ==> props[k].name != name,
    decreases props.len() - i,
{
    if i < props.len() && props[i].name != name {
        lemma_property_index_from(props, name, i + 1);
    }
}

proof fn lemma_attributes_prefix(
    attrs: Seq<(Seq<char>, AttributeValueView)>,
    pascal: Seq<char>,
    props: Seq<PropertyDefinitionView>,
    next_uid: usize,
    specs: Map<usize, ExpressionSpecView>,
    i: int,
)
    requires
        0 <= i <= attrs.len(),
        compile_attributes(attrs, pascal, props, next_uid, specs) is Some,
    ensures
        compile_attributes(attrs.take(i), pascal, props, next_uid, specs) is Some,
    decreases attrs.len() - i,
{
    if i < attrs.len() {
        lemma_attributes_prefix(attrs, pascal, props, next_uid, specs, i + 1);
        assert(attrs.take(i + 1).drop_last() == attrs.take(i));
    } else {
        assert(attrs.take(i) == attrs);
    }
}

proof fn lemma_children_prefix(
    st: TraversalState,
    children: Seq<Seq<char>>,
    props: Seq<PropertyDefinitionView>,
    depth: nat,
    i: int,
)
    requires
        0 <= i <= children.len(),
        visit_children(st, children, props, depth) is Some,
    ensures
        visit_children(st, children.take(i), props, depth) is Some,
    decreases children.len() - i,
{
    if i < children.len() {
        lemma_children_prefix(st, children, props, depth, i + 1);
        assert(children.take(i + 1).drop_last() == children.take(i));
    } else {
        assert(children.take(i) == children);
    }
}

/// The state a walk enters its active node in: one frame deeper on the
/// runtime stack where the node opens a frame.
pub open spec fn entered(st: TraversalState) -> TraversalState {
    TraversalState {
        stack_offset: if opens_stack_frame(st.active.pascal_identifier) {
            (st.stack_offset + 1) as usize
        } else {
            st.stack_offset
        },
        ..st
    }
}

proof fn lemma_visit_unfold(st: TraversalState, props: Seq<PropertyDefinitionView>, depth: nat)
    requires
        visit(st, props, depth) is Some,
    ensures
        compile_active_node(entered(st), props) is Some,
        ({
            let st1 = compile_active_node(entered(st), props)->0;
            &&& visit_children(st1, st1.active.children_ids, props, depth) is Some
            &&& visit(st, props, depth)->0 == TraversalState {
                stack_offset: st.stack_offset,
                ..visit_children(st1, st1.active.children_ids, props, depth)->0
            }
        }),
{
}

/// `visit_children` leaves the active node and the stack offset as they
/// were, and keeps the ids of the node map.
pub proof fn lemma_visit_children_keeps_frame(
    st: TraversalState,
    children: Seq<Seq<char>>,
    props: Seq<PropertyDefinitionView>,
    depth: nat,
)
    requires
        visit_children(st, children, props, depth) is Some,
    ensures
        visit_children(st, children, props, depth)->0.active == st.active,
        visit_children(st, children, props, depth)->0.stack_offset == st.stack_offset,
        visit_children(st, children, props, depth)->0.nodes.dom() == st.nodes.dom(),
    decreases depth, 0nat, children.len(),
{
    if children.len() > 0 {
        lemma_visit_children_keeps_frame(st, children.drop_last(), props, depth);
        let st1 = visit_children(st, children.drop_last(), props, depth)->0;
        let id = children.last();
        let child = TraversalState { active: st1.nodes[id], nodes: st1.nodes.remove(id), ..st1 };
        lemma_visit_keeps_node_ids(child, props, (depth - 1) as nat);
        let st2 = visit(child, props, (depth - 1) as nat)->0;
        assert(st2.nodes.insert(id, st2.active).dom() =~= st1.nodes.dom());
    }
}

/// A walk files every node that it takes out back under the same id: the
/// ids of the node map are the same before and after. It leaves the stack
/// offset as it found it.
pub proof fn lemma_visit_keeps_node_ids(st: TraversalState, props: Seq<PropertyDefinitionView>, depth: nat)
    requires
        visit(st, props, depth) is Some,
    ensures
        visit(st, props, depth)->0.nodes.dom() == st.nodes.dom(),
        visit(st, props, depth)->0.stack_offset == st.stack_offset,
    decreases depth, 1nat, 0nat,
{
    lemma_visit_unfold(st, props, depth);
    let st1 = compile_active_node(entered(st), props)->0;
    lemma_visit_children_keeps_frame(st1, st1.active.children_ids, props, depth);
}

/// A walk compiles its node in place: the node it returns is the node it
/// started from, with the same id, component, children and kind, and with
/// its inline attributes compiled (see `lemma_compile_attributes_law`) from
/// the id counter the walk started with.
pub proof fn lemma_visit_compiles_in_place(
    st: TraversalState,
    props: Seq<PropertyDefinitionView>,
    depth: nat,
)
    requires
        visit(st, props, depth) is Some,
    ensures
        ({
            let r = visit(st, props, depth)->0;
            &&& r.active == TemplateNodeView { inline_attributes: r.active.inline_attributes, ..st.active }
            &&& match st.active.inline_attributes {
                None => r.active.inline_attributes is None,
                Some(attrs) => {
                    &&& compile_attributes(
                        attrs,
                        st.active.pascal_identifier,
                        props,
                        st.next_uid,
                        st.specs,
                    ) is Some
                    &&& r.active.inline_attributes == Some(
                        compile_attributes(
                            attrs,
                            st.active.pascal_identifier,
                            props,
                            st.next_uid,
                            st.specs,
                        )->0.attributes,
                    )
                },
            }
        }),
{
    lemma_visit_unfold(st, props, depth);
    let st1 = compile_active_node(entered(st), props)->0;
    lemma_visit_children_keeps_frame(st1, st1.active.children_ids, props, depth);
}

/// `after` is `before` with specs added or replaced only under the ids
/// `lo..hi`, each new one carrying its own id; every id of `before` stays.
pub open spec fn files_only_drawn_ids(
    before: Map<usize, ExpressionSpecView>,
    after: Map<usize, ExpressionSpecView>,
    lo: usize,
    hi: usize,
) -> bool {
    &&& lo <= hi
    &&& forall|k: usize| #[trigger] before.contains_key(k) ==> after.contains_key(k)
    &&& forall|k: usize| #[trigger]
        after.contains_key(k) ==> (before.contains_key(k) && after[k] == before[k]) || (lo <= k
            < hi && after[k].id == k)
}

proof fn lemma_files_only_drawn_ids_trans(
    a: Map<usize, ExpressionSpecView>,
    b: Map<usize, ExpressionSpecView>,
    c: Map<usize, ExpressionSpecView>,
    lo: usize,
    mid: usize,
    hi: usize,
)
    requires
        files_only_drawn_ids(a, b, lo, mid),
        files_only_drawn_ids(b, c, mid, hi),
    ensures
        files_only_drawn_ids(a, c, lo, hi),
{
    assert forall|k: usize| #[trigger] c.contains_key(k) implies (a.contains_key(k) && c[k] == a[k])
        || (lo <= k < hi && c[k].id == k) by {
        if b.contains_key(k) && c[k] == b[k] {
            assert(b.contains_key(k));
        }
    }
}

/// Whether compiling this attribute value draws an id.
pub open spec fn draws_id(v: AttributeValueView) -> bool {
    v is Identifier || v is Expression
}

/// The number of attributes in `attrs` that draw an id.
pub open spec fn drawn_count(attrs: Seq<(Seq<char>, AttributeValueView)>) -> nat
    decreases attrs.len(),
{
    if attrs.len() == 0 {
        0
    } else {
        drawn_count(attrs.drop_last()) + if draws_id(attrs.last().1) {
            1nat
        } else {
            0nat
        }
    }
}

/// The compiled form of one inline attribute, where `id` is the id it draws
/// if it draws one: its name stays; an identifier binding or an expression
/// gets `id` written back as its vtable id; literals and event bindings stay
/// as they are.
pub open spec fn attribute_compiled(
    before: (Seq<char>, AttributeValueView),
    after: (Seq<char>, AttributeValueView),
    id: usize,
) -> bool {
    &&& after.0 == before.0
    &&& match before.1 {
        AttributeValueView::Identifier(s, _) => after.1 == AttributeValueView::Identifier(s, Some(id)),
        AttributeValueView::Expression(s, _) => after.1 == AttributeValueView::Expression(s, Some(id)),
        _ => after.1 == before.1,
    }
}

/// The spec compiled for an identifier binding `attr` under `id`.
pub open spec fn identifier_spec_for(
    attr: (Seq<char>, AttributeValueView),
    id: usize,
    pascal: Seq<char>,
    props: Seq<PropertyDefinitionView>,
) -> ExpressionSpecView {
    identifier_spec(id, pascal, props[first_property(props, attr.0)->0], attr.1->Identifier_0)
}

proof fn lemma_drawn_count_take(attrs: Seq<(Seq<char>, AttributeValueView)>, i: int, j: int)
    requires
        0 <= i <= j <= attrs.len(),
    ensures
        drawn_count(attrs.take(i)) <= drawn_count(attrs.take(j)),
        j == i + 1 ==> drawn_count(attrs.take(j)) == drawn_count(attrs.take(i)) + if draws_id(
            attrs[i].1,
        ) {
            1nat
        } else {
            0nat
        },
    decreases j - i,
{
    if i < j {
        lemma_drawn_count_take(attrs, i, j - 1);
        assert(attrs.take(j).drop_last() == attrs.take(j - 1));
    }
}

/// Compiling a node's inline attributes keeps their number, order and
/// names; the attributes that draw an id draw `next_uid`, `next_uid + 1`, ...
/// in order, each written back as its vtable id (see `attribute_compiled`);
/// each identifier binding's spec is filed under its id; and specs are
/// filed only under the ids drawn.
pub proof fn lemma_compile_attributes_law(
    attrs: Seq<(Seq<char>, AttributeValueView)>,
    pascal: Seq<char>,
    props: Seq<PropertyDefinitionView>,
    next_uid: usize,
    specs: Map<usize, ExpressionSpecView>,
)
    requires
        compile_attributes(attrs, pascal, props, next_uid, specs) is Some,
    ensures
        ({
            let p = compile_attributes(attrs, pascal, props, next_uid, specs)->0;
            &&& p.attributes.len() == attrs.len()
            &&& p.next_uid == next_uid + drawn_count(attrs)
            &&& forall|i: int|
                0 <= i < attrs.len() ==> attribute_compiled(
                    attrs[i],
                    #[trigger] p.attributes[i],
                    (next_uid + drawn_count(attrs.take(i))) as usize,
                )
            &&& forall|i: int|
                0 <= i < attrs.len() && (#[trigger] attrs[i]).1 is Identifier ==> {
                    let id = (next_uid + drawn_count(attrs.take(i))) as usize;
                    p.specs.contains_key(id) && p.specs[id] == identifier_spec_for(
                        attrs[i],
                        id,
                        pascal,
                        props,
                    )
                }
            &&& files_only_drawn_ids(specs, p.specs, next_uid, p.next_uid)
        }),
    decreases attrs.len(),
{
    if attrs.len() > 0 {
        let n = attrs.len() as int;
        let prefix = attrs.drop_last();
        lemma_compile_attributes_law(prefix, pascal, props, next_uid, specs);
        let q = compile_attributes(prefix, pascal, props, next_uid, specs)->0;
        let r = compile_attribute(attrs.last(), pascal, props, q.next_uid, q.specs)->0;
        let p = compile_attributes(attrs, pascal, props, next_uid, specs)->0;
        assert(attrs.take(n - 1) == prefix);
        assert(attrs.take(n) == attrs);
        if attrs.last().1 is Identifier {
            assert forall|k: usize| #[trigger] r.2.contains_key(k) implies (q.specs.contains_key(k)
                && r.2[k] == q.specs[k]) || (q.next_uid <= k < r.1 && r.2[k].id == k) by {
                if k != q.next_uid {
                    assert(r.2[k] == q.specs[k]);
                }
            }
        }
        assert(files_only_drawn_ids(q.specs, r.2, q.next_uid, r.1));
        lemma_files_only_drawn_ids_trans(specs, q.specs, r.2, next_uid, q.next_uid, r.1);
        assert forall|i: int| 0 <= i < attrs.len() implies attribute_compiled(
            attrs[i],
            #[trigger] p.attributes[i],
            (next_uid + drawn_count(attrs.take(i))) as usize,
        ) by {
            if i < prefix.len() {
                assert(p.attributes[i] == q.attributes[i]);
                assert(attrs[i] == prefix[i]);
                assert(attrs.take(i) == prefix.take(i));
                assert(attribute_compiled(
                    prefix[i],
                    q.attributes[i],
                    (next_uid + drawn_count(prefix.take(i))) as usize,
                ));
            } else {
                assert(p.attributes[i] == r.0);
            }
        }
        assert forall|i: int|
            0 <= i < attrs.len() && (#[trigger] attrs[i]).1 is Identifier implies {
            let id = (next_uid + drawn_count(attrs.take(i))) as usize;
            p.specs.contains_key(id) && p.specs[id] == identifier_spec_for(attrs[i], id, pascal, props)
        } by {
            let id = (next_uid + drawn_count(attrs.take(i))) as usize;
            if i < prefix.len() {
                assert(attrs[i] == prefix[i]);
                assert(attrs.take(i) == prefix.take(i));
                assert(prefix[i].1 is Identifier);
                lemma_drawn_count_take(prefix, i, i + 1);
                lemma_drawn_count_take(prefix, i + 1, prefix.len() as int);
                assert(prefix.take(prefix.len() as int) == prefix);
                assert(q.specs.contains_key(id));
                assert(id < q.next_uid);
                if attrs.last().1 is Identifier {
                    assert(r.2 == q.specs.insert(q.next_uid, r.2[q.next_uid]));
                }
            }
        }
    } else {
        assert(files_only_drawn_ids(specs, specs, next_uid, next_uid));
    }
}

/// A walk files expression specs only under the ids it draws, each spec
/// carrying its own id, and keeps every spec filed under any other id.
pub proof fn lemma_visit_files_only_drawn_ids(
    st: TraversalState,
    props: Seq<PropertyDefinitionView>,
    depth: nat,
)
    requires
        visit(st, props, depth) is Some,
    ensures
        files_only_drawn_ids(
            st.specs,
            visit(st, props, depth)->0.specs,
            st.next_uid,
            visit(st, props, depth)->0.next_uid,
        ),
    decreases depth, 1nat, 0nat,
{
    lemma_visit_unfold(st, props, depth);
    let st1 = compile_active_node(entered(st), props)->0;
    match st.active.inline_attributes {
        Some(attrs) => {
            lemma_compile_attributes_law(
                attrs,
                st.active.pascal_identifier,
                props,
                st.next_uid,
                st.specs,
            );
        },
        None => {
            assert(files_only_drawn_ids(st.specs, st1.specs, st.next_uid, st1.next_uid));
        },
    }
    lemma_visit_children_files_only_drawn_ids(st1, st1.active.children_ids, props, depth);
    let r = visit(st, props, depth)->0;
    lemma_files_only_drawn_ids_trans(st.specs, st1.specs, r.specs, st.next_uid, st1.next_uid, r.next_uid);
}

/// `visit_children` files specs only under the ids it draws (see
/// `lemma_visit_files_only_drawn_ids`).
pub proof fn lemma_visit_children_files_only_drawn_ids(
    st: TraversalState,
    children: Seq<Seq<char>>,
    props: Seq<PropertyDefinitionView>,
    depth: nat,
)
    requires
        visit_children(st, children, props, depth) is Some,
    ensures
        files_only_drawn_ids(
            st.specs,
            visit_children(st, children, props, depth)->0.specs,
            st.next_uid,
            visit_children(st, children, props, depth)->0.next_uid,
        ),
    decreases depth, 0nat, children.len(),
{
    if children.len() > 0 {
        lemma_visit_children_files_only_drawn_ids(st, children.drop_last(), props, depth);
        let st1 = visit_children(st, children.drop_last(), props, depth)->0;
        let id = children.last();
        let child = TraversalState { active: st1.nodes[id], nodes: st1.nodes.remove(id), ..st1 };
        lemma_visit_files_only_drawn_ids(child, props, (depth - 1) as nat);
        let st2 = visit(child, props, (depth - 1) as nat)->0;
        lemma_files_only_drawn_ids_trans(st.specs, st1.specs, st2.specs, st.next_uid, st1.next_uid, st2.next_uid);
    } else {
        assert(files_only_drawn_ids(st.specs, st.specs, st.next_uid, st.next_uid));
    }
}

/// `e` is the spec of the identifier binding `input` of the attribute named
/// `name` on a node of kind `pascal`, filed under `id`: it carries `id`,
/// the node's kind, no invocations, no output statement, the binding as its
/// input statement, and as its return type the Pascalized fully qualified
/// type of the first property definition of the component named `name`.
pub open spec fn is_identifier_spec(
    e: ExpressionSpecView,
    id: usize,
    pascal: Seq<char>,
    props: Seq<PropertyDefinitionView>,
    name: Seq<char>,
    input: Seq<char>,
) -> bool {
    &&& e.id == id
    &&& e.properties_type == pascal
    &&& e.invocations.len() == 0
    &&& e.output_statement.len() == 0
    &&& e.input_statement == input
    &&& exists|j: int|
        0 <= j < props.len() && #[trigger] props[j].name == name && (forall|k: int|
            0 <= k < j ==> props[k].name != name) && props[j].pascalized_fully_qualified_type
            == e.pascalized_return_type
}

/// Every identifier binding of `node` that carries a vtable id has its spec
/// filed under that id in `specs` (see `is_identifier_spec`).
pub open spec fn node_specs_filed(
    node: TemplateNodeView,
    props: Seq<PropertyDefinitionView>,
    specs: Map<usize, ExpressionSpecView>,
) -> bool {
    node.inline_attributes matches Some(attrs) ==> forall|i: int|
        0 <= i < attrs.len() ==> ((#[trigger] attrs[i]).1 matches AttributeValueView::Identifier(
            s,
            Some(id),
        ) ==> specs.contains_key(id) && is_identifier_spec(
            specs[id],
            id,
            node.pascal_identifier,
            props,
            attrs[i].0,
            s,
        ))
}

/// The spec compiled for an identifier binding whose name is that of a
/// property of the component is its spec in the sense of
/// `is_identifier_spec`.
pub proof fn lemma_identifier_spec_is_the_bindings(
    attr: (Seq<char>, AttributeValueView),
    id: usize,
    pascal: Seq<char>,
    props: Seq<PropertyDefinitionView>,
)
    requires
        attr.1 is Identifier,
        exists|j: int| 0 <= j < props.len() && #[trigger] props[j].name == attr.0,
    ensures
        is_identifier_spec(
            identifier_spec_for(attr, id, pascal, props),
            id,
            pascal,
            props,
            attr.0,
            attr.1->Identifier_0,
        ),
{
    lemma_property_index_from(props, attr.0, 0);
    let j = first_property(props, attr.0)->0;
    let e = identifier_spec_for(attr, id, pascal, props);
    assert(props[j].name == attr.0);
    assert(props[j].pascalized_fully_qualified_type == e.pascalized_return_type);
}

/// What `node_specs_filed` asks of a node stays true as long as the specs
/// it reads are kept.
pub proof fn lemma_node_specs_filed_kept(
    node: TemplateNodeView,
    props: Seq<PropertyDefinitionView>,
    before: Map<usize, ExpressionSpecView>,
    after: Map<usize, ExpressionSpecView>,
)
    requires
        node_specs_filed(node, props, before),
        forall|k: usize| #[trigger]
            before.contains_key(k) ==> after.contains_key(k) && after[k] == before[k],
    ensures
        node_specs_filed(node, props, after),
{
}

/// A walk files the spec of every identifier binding of the node it returns
/// under the vtable id that the binding carries.
pub proof fn lemma_walk_files_identifier_specs(
    st: TraversalState,
    props: Seq<PropertyDefinitionView>,
    depth: nat,
)
    requires
        visit(st, props, depth) is Some,
    ensures
        node_specs_filed(visit(st, props, depth)->0.active, props, visit(st, props, depth)->0.specs),
{
    lemma_visit_unfold(st, props, depth);
    lemma_visit_compiles_in_place(st, props, depth);
    let st1 = compile_active_node(entered(st), props)->0;
    let r = visit(st, props, depth)->0;
    lemma_visit_children_keeps_frame(st1, st1.active.children_ids, props, depth);
    lemma_visit_children_files_only_drawn_ids(st1, st1.active.children_ids, props, depth);
    match st.active.inline_attributes {
        None => {},
        Some(attrs) => {
            let pascal = st.active.pascal_identifier;
            lemma_compile_attributes_law(attrs, pascal, props, st.next_uid, st.specs);
            let p = compile_attributes(attrs, pascal, props, st.next_uid, st.specs)->0;
            let out = r.active.inline_attributes->0;
            assert(out == p.attributes);
            assert forall|i: int| 0 <= i < out.len() implies ((#[trigger] out[i]).1 matches AttributeValueView::Identifier(
                s,
                Some(id),
            ) ==> r.specs.contains_key(id) && is_identifier_spec(
                r.specs[id],
                id,
                r.active.pascal_identifier,
                props,
                out[i].0,
                s,
            )) by {
                match out[i].1 {
                AttributeValueView::Identifier(s, Some(id)) => {
                    let di = (st.next_uid + drawn_count(attrs.take(i))) as usize;
                    assert(attribute_compiled(attrs[i], out[i], di));
                    assert(attrs[i].1 is Identifier);
                    assert(id == di);
                    assert(p.specs.contains_key(id));
                    lemma_compile_attributes_succeeds(attrs, pascal, props, st.next_uid, st.specs);
                    assert(exists|j: int| 0 <= j < props.len() && #[trigger] props[j].name == attrs[i].0);
                    lemma_identifier_spec_is_the_bindings(attrs[i], id, pascal, props);
                    assert(p.specs[id] == identifier_spec_for(attrs[i], id, pascal, props));
                    assert(attrs[i].1->Identifier_0 == s);
                    lemma_drawn_count_take(attrs, i, i + 1);
                    lemma_drawn_count_take(attrs, i + 1, attrs.len() as int);
                    assert(attrs.take(attrs.len() as int) == attrs);
                    assert(id < p.next_uid);
                    assert(st1.specs == p.specs);
                    assert(r.specs.contains_key(id) && r.specs[id] == p.specs[id]);
                },
                _ => {},
                }
            }
        },
    }
}

/// The inline attributes `attrs` can be compiled from the id counter at
/// `next_uid`: the ids they draw fit, and each identifier binding names a
/// property of the component.
pub open spec fn attributes_compilable(
    attrs: Seq<(Seq<char>, AttributeValueView)>,
    props: Seq<PropertyDefinitionView>,
    next_uid: usize,
) -> bool {
    &&& next_uid + drawn_count(attrs) <= usize::MAX
    &&& forall|i: int|
        0 <= i < attrs.len() && (#[trigger] attrs[i]).1 is Identifier ==> exists|j: int|
            0 <= j < props.len() && #[trigger] props[j].name == attrs[i].0
}

/// Compiling inline attributes succeeds exactly where they are compilable
/// (see `attributes_compilable`): literals and event bindings never make it
/// fail.
pub proof fn lemma_compile_attributes_succeeds(
    attrs: Seq<(Seq<char>, AttributeValueView)>,
    pascal: Seq<char>,
    props: Seq<PropertyDefinitionView>,
    next_uid: usize,
    specs: Map<usize, ExpressionSpecView>,
)
    ensures
        compile_attributes(attrs, pascal, props, next_uid, specs) is Some <==> attributes_compilable(
            attrs,
            props,
            next_uid,
        ),
    decreases attrs.len(),
{
    if attrs.len() > 0 {
        let prefix = attrs.drop_last();
        let n = attrs.len() as int;
        lemma_compile_attributes_succeeds(prefix, pascal, props, next_uid, specs);
        let last = attrs.last();
        lemma_property_index_from(props, last.0, 0);
        assert forall|i: int| 0 <= i < prefix.len() implies #[trigger] prefix[i] == attrs[i] by {}
        if compile_attributes(prefix, pascal, props, next_uid, specs) is Some {
            lemma_compile_attributes_law(prefix, pascal, props, next_uid, specs);
        }
        if attributes_compilable(attrs, props, next_uid) {
            assert(attributes_compilable(prefix, props, next_uid));
            if last.1 is Identifier {
                assert(attrs[n - 1].1 is Identifier);
                let j = choose|j: int| 0 <= j < props.len() && #[trigger] props[j].name == attrs[n - 1].0;
                assert(props[j].name == last.0);
            }
        }
        if compile_attributes(attrs, pascal, props, next_uid, specs) is Some {
            assert forall|i: int|
                0 <= i < attrs.len() && (#[trigger] attrs[i]).1 is Identifier implies exists|j: int|
                0 <= j < props.len() && #[trigger] props[j].name == attrs[i].0 by {
                if i == n - 1 {
                    let j = first_property(props, last.0)->0;
                    assert(props[j].name == attrs[i].0);
                } else {
                    assert(prefix[i] == attrs[i]);
                }
            }
        }
    }
}

/// A walk from a node with no children succeeds exactly where the node does
/// not open a stack frame at the top of the stack and its inline attributes
/// are compilable.
pub proof fn lemma_leaf_walk_succeeds(st: TraversalState, props: Seq<PropertyDefinitionView>, depth: nat)
    requires
        st.active.children_ids.len() == 0,
    ensures
        visit(st, props, depth) is Some <==> {
            &&& !(opens_stack_frame(st.active.pascal_identifier) && st.stack_offset == usize::MAX)
            &&& st.active.inline_attributes matches Some(attrs) ==> attributes_compilable(
                attrs,
                props,
                st.next_uid,
            )
        },
{
    match st.active.inline_attributes {
        Some(attrs) => {
            lemma_compile_attributes_succeeds(
                attrs,
                st.active.pascal_identifier,
                props,
                st.next_uid,
                st.specs,
            );
        },
        None => {},
    }
}

// ---------------------------------------------------------------------------
// Executable traversal
// ---------------------------------------------------------------------------

/// Whether a node of kind `pascal` opens a frame on the runtime stack.
fn is_stack_frame_node(pascal: &String) -> (r: bool)
    ensures
        r == opens_stack_frame(pascal@),
{
    *pascal == "Slot".to_owned() || *pascal == "Repeat".to_owned() || *pascal
        == "Conditional".to_owned()
}

/// The position of the first property definition named `name`.
pub fn find_property(props: &Vec<PropertyDefinition>, name: &String) -> (r: Option<usize>)
    ensures
        match r {
            Some(i) => first_property(properties_view(props@), name@) == Some(i as int),
            None => first_property(properties_view(props@), name@) is None,
        },
{
    let ghost pv = properties_view(props@);
    let mut i: usize = 0;
    while i < props.len()
        invariant
            i <= props@.len(),
            pv == properties_view(props@),
            first_property(pv, name@) == property_index_from(pv, name@, i as int),
        decreases props@.len() - i,
    {
        if props[i].name == *name {
            return Some(i);
        }
        i = i + 1;
    }
    None
}

/// Compiles the inline attributes `attrs` of a node of kind `pascal` (see
/// `compile_attributes`), drawing ids from `uid_gen` and filing the specs of
/// identifier bindings in `specs`. `None` exactly where the compilation
/// fails; the counter and the specs are then left in no stated state.
fn try_compile_inline_attributes(
    attrs: &Vec<(String, AttributeValueDefinition)>,
    pascal: &String,
    component_def: &ComponentDefinition,
    uid_gen: &mut usize,
    specs: &mut HashMap<usize, ExpressionSpec>,
) -> (r: Option<Vec<(String, AttributeValueDefinition)>>)
    ensures
        ({
            let model = compile_attributes(
                attributes_view(attrs@),
                pascal@,
                properties_view(component_def.property_definitions@),
                *old(uid_gen),
                specs_view(old(specs)@),
            );
            &&& (r is Some <==> model is Some)
            &&& (r matches Some(v) ==> {
                &&& attributes_view(v@) == model->0.attributes
                &&& *final(uid_gen) == model->0.next_uid
                &&& specs_view(final(specs)@) == model->0.specs
            })
        }),
{
    let ghost av = attributes_view(attrs@);
    let ghost props = properties_view(component_def.property_definitions@);
    let ghost uid0 = *uid_gen;
    let ghost specs0 = specs_view(specs@);
    let mut r: Vec<(String, AttributeValueDefinition)> = Vec::new();
    let mut i: usize = 0;
    proof {
        assert(av.take(0) =~= Seq::<(Seq<char>, AttributeValueView)>::empty());
        assert(attributes_view(r@) =~= Seq::<(Seq<char>, AttributeValueView)>::empty());
    }
    while i < attrs.len()
        invariant
            i <= attrs@.len(),
            av == attributes_view(attrs@),
            props == properties_view(component_def.property_definitions@),
            uid0 == *old(uid_gen),
            specs0 == specs_view(old(specs)@),
            compile_attributes(av.take(i as int), pascal@, props, uid0, specs0) == Some(
                AttributePass {
                    attributes: attributes_view(r@),
                    next_uid: *uid_gen,
                    specs: specs_view(specs@),
                },
            ),
        decreases attrs@.len() - i,
    {
        proof {
            assert(av.take(i + 1).drop_last() == av.take(i as int));
            assert(av.take(i + 1).last() == av[i as int]);
        }
        let ghost prev_r = r@;
        let name = &attrs[i].0;
        let value = &attrs[i].1;
        let new_value = match value {
            AttributeValueDefinition::LiteralValue(s) => AttributeValueDefinition::LiteralValue(
                s.clone(),
            ),
            AttributeValueDefinition::EventBindingTarget(s) =>
                AttributeValueDefinition::EventBindingTarget(s.clone()),
            AttributeValueDefinition::Identifier(s, _) => {
                let found = find_property(&component_def.property_definitions, name);
                if *uid_gen == usize::MAX || found.is_none() {
                    proof {
                        assert(av[i as int] == (name@, value@));
                        assert(compile_attributes(av.take(i + 1), pascal@, props, uid0, specs0) is None);
                        if compile_attributes(av, pascal@, props, uid0, specs0) is Some {
                            lemma_attributes_prefix(av, pascal@, props, uid0, specs0, i + 1);
                        }
                    }
                    return None;
                }
                let id = *uid_gen;
                *uid_gen = *uid_gen + 1;
                let index = found.unwrap();
                proof {
                    lemma_property_index_from(props, name@, 0);
                }
                let prop = &component_def.property_definitions[index];
                let spec = ExpressionSpec {
                    id,
                    properties_type: pascal.clone(),
                    pascalized_return_type: prop.pascalized_fully_qualified_type.clone(),
                    invocations: Vec::new(),
                    output_statement: String::new(),
                    input_statement: s.clone(),
                };
                proof {
                    assert(spec@.invocations =~= Seq::empty());
                    assert(spec@ == identifier_spec(id, pascal@, props[index as int], s@));
                    lemma_specs_view_insert(specs@, id, spec);
                }
                specs.insert(id, spec);
                AttributeValueDefinition::Identifier(s.clone(), Some(id))
            },
            AttributeValueDefinition::Expression(s, _) => {
                if *uid_gen == usize::MAX {
                    proof {
                        assert(av[i as int] == (name@, value@));
                        assert(compile_attributes(av.take(i + 1), pascal@, props, uid0, specs0) is None);
                        if compile_attributes(av, pascal@, props, uid0, specs0) is Some {
                            lemma_attributes_prefix(av, pascal@, props, uid0, specs0, i + 1);
                        }
                    }
                    return None;
                }
                let id = *uid_gen;
                *uid_gen = *uid_gen + 1;
                AttributeValueDefinition::Expression(s.clone(), Some(id))
            },
        };
        r.push((name.clone(), new_value));
        proof {
            assert(attributes_view(r@) =~= attributes_view(prev_r).push(
                (attrs@[i as int].0@, new_value@),
            ));
        }
        i = i + 1;
    }
    proof {
        assert(av.take(attrs@.len() as int) == av);
    }
    Some(r)
}

/// The traversal of `recurse_template_and_compile_expressions`, which
/// returns `None` exactly where that of the model fails (see `visit`).
#[verifier::loop_isolation(false)]
pub(crate) fn try_recurse_template<'a>(ctx: TemplateTraversalContext<'a>) -> (out: Option<
    TemplateTraversalContext<'a>,
>)
    ensures
        out is Some <==> visit(ctx.state(), ctx.props(), ctx.template_node_definitions@.len()) is Some,
        out matches Some(o) ==> {
            &&& o.state() == visit(
                ctx.state(),
                ctx.props(),
                ctx.template_node_definitions@.len(),
            )->0
            &&& o.component_def == ctx.component_def
        },
    decreases ctx.template_node_definitions@.len(),
{
    let ghost st0 = ctx.state();
    let ghost props = ctx.props();
    let ghost depth = ctx.template_node_definitions@.len();
    let ghost stack0 = ctx.stack_offset;
    let ghost comp0 = ctx.component_def;
    let mut ctx = ctx;
    let mut incremented = false;
    if is_stack_frame_node(&ctx.active_node_def.pascal_identifier) {
        if ctx.stack_offset == usize::MAX {
            return None;
        }
        ctx.stack_offset = ctx.stack_offset + 1;
        incremented = true;
    }
    assert(ctx.state() == entered(st0));
    let new_attributes = match &ctx.active_node_def.inline_attributes {
        Some(attrs) => match try_compile_inline_attributes(
            attrs,
            &ctx.active_node_def.pascal_identifier,
            ctx.component_def,
            &mut ctx.uid_gen,
            &mut ctx.expression_specs,
        ) {
            Some(v) => Some(v),
            None => {
                return None;
            },
        },
        None => None,
    };
    if new_attributes.is_some() {
        ctx.active_node_def.inline_attributes = new_attributes;
    }
    let ghost st1 = ctx.state();
    assert(compile_active_node(entered(st0), props) == Some(st1));
    let children = clone_strings(&ctx.active_node_def.children_ids);
    let ghost cv = strings_view(children@);
    proof {
        assert(cv.take(0) =~= Seq::<Seq<char>>::empty());
    }
    let mut i: usize = 0;
    while i < children.len()
        invariant
            i <= children@.len(),
            cv == strings_view(children@),
            cv == st1.active.children_ids,
            st1.nodes == st0.nodes,
            depth == st0.nodes.len(),
            st0.nodes.dom().finite(),
            props == ctx.props(),
            visit_children(st1, cv.take(i as int), props, depth) == Some(ctx.state()),
            ctx.component_def == comp0,
            ctx.stack_offset == if incremented { stack0 + 1 } else { stack0 as int },
        decreases children@.len() - i,
    {
        proof {
            assert(cv.take(i + 1).drop_last() == cv.take(i as int));
            assert(cv.take(i + 1).last() == cv[i as int]);
            lemma_visit_children_keeps_frame(st1, cv.take(i as int), props, depth);
        }
        let ghost si = ctx.state();
        let id = &children[i];
        let child = ctx.template_node_definitions.remove(id);
        let mut node = match child {
            Some(node) => node,
            None => {
                proof {
                    if visit_children(st1, cv, props, depth) is Some {
                        lemma_children_prefix(st1, cv, props, depth, i + 1);
                    }
                }
                return None;
            },
        };
        std::mem::swap(&mut ctx.active_node_def, &mut node);
        assert(ctx.template_node_definitions@.len() == depth - 1);
        match try_recurse_template(ctx) {
            Some(c) => {
                ctx = c;
            },
            None => {
                proof {
                    if visit_children(st1, cv, props, depth) is Some {
                        lemma_children_prefix(st1, cv, props, depth, i + 1);
                    }
                }
                return None;
            },
        }
        proof {
            lemma_visit_keeps_node_ids(
                TraversalState {
                    active: si.nodes[cv[i as int]],
                    nodes: si.nodes.remove(cv[i as int]),
                    ..si
                },
                props,
                (depth - 1) as nat,
            );
        }
        std::mem::swap(&mut ctx.active_node_def, &mut node);
        ctx.template_node_definitions.insert(id.clone(), node);
        i = i + 1;
    }
    proof {
        assert(cv.take(children@.len() as int) == cv);
        lemma_visit_children_keeps_frame(st1, cv, props, depth);
    }
    if incremented {
        ctx.stack_offset = ctx.stack_offset - 1;
    }
    Some(ctx)
}

/// Walks the template tree below `ctx.active_node_def`, compiling the inline
/// attributes of every node it reaches in place (see `visit`). Each child is
/// taken out of the node map, walked, and filed back compiled under its id;
/// the returned context's active node is the compiled active node. The stack
/// offset goes up by one for the duration of a `Slot`, `Repeat` or
/// `Conditional` node's walk and is back where it was at the end.
pub fn recurse_template_and_compile_expressions<'a>(
    ctx: TemplateTraversalContext<'a>,
) -> (out: TemplateTraversalContext<'a>)
    requires
        visit(ctx.state(), ctx.props(), ctx.template_node_definitions@.len()) is Some,
    ensures
        out.state() == visit(ctx.state(), ctx.props(), ctx.template_node_definitions@.len())->0,
        out.stack_offset == ctx.stack_offset,
        out.component_def == ctx.component_def,
        node_specs_filed(out.active_node_def@, ctx.props(), specs_view(out.expression_specs@)),
{
    proof {
        lemma_visit_keeps_node_ids(ctx.state(), ctx.props(), ctx.template_node_definitions@.len());
        lemma_walk_files_identifier_specs(ctx.state(), ctx.props(), ctx.template_node_definitions@.len());
    }
    try_recurse_template(ctx).unwrap()
}

} // verus!
