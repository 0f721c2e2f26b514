use std::collections::HashMap;
use vstd::prelude::*;

use crate::manifest::{
    properties_view, ComponentDefinition, ExpressionSpec, ExpressionSpecView, PaxManifest,
    PropertyDefinitionView, TemplateNodeDefinition, TemplateNodeView,
};
use crate::node_map::{lemma_node_map_finite, TemplateNodeMap};
use crate::traversal::{
    lemma_node_specs_filed_kept, lemma_walk_files_identifier_specs, node_specs_filed,
    lemma_visit_compiles_in_place, lemma_visit_files_only_drawn_ids, lemma_visit_keeps_node_ids,
    specs_view, try_recurse_template, visit, TemplateTraversalContext, TraversalState,
};

verus! {

broadcast use {vstd::std_specs::hash::group_hash_axioms, lemma_node_map_finite};

/// What compiling the templates of a list of components yields.
pub struct CompiledTemplates {
    /// The compiled template of each component, `None` where it has none.
    pub templates: Seq<Option<Seq<TemplateNodeView>>>,
    /// The next id that the id generator yields.
    pub next_uid: usize,
    pub specs: Map<usize, ExpressionSpecView>,
    pub nodes: Map<Seq<char>, TemplateNodeView>,
}

/// What compiling the top-level nodes of one template yields.
pub struct CompiledRoots {
    /// The compiled form of each top-level node.
    pub roots: Seq<TemplateNodeView>,
    /// The next id that the id generator yields.
    pub next_uid: usize,
    pub specs: Map<usize, ExpressionSpecView>,
    pub nodes: Map<Seq<char>, TemplateNodeView>,
}

pub open spec fn nodes_view(v: Seq<TemplateNodeDefinition>) -> Seq<TemplateNodeView> {
    v.map_values(|n: TemplateNodeDefinition| n@)
}

pub open spec fn template_view(t: Option<Vec<TemplateNodeDefinition>>) -> Option<
    Seq<TemplateNodeView>,
> {
    match t {
        Some(v) => Some(nodes_view(v@)),
        None => None,
    }
}

/// The state a walk from the top-level node `root` starts in, after `p`.
pub open spec fn root_state(root: TemplateNodeView, p: CompiledRoots) -> TraversalState {
    TraversalState {
        active: root,
        stack_offset: 0,
        next_uid: p.next_uid,
        specs: p.specs,
        nodes: p.nodes,
    }
}

/// Compiles the top-level nodes of one template in order. Each starts a
/// walk of its own at stack offset 0, with the id generator, specs and node
/// map that the previous one left.
pub open spec fn compile_template(
    roots: Seq<TemplateNodeView>,
    props: Seq<PropertyDefinitionView>,
    next_uid: usize,
    specs: Map<usize, ExpressionSpecView>,
    nodes: Map<Seq<char>, TemplateNodeView>,
) -> Option<CompiledRoots>
    decreases roots.len(),
{
    if roots.len() == 0 {
        Some(CompiledRoots { roots: Seq::empty(), next_uid, specs, nodes })
    } else {
        match compile_template(roots.drop_last(), props, next_uid, specs, nodes) {
            None => None,
            Some(p) => match visit(root_state(roots.last(), p), props, p.nodes.len()) {
                None => None,
                Some(r) => Some(
                    CompiledRoots {
                        roots: p.roots.push(r.active),
                        next_uid: r.next_uid,
                        specs: r.specs,
                        nodes: r.nodes,
                    },
                ),
            },
        }
    }
}

/// Compiles the templates of the components in order (see `compile_template`).
pub open spec fn compile_components(
    comps: Seq<ComponentDefinition>,
    next_uid: usize,
    specs: Map<usize, ExpressionSpecView>,
    nodes: Map<Seq<char>, TemplateNodeView>,
) -> Option<CompiledTemplates>
    decreases comps.len(),
{
    if comps.len() == 0 {
        Some(CompiledTemplates { templates: Seq::empty(), next_uid, specs, nodes })
    } else {
        match compile_components(comps.drop_last(), next_uid, specs, nodes) {
            None => None,
            Some(p) => match template_view(comps.last().template) {
                None => Some(CompiledTemplates { templates: p.templates.push(None), ..p }),
                Some(t) => match compile_template(
                    t,
                    properties_view(comps.last().property_definitions@),
                    p.next_uid,
                    p.specs,
                    p.nodes,
                ) {
                    None => None,
                    Some(r) => Some(
                        CompiledTemplates {
                            templates: p.templates.push(Some(r.roots)),
                            next_uid: r.next_uid,
                            specs: r.specs,
                            nodes: r.nodes,
                        },
                    ),
                },
            },
        }
    }
}

/// `after` is `before` with only its template replaced.
pub open spec fn same_but_template(after: ComponentDefinition, before: ComponentDefinition) -> bool {
    &&& after.source_id == before.source_id
    &&& after.pascal_identifier == before.pascal_identifier
    &&& after.rust_module_path == before.rust_module_path
    &&& after.root_template_node_id == before.root_template_node_id
    &&& after.settings == before.settings
    &&& after.property_definitions == before.property_definitions
}

/// The compilation of a manifest's templates, with the id generator at 0
/// and no expression specs to start from.
pub open spec fn compile_manifest(m: PaxManifest) -> Option<CompiledTemplates> {
    compile_components(m.components@, 0, Map::empty(), m.template_node_definitions@)
}

proof fn lemma_template_prefix(
    roots: Seq<TemplateNodeView>,
    props: Seq<PropertyDefinitionView>,
    next_uid: usize,
    specs: Map<usize, ExpressionSpecView>,
    nodes: Map<Seq<char>, TemplateNodeView>,
    i: int,
)
    requires
        0 <= i <= roots.len(),
        compile_template(roots, props, next_uid, specs, nodes) is Some,
    ensures
        compile_template(roots.take(i), props, next_uid, specs, nodes) is Some,
    decreases roots.len() - i,
{
    if i < roots.len() {
        lemma_template_prefix(roots, props, next_uid, specs, nodes, i + 1);
        assert(roots.take(i + 1).drop_last() == roots.take(i));
    } else {
        assert(roots.take(i) == roots);
    }
}

proof fn lemma_components_prefix(
    comps: Seq<ComponentDefinition>,
    next_uid: usize,
    specs: Map<usize, ExpressionSpecView>,
    nodes: Map<Seq<char>, TemplateNodeView>,
    i: int,
)
    requires
        0 <= i <= comps.len(),
        compile_components(comps, next_uid, specs, nodes) is Some,
    ensures
        compile_components(comps.take(i), next_uid, specs, nodes) is Some,
    decreases comps.len() - i,
{
    if i < comps.len() {
        lemma_components_prefix(comps, next_uid, specs, nodes, i + 1);
        assert(comps.take(i + 1).drop_last() == comps.take(i));
    } else {
        assert(comps.take(i) == comps);
    }
}

/// Compiling a template compiles each top-level node in place: the result
/// has one node for each, with the same id, component, children and kind.
/// It files every node it takes out of the node map back under its id: the
/// ids of the map are the same before and after.
pub proof fn lemma_compile_template_in_place(
    roots: Seq<TemplateNodeView>,
    props: Seq<PropertyDefinitionView>,
    next_uid: usize,
    specs: Map<usize, ExpressionSpecView>,
    nodes: Map<Seq<char>, TemplateNodeView>,
)
    requires
        compile_template(roots, props, next_uid, specs, nodes) is Some,
    ensures
        ({
            let r = compile_template(roots, props, next_uid, specs, nodes)->0;
            &&& r.nodes.dom() == nodes.dom()
            &&& r.roots.len() == roots.len()
            &&& forall|j: int|
                0 <= j < roots.len() ==> #[trigger] r.roots[j] == TemplateNodeView {
                    inline_attributes: r.roots[j].inline_attributes,
                    ..roots[j]
                }
        }),
    decreases roots.len(),
{
    if roots.len() > 0 {
        let prefix = roots.drop_last();
        lemma_compile_template_in_place(prefix, props, next_uid, specs, nodes);
        let p = compile_template(prefix, props, next_uid, specs, nodes)->0;
        let st = root_state(roots.last(), p);
        lemma_visit_keeps_node_ids(st, props, p.nodes.len());
        lemma_visit_compiles_in_place(st, props, p.nodes.len());
        let r = compile_template(roots, props, next_uid, specs, nodes)->0;
        assert forall|j: int| 0 <= j < roots.len() implies #[trigger] r.roots[j]
            == TemplateNodeView { inline_attributes: r.roots[j].inline_attributes, ..roots[j] } by {
            if j < prefix.len() {
                assert(r.roots[j] == p.roots[j]);
                assert(roots[j] == prefix[j]);
            }
        }
    }
}

/// Compiling a manifest's templates keeps the ids of its node map, and
/// gives each component a compiled template exactly where it had a
/// template, with one compiled node for each of its nodes, with the same
/// id, component, children and kind.
pub proof fn lemma_compile_components_keeps_shape(
    comps: Seq<ComponentDefinition>,
    next_uid: usize,
    specs: Map<usize, ExpressionSpecView>,
    nodes: Map<Seq<char>, TemplateNodeView>,
)
    requires
        compile_components(comps, next_uid, specs, nodes) is Some,
    ensures
        ({
            let r = compile_components(comps, next_uid, specs, nodes)->0;
            &&& r.nodes.dom() == nodes.dom()
            &&& r.templates.len() == comps.len()
            &&& forall|i: int|
                0 <= i < comps.len() ==> match (#[trigger] r.templates[i], template_view(
                    comps[i].template,
                )) {
                    (Some(t), Some(v)) => t.len() == v.len() && forall|j: int|
                        0 <= j < v.len() ==> #[trigger] t[j] == TemplateNodeView {
                            inline_attributes: t[j].inline_attributes,
                            ..v[j]
                        },
                    (None, None) => true,
                    _ => false,
                }
        }),
    decreases comps.len(),
{
    if comps.len() == 0 {
        return;
    }
    let prefix = comps.drop_last();
    lemma_compile_components_keeps_shape(prefix, next_uid, specs, nodes);
    let p = compile_components(prefix, next_uid, specs, nodes)->0;
    let c = comps.last();
    match template_view(c.template) {
        None => {},
        Some(t) => {
            lemma_compile_template_in_place(
                t,
                properties_view(c.property_definitions@),
                p.next_uid,
                p.specs,
                p.nodes,
            );
        },
    }
    let r = compile_components(comps, next_uid, specs, nodes)->0;
    assert forall|i: int| 0 <= i < comps.len() implies match (
        #[trigger] r.templates[i],
        template_view(comps[i].template),
    ) {
        (Some(t), Some(v)) => t.len() == v.len() && forall|j: int|
            0 <= j < v.len() ==> #[trigger] t[j] == TemplateNodeView {
                inline_attributes: t[j].inline_attributes,
                ..v[j]
            },
        (None, None) => true,
        _ => false,
    } by {
        if i < prefix.len() {
            assert(r.templates[i] == p.templates[i]);
            assert(comps[i] == prefix[i]);
        }
    }
}

/// Every spec of `m` is filed under its own id, which lies below `bound`.
pub open spec fn filed_below(m: Map<usize, ExpressionSpecView>, bound: usize) -> bool {
    forall|k: usize| #[trigger] m.contains_key(k) ==> k < bound && m[k].id == k
}

/// `after` keeps every spec of `before` as it was.
pub open spec fn keeps_specs(
    before: Map<usize, ExpressionSpecView>,
    after: Map<usize, ExpressionSpecView>,
) -> bool {
    forall|k: usize| #[trigger] before.contains_key(k) ==> after.contains_key(k) && after[k] == before[k]
}

proof fn lemma_walk_draws_fresh_ids(st: TraversalState, props: Seq<PropertyDefinitionView>, depth: nat)
    requires
        visit(st, props, depth) is Some,
        filed_below(st.specs, st.next_uid),
    ensures
        ({
            let r = visit(st, props, depth)->0;
            &&& st.next_uid <= r.next_uid
            &&& filed_below(r.specs, r.next_uid)
            &&& keeps_specs(st.specs, r.specs)
        }),
{
    lemma_visit_files_only_drawn_ids(st, props, depth);
    let r = visit(st, props, depth)->0;
    assert forall|k: usize| #[trigger] r.specs.contains_key(k) implies k < r.next_uid
        && r.specs[k].id == k by {
        if st.specs.contains_key(k) && r.specs[k] == st.specs[k] {
        }
    }
    assert forall|k: usize| #[trigger] st.specs.contains_key(k) implies r.specs.contains_key(k)
        && r.specs[k] == st.specs[k] by {
        assert(r.specs.contains_key(k));
    }
}

/// Compiling a template draws ids from one counter for all its nodes: where
/// every spec so far is filed under its own id below the counter, so is
/// every spec afterwards, the counter never goes back, and no spec filed
/// before is replaced.
pub proof fn lemma_compile_template_draws_fresh_ids(
    roots: Seq<TemplateNodeView>,
    props: Seq<PropertyDefinitionView>,
    next_uid: usize,
    specs: Map<usize, ExpressionSpecView>,
    nodes: Map<Seq<char>, TemplateNodeView>,
)
    requires
        compile_template(roots, props, next_uid, specs, nodes) is Some,
        filed_below(specs, next_uid),
    ensures
        ({
            let r = compile_template(roots, props, next_uid, specs, nodes)->0;
            &&& next_uid <= r.next_uid
            &&& filed_below(r.specs, r.next_uid)
            &&& keeps_specs(specs, r.specs)
        }),
    decreases roots.len(),
{
    if roots.len() > 0 {
        lemma_compile_template_draws_fresh_ids(roots.drop_last(), props, next_uid, specs, nodes);
        let p = compile_template(roots.drop_last(), props, next_uid, specs, nodes)->0;
        lemma_walk_draws_fresh_ids(root_state(roots.last(), p), props, p.nodes.len());
    }
}

/// Compiling a manifest's templates draws every id from one counter: where
/// every spec so far is filed under its own id below the counter, so is
/// every spec afterwards, the counter never goes back, and no spec filed
/// before is replaced. So no two specs share an id, and starting from no
/// specs, every spec the compilation files is filed under its own id.
pub proof fn lemma_compile_draws_fresh_ids(
    comps: Seq<ComponentDefinition>,
    next_uid: usize,
    specs: Map<usize, ExpressionSpecView>,
    nodes: Map<Seq<char>, TemplateNodeView>,
)
    requires
        compile_components(comps, next_uid, specs, nodes) is Some,
        filed_below(specs, next_uid),
    ensures
        ({
            let r = compile_components(comps, next_uid, specs, nodes)->0;
            &&& next_uid <= r.next_uid
            &&& filed_below(r.specs, r.next_uid)
            &&& keeps_specs(specs, r.specs)
        }),
    decreases comps.len(),
{
    if comps.len() > 0 {
        lemma_compile_draws_fresh_ids(comps.drop_last(), next_uid, specs, nodes);
        let p = compile_components(comps.drop_last(), next_uid, specs, nodes)->0;
        match template_view(comps.last().template) {
            None => {},
            Some(t) => {
                lemma_compile_template_draws_fresh_ids(
                    t,
                    properties_view(comps.last().property_definitions@),
                    p.next_uid,
                    p.specs,
                    p.nodes,
                );
            },
        }
    }
}

/// Compiling the top-level nodes `a + b` of a template is compiling `a`,
/// then `b` from the id counter, specs and node map that `a` left.
pub proof fn lemma_compile_template_in_turn(
    a: Seq<TemplateNodeView>,
    b: Seq<TemplateNodeView>,
    props: Seq<PropertyDefinitionView>,
    next_uid: usize,
    specs: Map<usize, ExpressionSpecView>,
    nodes: Map<Seq<char>, TemplateNodeView>,
)
    ensures
        compile_template(a + b, props, next_uid, specs, nodes) == match compile_template(
            a,
            props,
            next_uid,
            specs,
            nodes,
        ) {
            None => None,
            Some(p) => match compile_template(b, props, p.next_uid, p.specs, p.nodes) {
                None => None,
                Some(q) => Some(
                    CompiledRoots {
                        roots: p.roots + q.roots,
                        next_uid: q.next_uid,
                        specs: q.specs,
                        nodes: q.nodes,
                    },
                ),
            },
        },
    decreases b.len(),
{
    if b.len() == 0 {
        assert(a + b == a);
        if compile_template(a, props, next_uid, specs, nodes) is Some {
            let p = compile_template(a, props, next_uid, specs, nodes)->0;
            assert(p.roots + Seq::<TemplateNodeView>::empty() == p.roots);
        }
    } else {
        lemma_compile_template_in_turn(a, b.drop_last(), props, next_uid, specs, nodes);
        assert((a + b).drop_last() == a + b.drop_last());
        assert((a + b).last() == b.last());
        if compile_template(a, props, next_uid, specs, nodes) is Some {
            let p = compile_template(a, props, next_uid, specs, nodes)->0;
            if compile_template(b.drop_last(), props, p.next_uid, p.specs, p.nodes) is Some {
                let q = compile_template(b.drop_last(), props, p.next_uid, p.specs, p.nodes)->0;
                if visit(root_state(b.last(), q), props, q.nodes.len()) is Some {
                    let r = visit(root_state(b.last(), q), props, q.nodes.len())->0;
                    assert((p.roots + q.roots).push(r.active) == p.roots + q.roots.push(r.active));
                }
            }
        }
    }
}

/// Compiling a single top-level node is one walk from it at stack offset 0.
pub proof fn lemma_compile_template_single(
    root: TemplateNodeView,
    props: Seq<PropertyDefinitionView>,
    next_uid: usize,
    specs: Map<usize, ExpressionSpecView>,
    nodes: Map<Seq<char>, TemplateNodeView>,
)
    ensures
        compile_template(seq![root], props, next_uid, specs, nodes) == match visit(
            TraversalState { active: root, stack_offset: 0, next_uid, specs, nodes },
            props,
            nodes.len(),
        ) {
            None => None,
            Some(r) => Some(
                CompiledRoots {
                    roots: seq![r.active],
                    next_uid: r.next_uid,
                    specs: r.specs,
                    nodes: r.nodes,
                },
            ),
        },
{
    assert(seq![root].drop_last() =~= Seq::<TemplateNodeView>::empty());
    assert(seq![root].last() == root);
    let p0 = CompiledRoots { roots: Seq::empty(), next_uid, specs, nodes };
    assert(compile_template(Seq::<TemplateNodeView>::empty(), props, next_uid, specs, nodes) == Some(p0));
    assert(root_state(root, p0) == TraversalState { active: root, stack_offset: 0, next_uid, specs, nodes });
    assert(compile_template(seq![root], props, next_uid, specs, nodes) == match visit(root_state(root, p0), props, nodes.len()) {
        None => None,
        Some(r) => Some(CompiledRoots { roots: p0.roots.push(r.active), next_uid: r.next_uid, specs: r.specs, nodes: r.nodes }),
    });
    if visit(
        TraversalState { active: root, stack_offset: 0, next_uid, specs, nodes },
        props,
        nodes.len(),
    ) is Some {
        let r = visit(
            TraversalState { active: root, stack_offset: 0, next_uid, specs, nodes },
            props,
            nodes.len(),
        )->0;
        assert(Seq::<TemplateNodeView>::empty().push(r.active) =~= seq![r.active]);
    }
}

/// Compiling the components `a + b` is compiling `a`, then `b` from the id
/// counter, specs and node map that `a` left.
pub proof fn lemma_compile_components_in_turn(
    a: Seq<ComponentDefinition>,
    b: Seq<ComponentDefinition>,
    next_uid: usize,
    specs: Map<usize, ExpressionSpecView>,
    nodes: Map<Seq<char>, TemplateNodeView>,
)
    ensures
        compile_components(a + b, next_uid, specs, nodes) == match compile_components(
            a,
            next_uid,
            specs,
            nodes,
        ) {
            None => None,
            Some(p) => match compile_components(b, p.next_uid, p.specs, p.nodes) {
                None => None,
                Some(q) => Some(
                    CompiledTemplates {
                        templates: p.templates + q.templates,
                        next_uid: q.next_uid,
                        specs: q.specs,
                        nodes: q.nodes,
                    },
                ),
            },
        },
    decreases b.len(),
{
    if b.len() == 0 {
        assert(a + b == a);
        if compile_components(a, next_uid, specs, nodes) is Some {
            let p = compile_components(a, next_uid, specs, nodes)->0;
            assert(p.templates + Seq::<Option<Seq<TemplateNodeView>>>::empty() == p.templates);
        }
    } else {
        lemma_compile_components_in_turn(a, b.drop_last(), next_uid, specs, nodes);
        assert((a + b).drop_last() == a + b.drop_last());
        assert((a + b).last() == b.last());
        if compile_components(a, next_uid, specs, nodes) is Some {
            let p = compile_components(a, next_uid, specs, nodes)->0;
            if compile_components(b.drop_last(), p.next_uid, p.specs, p.nodes) is Some {
                let q = compile_components(b.drop_last(), p.next_uid, p.specs, p.nodes)->0;
                assert((p.templates + q.templates).push(None) == p.templates + q.templates.push(None));
                match template_view(b.last().template) {
                    None => {},
                    Some(t) => {
                        let props = properties_view(b.last().property_definitions@);
                        if compile_template(t, props, q.next_uid, q.specs, q.nodes) is Some {
                            let r = compile_template(t, props, q.next_uid, q.specs, q.nodes)->0;
                            assert((p.templates + q.templates).push(Some(r.roots)) == p.templates
                                + q.templates.push(Some(r.roots)));
                        }
                    },
                }
            }
        }
    }
}

/// Compiling a single component compiles its template, if it has one, from
/// the given id counter, specs and node map.
pub proof fn lemma_compile_components_single(
    c: ComponentDefinition,
    next_uid: usize,
    specs: Map<usize, ExpressionSpecView>,
    nodes: Map<Seq<char>, TemplateNodeView>,
)
    ensures
        compile_components(seq![c], next_uid, specs, nodes) == match template_view(c.template) {
            None => Some(
                CompiledTemplates { templates: seq![None], next_uid, specs, nodes },
            ),
            Some(t) => match compile_template(
                t,
                properties_view(c.property_definitions@),
                next_uid,
                specs,
                nodes,
            ) {
                None => None,
                Some(r) => Some(
                    CompiledTemplates {
                        templates: seq![Some(r.roots)],
                        next_uid: r.next_uid,
                        specs: r.specs,
                        nodes: r.nodes,
                    },
                ),
            },
        },
{
    assert(seq![c].drop_last() =~= Seq::<ComponentDefinition>::empty());
    assert(seq![c].last() == c);
    let p0 = CompiledTemplates { templates: Seq::empty(), next_uid, specs, nodes };
    assert(compile_components(Seq::<ComponentDefinition>::empty(), next_uid, specs, nodes) == Some(p0));
    assert(Seq::<Option<Seq<TemplateNodeView>>>::empty().push(None) =~= seq![None]);
    match template_view(c.template) {
        None => {},
        Some(t) => {
            let props = properties_view(c.property_definitions@);
            if compile_template(t, props, next_uid, specs, nodes) is Some {
                let r = compile_template(t, props, next_uid, specs, nodes)->0;
                assert(Seq::<Option<Seq<TemplateNodeView>>>::empty().push(Some(r.roots)) =~= seq![
                    Some(r.roots),
                ]);
            }
        },
    }
}

/// Compiling a template files the spec of every identifier binding of each
/// compiled top-level node under the vtable id that the binding carries, and
/// later top-level nodes keep it there.
pub proof fn lemma_compile_template_files_identifier_specs(
    roots: Seq<TemplateNodeView>,
    props: Seq<PropertyDefinitionView>,
    next_uid: usize,
    specs: Map<usize, ExpressionSpecView>,
    nodes: Map<Seq<char>, TemplateNodeView>,
)
    requires
        compile_template(roots, props, next_uid, specs, nodes) is Some,
        filed_below(specs, next_uid),
    ensures
        ({
            let r = compile_template(roots, props, next_uid, specs, nodes)->0;
            forall|j: int| 0 <= j < r.roots.len() ==> node_specs_filed(#[trigger] r.roots[j], props, r.specs)
        }),
    decreases roots.len(),
{
    if roots.len() > 0 {
        let prefix = roots.drop_last();
        lemma_compile_template_files_identifier_specs(prefix, props, next_uid, specs, nodes);
        lemma_compile_template_draws_fresh_ids(prefix, props, next_uid, specs, nodes);
        let p = compile_template(prefix, props, next_uid, specs, nodes)->0;
        let st = root_state(roots.last(), p);
        lemma_walk_draws_fresh_ids(st, props, p.nodes.len());
        lemma_walk_files_identifier_specs(st, props, p.nodes.len());
        let w = visit(st, props, p.nodes.len())->0;
        let r = compile_template(roots, props, next_uid, specs, nodes)->0;
        assert forall|j: int| 0 <= j < r.roots.len() implies node_specs_filed(
            #[trigger] r.roots[j],
            props,
            r.specs,
        ) by {
            if j < p.roots.len() {
                assert(r.roots[j] == p.roots[j]);
                lemma_node_specs_filed_kept(p.roots[j], props, p.specs, w.specs);
            }
        }
    }
}

/// Compiling a manifest's components files the spec of every identifier
/// binding of each compiled top-level node under the vtable id that the
/// binding carries, for the properties of that node's component.
pub proof fn lemma_compile_components_files_identifier_specs(
    comps: Seq<ComponentDefinition>,
    next_uid: usize,
    specs: Map<usize, ExpressionSpecView>,
    nodes: Map<Seq<char>, TemplateNodeView>,
)
    requires
        compile_components(comps, next_uid, specs, nodes) is Some,
        filed_below(specs, next_uid),
    ensures
        ({
            let r = compile_components(comps, next_uid, specs, nodes)->0;
            forall|i: int, j: int|
                0 <= i < comps.len() && r.templates[i] is Some && 0 <= j < r.templates[i]->0.len()
                    ==> #[trigger] node_specs_filed(
                    r.templates[i]->0[j],
                    properties_view(comps[i].property_definitions@),
                    r.specs,
                )
        }),
    decreases comps.len(),
{
    if comps.len() > 0 {
        let prefix = comps.drop_last();
        lemma_compile_components_files_identifier_specs(prefix, next_uid, specs, nodes);
        lemma_compile_draws_fresh_ids(prefix, next_uid, specs, nodes);
        lemma_compile_components_keeps_shape(comps, next_uid, specs, nodes);
        lemma_compile_components_keeps_shape(prefix, next_uid, specs, nodes);
        let p = compile_components(prefix, next_uid, specs, nodes)->0;
        let r = compile_components(comps, next_uid, specs, nodes)->0;
        let c = comps.last();
        let props = properties_view(c.property_definitions@);
        match template_view(c.template) {
            None => {},
            Some(t) => {
                lemma_compile_template_files_identifier_specs(t, props, p.next_uid, p.specs, p.nodes);
                lemma_compile_template_draws_fresh_ids(t, props, p.next_uid, p.specs, p.nodes);
            },
        }
        assert forall|i: int, j: int|
            0 <= i < comps.len() && r.templates[i] is Some && 0 <= j < r.templates[i]->0.len()
                implies #[trigger] node_specs_filed(
            r.templates[i]->0[j],
            properties_view(comps[i].property_definitions@),
            r.specs,
        ) by {
            if i < prefix.len() {
                assert(r.templates[i] == p.templates[i]);
                assert(comps[i] == prefix[i]);
                let t = r.templates[i]->0;
                lemma_node_specs_filed_kept(
                    t[j],
                    properties_view(comps[i].property_definitions@),
                    p.specs,
                    r.specs,
                );
            }
        }
    }
}

/// Two component lists that agree on what compiling their templates reads.
pub open spec fn agree_for_compile(a: Seq<ComponentDefinition>, b: Seq<ComponentDefinition>) -> bool {
    &&& a.len() == b.len()
    &&& forall|i: int|
        0 <= i < a.len() ==> template_view(#[trigger] a[i].template) == template_view(b[i].template)
            && properties_view(a[i].property_definitions@) == properties_view(
            b[i].property_definitions@,
        )
}

proof fn lemma_compile_reads_templates_and_properties(
    a: Seq<ComponentDefinition>,
    b: Seq<ComponentDefinition>,
    next_uid: usize,
    specs: Map<usize, ExpressionSpecView>,
    nodes: Map<Seq<char>, TemplateNodeView>,
)
    requires
        agree_for_compile(a, b),
    ensures
        compile_components(a, next_uid, specs, nodes) == compile_components(b, next_uid, specs, nodes),
    decreases a.len(),
{
    if a.len() > 0 {
        assert(agree_for_compile(a.drop_last(), b.drop_last()));
        lemma_compile_reads_templates_and_properties(a.drop_last(), b.drop_last(), next_uid, specs, nodes);
        assert(template_view(a.last().template) == template_view(b.last().template));
    }
}

/// What `compile_all_expressions` leaves in `after`, for the manifest `before`.
pub open spec fn compiled_manifest(before: PaxManifest, after: PaxManifest) -> bool {
    let r = compile_manifest(before)->0;
    &&& after.components@.len() == before.components@.len()
    &&& forall|i: int|
        0 <= i < before.components@.len() ==> same_but_template(
            #[trigger] after.components@[i],
            before.components@[i],
        ) && template_view(after.components@[i].template) == r.templates[i]
    &&& after.root_component_id == before.root_component_id
    &&& after.expression_specs matches Some(m) && specs_view(m@) == r.specs
    &&& after.template_node_definitions@ == r.nodes
}

impl PaxManifest {
    /// Whether `compile_all_expressions` can run on this manifest: it cannot
    /// where an identifier binding names no property of its component, a
    /// child id has no node, ids run out, or the stack offset would
    /// overflow.
    pub fn can_compile_all_expressions(&self) -> (r: bool)
        ensures
            r == compile_manifest(*self) is Some,
    {
        let mut components: Vec<ComponentDefinition> = Vec::new();
        let mut i: usize = 0;
        while i < self.components.len()
            invariant
                i <= self.components@.len(),
                agree_for_compile(components@, self.components@.take(i as int)),
            decreases self.components@.len() - i,
        {
            let c = self.components[i].clone();
            proof {
                let o = self.components@[i as int];
                assert(c@.template == o@.template);
                assert(template_view(c.template) == template_view(o.template));
            }
            components.push(c);
            i = i + 1;
        }
        assert(self.components@.take(self.components@.len() as int) == self.components@);
        let mut copy = PaxManifest {
            components,
            root_component_id: String::new(),
            expression_specs: None,
            template_node_definitions: self.template_node_definitions.clone(),
        };
        proof {
            lemma_compile_reads_templates_and_properties(
                copy.components@,
                self.components@,
                0,
                Map::empty(),
                self.template_node_definitions@,
            );
        }
        copy.try_compile_all_expressions()
    }

    /// Compiles the inline attributes of every node reachable from the
    /// components' templates in place (see `compile_components`), drawing
    /// ids from one counter that starts at 0, replaces each component's
    /// template by its compiled form, and sets the manifest's expression
    /// specs to those compiled, each filed under its own id.
    pub fn compile_all_expressions(&mut self)
        requires
            compile_manifest(*old(self)) is Some,
        ensures
            compiled_manifest(*old(self), *final(self)),
            final(self).expression_specs matches Some(m) && forall|k: usize| #[trigger]
                m@.contains_key(k) ==> m@[k].id == k,
            final(self).template_node_definitions@.dom() == old(self).template_node_definitions@.dom(),
            final(self).expression_specs matches Some(m) && forall|i: int, j: int|
                0 <= i < final(self).components@.len() && final(self).components@[i].template is Some
                    && 0 <= j < final(self).components@[i].template->0@.len()
                    ==> #[trigger] node_specs_filed(
                    final(self).components@[i].template->0@[j]@,
                    properties_view(final(self).components@[i].property_definitions@),
                    specs_view(m@),
                ),
    {
        proof {
            lemma_compile_components_files_identifier_specs(
                old(self).components@,
                0,
                Map::empty(),
                old(self).template_node_definitions@,
            );
            lemma_compile_draws_fresh_ids(
                old(self).components@,
                0,
                Map::empty(),
                old(self).template_node_definitions@,
            );
            lemma_compile_components_keeps_shape(
                old(self).components@,
                0,
                Map::empty(),
                old(self).template_node_definitions@,
            );
        }
        let ok = self.try_compile_all_expressions();
        assert(ok);
        proof {
            let m = self.expression_specs->0;
            let r = compile_manifest(*old(self))->0;
            assert forall|i: int, j: int|
                0 <= i < self.components@.len() && self.components@[i].template is Some
                    && 0 <= j < self.components@[i].template->0@.len()
                    implies #[trigger] node_specs_filed(
                    self.components@[i].template->0@[j]@,
                    properties_view(self.components@[i].property_definitions@),
                    specs_view(m@),
                ) by {
                assert(same_but_template(self.components@[i], old(self).components@[i]));
                assert(template_view(self.components@[i].template) == r.templates[i]);
                assert(r.templates[i]->0[j] == self.components@[i].template->0@[j]@);
                assert(node_specs_filed(
                    r.templates[i]->0[j],
                    properties_view(old(self).components@[i].property_definitions@),
                    r.specs,
                ));
            }
            assert forall|k: usize| #[trigger] m@.contains_key(k) implies m@[k].id == k by {
                assert(specs_view(m@).contains_key(k));
            }
        }
    }

    /// The compilation of `compile_all_expressions`, which returns whether it
    /// succeeded; where it does not, the manifest is left in no stated state.
    #[verifier::loop_isolation(false)]
    fn try_compile_all_expressions(&mut self) -> (ok: bool)
        ensures
            ok == compile_manifest(*old(self)) is Some,
            ok ==> compiled_manifest(*old(self), *final(self)),
    {
        let ghost comps0 = self.components@;
        let ghost nodes0 = self.template_node_definitions@;
        let ghost n = comps0.len();
        let mut rest: Vec<ComponentDefinition> = Vec::new();
        std::mem::swap(&mut rest, &mut self.components);
        let mut nodes = TemplateNodeMap::new();
        std::mem::swap(&mut nodes, &mut self.template_node_definitions);
        let mut specs: HashMap<usize, ExpressionSpec> = HashMap::new();
        let mut uid: usize = 0;
        let mut done: Vec<ComponentDefinition> = Vec::new();
        proof {
            assert(comps0.take(0) =~= Seq::<ComponentDefinition>::empty());
            assert(specs_view(specs@) =~= Map::<usize, ExpressionSpecView>::empty());
            assert(done@.map_values(|c: ComponentDefinition| template_view(c.template))
                =~= Seq::<Option<Seq<TemplateNodeView>>>::empty());
        }
        while rest.len() > 0
            invariant
                n == comps0.len(),
                done@.len() + rest@.len() == n,
                rest@ == comps0.subrange(done@.len() as int, n as int),
                compile_components(comps0.take(done@.len() as int), 0, Map::empty(), nodes0)
                    == Some(
                    CompiledTemplates {
                        templates: done@.map_values(
                            |c: ComponentDefinition| template_view(c.template),
                        ),
                        next_uid: uid,
                        specs: specs_view(specs@),
                        nodes: nodes@,
                    },
                ),
                forall|j: int|
                    0 <= j < done@.len() ==> same_but_template(#[trigger] done@[j], comps0[j]),
            decreases rest@.len(),
        {
            let ghost k = done@.len() as int;
            let ghost prev_done = done@;
            proof {
                assert(comps0.take(k + 1).drop_last() == comps0.take(k));
                assert(comps0.take(k + 1).last() == comps0[k]);
            }
            let mut comp = rest.remove(0);
            let ghost props = properties_view(comp.property_definitions@);
            let template = comp.template.take();
            match template {
                None => {},
                Some(mut pending) => {
                    let ghost roots = nodes_view(pending@);
                    let ghost uid_k = uid;
                    let ghost specs_k = specs_view(specs@);
                    let ghost nodes_k = nodes@;
                    let mut compiled: Vec<TemplateNodeDefinition> = Vec::new();
                    proof {
                        assert(roots.take(0) =~= Seq::<TemplateNodeView>::empty());
                        assert(nodes_view(compiled@) =~= Seq::<TemplateNodeView>::empty());
                    }
                    while pending.len() > 0
                        invariant
                            compiled@.len() + pending@.len() == roots.len(),
                            nodes_view(pending@) == roots.subrange(
                                compiled@.len() as int,
                                roots.len() as int,
                            ),
                            compile_template(
                                roots.take(compiled@.len() as int),
                                props,
                                uid_k,
                                specs_k,
                                nodes_k,
                            ) == Some(
                                CompiledRoots {
                                    roots: nodes_view(compiled@),
                                    next_uid: uid,
                                    specs: specs_view(specs@),
                                    nodes: nodes@,
                                },
                            ),
                            props == properties_view(comp.property_definitions@),
                            comp.template is None,
                        decreases pending@.len(),
                    {
                        let ghost m = compiled@.len() as int;
                        let ghost prev_compiled = compiled@;
                        let ghost p = CompiledRoots {
                            roots: nodes_view(compiled@),
                            next_uid: uid,
                            specs: specs_view(specs@),
                            nodes: nodes@,
                        };
                        proof {
                            assert(roots.take(m + 1).drop_last() == roots.take(m));
                            assert(roots.take(m + 1).last() == roots[m]);
                            assert(nodes_view(pending@)[0] == roots[m]);
                        }
                        let ghost pp = pending@;
                        let node = pending.remove(0);
                        proof {
                            assert(pending@ =~= pp.subrange(1, pp.len() as int));
                        }
                        let ctx = TemplateTraversalContext {
                            active_node_def: node,
                            component_def: &comp,
                            stack_offset: 0,
                            uid_gen: uid,
                            expression_specs: specs,
                            template_node_definitions: nodes,
                        };
                        assert(ctx.state() == root_state(roots[m], p));
                        let ctx = match try_recurse_template(ctx) {
                            Some(c) => c,
                            None => {
                                proof {
                                    assert(compile_template(roots.take(m + 1), props, uid_k, specs_k, nodes_k) is None);
                                    if compile_template(roots, props, uid_k, specs_k, nodes_k) is Some {
                                        lemma_template_prefix(roots, props, uid_k, specs_k, nodes_k, m + 1);
                                    }
                                    assert(compile_components(comps0.take(k + 1), 0, Map::empty(), nodes0) is None);
                                    if compile_components(comps0, 0, Map::empty(), nodes0) is Some {
                                        lemma_components_prefix(comps0, 0, Map::empty(), nodes0, k + 1);
                                    }
                                }
                                return false;
                            },
                        };
                        compiled.push(ctx.active_node_def);
                        uid = ctx.uid_gen;
                        specs = ctx.expression_specs;
                        nodes = ctx.template_node_definitions;
                        proof {
                            assert(nodes_view(compiled@) =~= nodes_view(prev_compiled).push(
                                compiled@.last()@,
                            ));
                            let rest_roots = roots.subrange(m + 1, roots.len() as int);
                            assert(nodes_view(pp) == roots.subrange(m, roots.len() as int));
                            assert forall|j: int| 0 <= j < pending@.len() implies nodes_view(
                                pending@,
                            )[j] == rest_roots[j] by {
                                assert(nodes_view(pp)[j + 1] == pp[j + 1]@);
                                assert(pending@[j] == pp[j + 1]);
                            }
                            assert(nodes_view(pending@) =~= rest_roots);
                        }
                    }
                    proof {
                        assert(roots.take(roots.len() as int) == roots);
                    }
                    comp.template = Some(compiled);
                },
            }
            done.push(comp);
            proof {
                assert(same_but_template(done@[k], comps0[k]));
                assert(done@.map_values(|c: ComponentDefinition| template_view(c.template))
                    =~= prev_done.map_values(|c: ComponentDefinition| template_view(c.template)).push(
                    template_view(comp.template),
                ));
                assert(rest@ =~= comps0.subrange(k + 1, n as int));
            }
        }
        proof {
            assert(comps0.take(n as int) == comps0);
        }
        self.components = done;
        self.expression_specs = Some(specs);
        self.template_node_definitions = nodes;
        true
    }
}

} // verus!
