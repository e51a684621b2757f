//! Properties of the library as a whole, proved over the contracts of its
//! functions.

use vstd::prelude::*;
use crate::cst::{
    child_of_type, children_any, first_of_type, lemma_first_of_type, probe_holds, spec_body_block,
    spec_body_class, spec_is_trivial_stmt, spec_label, subtree_any, text_or_empty, CstNode, Probe,
};
use crate::facts::{spec_node_facts, FactsView};
use crate::plugin::{spec_detect_language, spec_grammar_id, spec_language_ids};
use crate::syntax::{
    first_child_kind, named_cst_children, prefix_of, spec_cst, spec_leaf_text, CstView,
    GrammarView, MAX_LEAF_CHARS,
};
use crate::text::decimal;
use crate::semantic::{
    child_id, child_context, convert_spec, converted_children, is_definition, NodeHashes,
    SemanticView,
};
use crate::vocab::{semantic_types, spec_is_method_def, spec_is_semantic};

verus! {

/// `p` holds of `v` and of every node below it.
pub open spec fn all_nodes(v: SemanticView, p: spec_fn(SemanticView) -> bool) -> bool
    decreases v, 1nat,
{
    p(v) && all_in(v.children, p, v.children.len() as int)
}

/// `all_nodes` holds of each of the first `k` trees of `vs`.
pub open spec fn all_in(vs: Seq<SemanticView>, p: spec_fn(SemanticView) -> bool, k: int) -> bool
    decreases vs, k,
{
    if k <= 0 || k > vs.len() {
        true
    } else {
        all_in(vs, p, k - 1) && all_nodes(vs[k - 1], p)
    }
}

proof fn lemma_all_in_push(vs: Seq<SemanticView>, x: SemanticView, p: spec_fn(SemanticView) -> bool, k: int)
    requires
        0 <= k <= vs.len(),
    ensures
        all_in(vs.push(x), p, k) == all_in(vs, p, k),
    decreases k,
{
    if k > 0 {
        lemma_all_in_push(vs, x, p, k - 1);
        assert(vs.push(x)[k - 1] == vs[k - 1]);
    }
}

proof fn lemma_all_nodes_weaken(
    v: SemanticView,
    p: spec_fn(SemanticView) -> bool,
    q: spec_fn(SemanticView) -> bool,
)
    requires
        all_nodes(v, p),
        forall|x: SemanticView| #[trigger] p(x) ==> q(x),
    ensures
        all_nodes(v, q),
    decreases v, 1nat,
{
    lemma_all_in_weaken(v.children, p, q, v.children.len() as int);
}

proof fn lemma_all_in_weaken(
    vs: Seq<SemanticView>,
    p: spec_fn(SemanticView) -> bool,
    q: spec_fn(SemanticView) -> bool,
    k: int,
)
    requires
        all_in(vs, p, k),
        forall|x: SemanticView| #[trigger] p(x) ==> q(x),
    ensures
        all_in(vs, q, k),
    decreases vs, k,
{
    if 0 < k <= vs.len() {
        lemma_all_in_weaken(vs, p, q, k - 1);
        lemma_all_nodes_weaken(vs[k - 1], p, q);
    }
}

/// What every node of a converted tree satisfies on its own: it carries facts
/// exactly when it is a function or class definition, an enclosing class
/// only when it is a function definition, and it is semantic or has children.
pub open spec fn node_shape_ok(v: SemanticView) -> bool {
    &&& (v.facts is Some <==> is_definition(v.node_type))
    &&& (v.parent_type is Some ==> spec_is_method_def(v.node_type))
    &&& (spec_is_semantic(v.node_type) || v.children.len() > 0)
}

proof fn lemma_convert_shape(n: CstNode, h: NodeHashes, prefix: Seq<char>, parent: Option<Seq<char>>)
    ensures
        convert_spec(n, h, prefix, parent) matches Some(v) ==> all_nodes(
            v,
            |x: SemanticView| node_shape_ok(x),
        ),
    decreases n, 1nat,
{
    let ctx = child_context(n, parent);
    lemma_children_shape(n.children@, h.children@, prefix, ctx, n.children@.len() as int);
}

proof fn lemma_children_shape(
    cs: Seq<CstNode>,
    hs: Seq<NodeHashes>,
    prefix: Seq<char>,
    ctx: Option<Seq<char>>,
    k: int,
)
    ensures
        ({
            let vs = converted_children(cs, hs, prefix, ctx, k);
            all_in(vs, |x: SemanticView| node_shape_ok(x), vs.len() as int)
        }),
    decreases cs, k,
{
    if 0 < k <= cs.len() {
        let rest = converted_children(cs, hs, prefix, ctx, k - 1);
        lemma_children_shape(cs, hs, prefix, ctx, k - 1);
        lemma_convert_shape(cs[k - 1], hs[k - 1], child_id(prefix, k - 1), ctx);
        if let Some(v) = convert_spec(cs[k - 1], hs[k - 1], child_id(prefix, k - 1), ctx) {
            lemma_all_in_push(rest, v, |x: SemanticView| node_shape_ok(x), rest.len() as int);
        }
    }
}

/// In a semantic tree, every node carries facts exactly when it is a function
/// or class definition, carries an enclosing class only when it is a function
/// definition, and is of a semantic type or has children: nodes that are
/// neither semantic nor above a semantic node are pruned.
pub proof fn law_semantic_tree_shape(
    n: CstNode,
    h: NodeHashes,
    prefix: Seq<char>,
    parent: Option<Seq<char>>,
)
    ensures
        convert_spec(n, h, prefix, parent) matches Some(v) ==> {
            &&& all_nodes(v, |x: SemanticView| x.facts is Some <==> is_definition(x.node_type))
            &&& all_nodes(
                v,
                |x: SemanticView| x.parent_type is Some ==> spec_is_method_def(x.node_type),
            )
            &&& all_nodes(
                v,
                |x: SemanticView| spec_is_semantic(x.node_type) || x.children.len() > 0,
            )
        },
{
    lemma_convert_shape(n, h, prefix, parent);
    if let Some(v) = convert_spec(n, h, prefix, parent) {
        let p = |x: SemanticView| node_shape_ok(x);
        lemma_all_nodes_weaken(v, p, |x: SemanticView| x.facts is Some <==> is_definition(x.node_type));
        lemma_all_nodes_weaken(
            v,
            p,
            |x: SemanticView| x.parent_type is Some ==> spec_is_method_def(x.node_type),
        );
        lemma_all_nodes_weaken(
            v,
            p,
            |x: SemanticView| spec_is_semantic(x.node_type) || x.children.len() > 0,
        );
    }
}

/// Facts hold only counts, flags and words from a fixed vocabulary: the body
/// is `empty`, `stub` or `substantive`, the return kind `value` or `none`,
/// and the flags are set only to `true`.
pub open spec fn facts_in_vocabulary(f: FactsView) -> bool {
    &&& (f.body matches Some(b) ==> b == "empty"@ || b == "stub"@ || b == "substantive"@)
    &&& (f.returns matches Some(r) ==> r == "value"@ || r == "none"@)
    &&& (f.is_async matches Some(a) ==> a)
    &&& (f.is_generator matches Some(g) ==> g)
}

/// The facts of any node hold no source text: only counts, flags and words
/// from a fixed vocabulary.
pub proof fn law_facts_in_vocabulary(n: CstNode)
    ensures
        facts_in_vocabulary(spec_node_facts(n)),
{
}

/// `def f()` and `async def f()` never give the same node type: a grammar
/// `function_definition` whose first child is the `async` keyword becomes
/// an `async_function_def` node of the syntax tree, one whose first child is
/// anything else stays a `function_definition`, and an `async_function_def`
/// node always reports `is_async`.
pub proof fn law_async_definitions_differ(g: GrammarView, source: Seq<u8>, n: CstNode)
    ensures
        g.kind == "function_definition"@ && first_child_kind(g) == Some("async"@) ==> spec_cst(
            g,
            source,
        ).node_type == "async_function_def"@,
        g.kind == "function_definition"@ && first_child_kind(g) != Some("async"@) ==> spec_cst(
            g,
            source,
        ).node_type == "function_definition"@,
        "async_function_def"@ != "function_definition"@,
        n.node_type@ == "async_function_def"@ ==> spec_node_facts(n).is_async == Some(true),
{
    reveal_strlit("async_function_def");
    reveal_strlit("function_definition");
    assert("async_function_def"@.len() != "function_definition"@.len());
}

/// Text is kept on the leaves of `v` and only there, each at most
/// `MAX_LEAF_CHARS` characters long.
pub open spec fn text_on_leaves(v: CstView) -> bool
    decreases v, 1nat,
{
    &&& (v.text is Some <==> v.children.len() == 0)
    &&& (v.text matches Some(t) ==> t.len() <= MAX_LEAF_CHARS)
    &&& all_text_on_leaves(v.children, v.children.len() as int)
}

/// `text_on_leaves` holds of each of the first `k` trees of `vs`.
pub open spec fn all_text_on_leaves(vs: Seq<CstView>, k: int) -> bool
    decreases vs, k,
{
    if k <= 0 || k > vs.len() {
        true
    } else {
        all_text_on_leaves(vs, k - 1) && text_on_leaves(vs[k - 1])
    }
}

proof fn lemma_all_text_on_leaves_push(vs: Seq<CstView>, x: CstView, k: int)
    requires
        0 <= k <= vs.len(),
    ensures
        all_text_on_leaves(vs.push(x), k) == all_text_on_leaves(vs, k),
    decreases k,
{
    if k > 0 {
        lemma_all_text_on_leaves_push(vs, x, k - 1);
        assert(vs.push(x)[k - 1] == vs[k - 1]);
    }
}

proof fn lemma_named_children_text(cs: Seq<GrammarView>, source: Seq<u8>, k: int)
    ensures
        ({
            let vs = named_cst_children(cs, source, k);
            all_text_on_leaves(vs, vs.len() as int)
        }),
    decreases cs, k,
{
    if 0 < k <= cs.len() {
        let rest = named_cst_children(cs, source, k - 1);
        lemma_named_children_text(cs, source, k - 1);
        if cs[k - 1].named {
            law_text_on_leaves(cs[k - 1], source);
            lemma_all_text_on_leaves_push(rest, spec_cst(cs[k - 1], source), rest.len() as int);
        }
    }
}

/// In the syntax tree of any grammar tree, text sits on the leaves and only
/// there, and no leaf keeps more than `MAX_LEAF_CHARS` characters.
pub proof fn law_text_on_leaves(g: GrammarView, source: Seq<u8>)
    ensures
        text_on_leaves(spec_cst(g, source)),
    decreases g, 1nat,
{
    lemma_named_children_text(g.children, source, g.children.len() as int);
    let t = spec_leaf_text(source, g.start_byte as int, g.end_byte as int);
    if 0 <= g.start_byte <= g.end_byte <= source.len() && vstd::utf8::valid_utf8(
        source.subrange(g.start_byte as int, g.end_byte as int),
    ) {
        let d = vstd::utf8::decode_utf8(source.subrange(g.start_byte as int, g.end_byte as int));
        assert(prefix_of(d, MAX_LEAF_CHARS as nat).len() <= MAX_LEAF_CHARS);
    }
}

/// No-op statements are real body content: `pass`, `break`, `continue` and
/// `...` are semantic, so a body made of them is never pruned away.
pub proof fn law_trivial_statements_are_semantic()
    ensures
        spec_is_semantic("pass_statement"@),
        spec_is_semantic("break_statement"@),
        spec_is_semantic("continue_statement"@),
        spec_is_semantic("ellipsis"@),
{
    assert(semantic_types()[21] == "pass_statement"@);
    assert(semantic_types()[22] == "break_statement"@);
    assert(semantic_types()[23] == "continue_statement"@);
    assert(semantic_types()[24] == "ellipsis"@);
}

/// The language ids of the plugin include its grammar id.
pub proof fn law_language_ids_contain_grammar_id()
    ensures
        spec_language_ids().contains(spec_grammar_id()),
        spec_grammar_id().len() > 0,
{
    reveal_strlit("python");
    assert(spec_language_ids()[0] == spec_grammar_id());
}

/// The language detected for any file is the grammar id or nothing.
pub proof fn law_detected_language_is_grammar_or_none(name: Seq<char>)
    ensures
        spec_detect_language(name) == spec_grammar_id() || spec_detect_language(name).len() == 0,
{
}


/// Some node of the syntax tree `n` is of a semantic type.
pub open spec fn has_semantic(n: CstNode) -> bool
    decreases n, 1nat,
{
    spec_is_semantic(n.node_type@) || children_have_semantic(
        n.children@,
        n.children@.len() as int,
    )
}

/// Some node of one of the first `k` trees of `cs` is of a semantic type.
pub open spec fn children_have_semantic(cs: Seq<CstNode>, k: int) -> bool
    decreases cs, k,
{
    if k <= 0 || k > cs.len() {
        false
    } else {
        children_have_semantic(cs, k - 1) || has_semantic(cs[k - 1])
    }
}

proof fn lemma_convert_none(n: CstNode, h: NodeHashes, prefix: Seq<char>, parent: Option<Seq<char>>)
    ensures
        convert_spec(n, h, prefix, parent) is None <==> !has_semantic(n),
    decreases n, 1nat,
{
    lemma_children_none(
        n.children@,
        h.children@,
        prefix,
        child_context(n, parent),
        n.children@.len() as int,
    );
}

proof fn lemma_children_none(
    cs: Seq<CstNode>,
    hs: Seq<NodeHashes>,
    prefix: Seq<char>,
    ctx: Option<Seq<char>>,
    k: int,
)
    ensures
        converted_children(cs, hs, prefix, ctx, k).len() == 0 <==> !children_have_semantic(cs, k),
    decreases cs, k,
{
    if 0 < k <= cs.len() {
        lemma_children_none(cs, hs, prefix, ctx, k - 1);
        lemma_convert_none(cs[k - 1], hs[k - 1], child_id(prefix, k - 1), ctx);
    }
}

/// A syntax tree converts to no semantic tree exactly when none of its nodes
/// is of a semantic type.
pub proof fn law_convert_none_iff_nothing_semantic(
    n: CstNode,
    h: NodeHashes,
    prefix: Seq<char>,
    parent: Option<Seq<char>>,
)
    ensures
        convert_spec(n, h, prefix, parent) is None <==> !has_semantic(n),
{
    lemma_convert_none(n, h, prefix, parent);
}

/// The id of every child below `v` is the id of its parent, a dot, and a
/// decimal index.
pub open spec fn ids_are_paths(v: SemanticView) -> bool
    decreases v, 1nat,
{
    children_ids_are_paths(v.id, v.children, v.children.len() as int)
}

/// Each of the first `k` trees of `vs` has an id made of `parent_id`, a
/// dot and a decimal index, and `ids_are_paths` holds of it.
pub open spec fn children_ids_are_paths(parent_id: Seq<char>, vs: Seq<SemanticView>, k: int) -> bool
    decreases vs, k,
{
    if k <= 0 || k > vs.len() {
        true
    } else {
        &&& children_ids_are_paths(parent_id, vs, k - 1)
        &&& exists|j: nat| vs[k - 1].id == parent_id + "."@ + #[trigger] decimal(j)
        &&& ids_are_paths(vs[k - 1])
    }
}

proof fn lemma_children_ids_push(parent_id: Seq<char>, vs: Seq<SemanticView>, x: SemanticView, k: int)
    requires
        0 <= k <= vs.len(),
    ensures
        children_ids_are_paths(parent_id, vs.push(x), k) == children_ids_are_paths(parent_id, vs, k),
    decreases k,
{
    if k > 0 {
        lemma_children_ids_push(parent_id, vs, x, k - 1);
        assert(vs.push(x)[k - 1] == vs[k - 1]);
    }
}

proof fn lemma_convert_ids(n: CstNode, h: NodeHashes, prefix: Seq<char>, parent: Option<Seq<char>>)
    ensures
        convert_spec(n, h, prefix, parent) matches Some(v) ==> v.id == prefix && ids_are_paths(v),
    decreases n, 1nat,
{
    lemma_children_ids(
        n.children@,
        h.children@,
        prefix,
        child_context(n, parent),
        n.children@.len() as int,
    );
}

proof fn lemma_children_ids(
    cs: Seq<CstNode>,
    hs: Seq<NodeHashes>,
    prefix: Seq<char>,
    ctx: Option<Seq<char>>,
    k: int,
)
    ensures
        ({
            let vs = converted_children(cs, hs, prefix, ctx, k);
            children_ids_are_paths(prefix, vs, vs.len() as int)
        }),
    decreases cs, k,
{
    if 0 < k <= cs.len() {
        let rest = converted_children(cs, hs, prefix, ctx, k - 1);
        lemma_children_ids(cs, hs, prefix, ctx, k - 1);
        lemma_convert_ids(cs[k - 1], hs[k - 1], child_id(prefix, k - 1), ctx);
        if let Some(v) = convert_spec(cs[k - 1], hs[k - 1], child_id(prefix, k - 1), ctx) {
            lemma_children_ids_push(prefix, rest, v, rest.len() as int);
            let j = (k - 1) as nat;
            assert(v.id == prefix + "."@ + decimal(j));
        }
    }
}

/// The id of a semantic tree is the id it was given, and below it every id
/// is its parent's id, a dot, and the index of the node among its parent's
/// children in the syntax tree.
pub proof fn law_ids_are_paths(
    n: CstNode,
    h: NodeHashes,
    prefix: Seq<char>,
    parent: Option<Seq<char>>,
)
    ensures
        convert_spec(n, h, prefix, parent) matches Some(v) ==> v.id == prefix && ids_are_paths(v),
{
    lemma_convert_ids(n, h, prefix, parent);
}

/// Below a node that sees `ctx` as its nearest enclosing class, every
/// function definition carries the label of its nearest enclosing class
/// definition (or `ctx` where there is none) as `parent_type`, and every
/// other node carries none.
pub open spec fn classes_ok(v: SemanticView, ctx: Option<Seq<char>>) -> bool
    decreases v, 1nat,
{
    &&& v.parent_type == (if spec_is_method_def(v.node_type) {
        ctx
    } else {
        None
    })
    &&& children_classes_ok(
        v.children,
        if v.node_type == "class_definition"@ {
            Some(v.label)
        } else {
            ctx
        },
        v.children.len() as int,
    )
}

/// `classes_ok` holds of each of the first `k` trees of `vs`.
pub open spec fn children_classes_ok(vs: Seq<SemanticView>, ctx: Option<Seq<char>>, k: int) -> bool
    decreases vs, k,
{
    if k <= 0 || k > vs.len() {
        true
    } else {
        children_classes_ok(vs, ctx, k - 1) && classes_ok(vs[k - 1], ctx)
    }
}

proof fn lemma_children_classes_push(vs: Seq<SemanticView>, ctx: Option<Seq<char>>, x: SemanticView, k: int)
    requires
        0 <= k <= vs.len(),
    ensures
        children_classes_ok(vs.push(x), ctx, k) == children_classes_ok(vs, ctx, k),
    decreases k,
{
    if k > 0 {
        lemma_children_classes_push(vs, ctx, x, k - 1);
        assert(vs.push(x)[k - 1] == vs[k - 1]);
    }
}

proof fn lemma_convert_classes(n: CstNode, h: NodeHashes, prefix: Seq<char>, parent: Option<Seq<char>>)
    ensures
        convert_spec(n, h, prefix, parent) matches Some(v) ==> classes_ok(v, parent),
    decreases n, 1nat,
{
    lemma_children_classes(
        n.children@,
        h.children@,
        prefix,
        child_context(n, parent),
        n.children@.len() as int,
    );
}

proof fn lemma_children_classes(
    cs: Seq<CstNode>,
    hs: Seq<NodeHashes>,
    prefix: Seq<char>,
    ctx: Option<Seq<char>>,
    k: int,
)
    ensures
        ({
            let vs = converted_children(cs, hs, prefix, ctx, k);
            children_classes_ok(vs, ctx, vs.len() as int)
        }),
    decreases cs, k,
{
    if 0 < k <= cs.len() {
        let rest = converted_children(cs, hs, prefix, ctx, k - 1);
        lemma_children_classes(cs, hs, prefix, ctx, k - 1);
        lemma_convert_classes(cs[k - 1], hs[k - 1], child_id(prefix, k - 1), ctx);
        if let Some(v) = convert_spec(cs[k - 1], hs[k - 1], child_id(prefix, k - 1), ctx) {
            lemma_children_classes_push(rest, ctx, v, rest.len() as int);
        }
    }
}

/// A function definition's `parent_type` is the label of its nearest
/// enclosing class definition (the class name), or the enclosing class given
/// for the root where there is none; every other node has none.
pub proof fn law_parent_type_is_nearest_class(
    n: CstNode,
    h: NodeHashes,
    prefix: Seq<char>,
    parent: Option<Seq<char>>,
)
    ensures
        convert_spec(n, h, prefix, parent) matches Some(v) ==> classes_ok(v, parent),
{
    lemma_convert_classes(n, h, prefix, parent);
}


/// `a` and `b` have the same shape and node types, and wherever they hold an
/// identifier, both or neither spell `NotImplementedError`: they differ at
/// most in source text that the facts never read.
pub open spec fn same_skeleton(a: CstNode, b: CstNode) -> bool
    decreases a, 1nat,
{
    &&& a.node_type@ == b.node_type@
    &&& a.children@.len() == b.children@.len()
    &&& (a.node_type@ == "identifier"@ ==> (text_or_empty(a) == "NotImplementedError"@) == (
    text_or_empty(b) == "NotImplementedError"@))
    &&& children_same_skeleton(a.children@, b.children@, a.children@.len() as int)
}

/// The first `k` trees of `as_` and `bs` have the same skeletons, pairwise.
pub open spec fn children_same_skeleton(as_: Seq<CstNode>, bs: Seq<CstNode>, k: int) -> bool
    decreases as_, k,
{
    if k <= 0 || k > as_.len() || k > bs.len() {
        true
    } else {
        children_same_skeleton(as_, bs, k - 1) && same_skeleton(as_[k - 1], bs[k - 1])
    }
}

proof fn lemma_children_same_skeleton(as_: Seq<CstNode>, bs: Seq<CstNode>, k: int, i: int)
    requires
        children_same_skeleton(as_, bs, k),
        0 <= i < k <= as_.len(),
        k <= bs.len(),
    ensures
        same_skeleton(as_[i], bs[i]),
    decreases k,
{
    if i < k - 1 {
        lemma_children_same_skeleton(as_, bs, k - 1, i);
    }
}

proof fn lemma_skeleton_probe(p: Probe, a: CstNode, b: CstNode)
    requires
        same_skeleton(a, b),
    ensures
        subtree_any(p, a) == subtree_any(p, b),
    decreases a, 1nat,
{
    assert(probe_holds(p, a) == probe_holds(p, b));
    lemma_skeleton_children_probe(p, a.children@, b.children@, a.children@.len() as int);
}

proof fn lemma_skeleton_children_probe(p: Probe, as_: Seq<CstNode>, bs: Seq<CstNode>, k: int)
    requires
        children_same_skeleton(as_, bs, as_.len() as int),
        as_.len() == bs.len(),
        k <= as_.len(),
    ensures
        children_any(p, as_, k) == children_any(p, bs, k),
    decreases as_, k,
{
    if 0 < k {
        lemma_skeleton_children_probe(p, as_, bs, k - 1);
        lemma_children_same_skeleton(as_, bs, as_.len() as int, k - 1);
        lemma_skeleton_probe(p, as_[k - 1], bs[k - 1]);
    }
}

proof fn lemma_skeleton_first_of_type(a: CstNode, b: CstNode, t: Seq<char>, i: int)
    requires
        same_skeleton(a, b),
        0 <= i,
    ensures
        first_of_type(a.children@, t, i) == first_of_type(b.children@, t, i),
    decreases a.children@.len() - i,
{
    if i < a.children@.len() {
        lemma_children_same_skeleton(a.children@, b.children@, a.children@.len() as int, i);
        lemma_skeleton_first_of_type(a, b, t, i + 1);
    }
}

proof fn lemma_skeleton_child_of_type(a: CstNode, b: CstNode, t: Seq<char>)
    requires
        same_skeleton(a, b),
    ensures
        child_of_type_pair(a, b, t),
{
    lemma_skeleton_first_of_type(a, b, t, 0);
    crate::cst::lemma_first_of_type(a.children@, t, 0);
    if let Some(k) = first_of_type(a.children@, t, 0) {
        lemma_children_same_skeleton(a.children@, b.children@, a.children@.len() as int, k);
    }
}

/// The first children of type `t` of `a` and of `b` both exist and have
/// the same skeleton, or neither exists.
pub open spec fn child_of_type_pair(a: CstNode, b: CstNode, t: Seq<char>) -> bool {
    match (crate::cst::child_of_type(a, t), crate::cst::child_of_type(b, t)) {
        (Some(x), Some(y)) => same_skeleton(x, y),
        (None, None) => true,
        _ => false,
    }
}

proof fn lemma_skeleton_trivial(a: CstNode, b: CstNode)
    requires
        same_skeleton(a, b),
    ensures
        spec_is_trivial_stmt(a) == spec_is_trivial_stmt(b),
{
    lemma_skeleton_probe(Probe::NotImplementedName, a, b);
    assert forall|i: int| 0 <= i < a.children@.len() implies #[trigger] a.children@[i].node_type@
        == b.children@[i].node_type@ by {
        lemma_children_same_skeleton(a.children@, b.children@, a.children@.len() as int, i);
    }
    assert forall|i: int| 0 <= i < b.children@.len() implies #[trigger] b.children@[i].node_type@
        == a.children@[i].node_type@ by {
        lemma_children_same_skeleton(a.children@, b.children@, a.children@.len() as int, i);
    }
    if a.node_type@ == "expression_statement"@ {
        assert((forall|i: int|
            0 <= i < a.children@.len() ==> crate::cst::is_inert_expression(
                #[trigger] a.children@[i].node_type@,
            )) == (forall|i: int|
            0 <= i < b.children@.len() ==> crate::cst::is_inert_expression(
                #[trigger] b.children@[i].node_type@,
            )));
    }
}

proof fn lemma_skeleton_body_class(a: CstNode, b: CstNode)
    requires
        same_skeleton(a, b),
    ensures
        spec_body_class(a) == spec_body_class(b),
{
    assert forall|i: int| 0 <= i < a.children@.len() implies spec_is_trivial_stmt(
        #[trigger] a.children@[i],
    ) == spec_is_trivial_stmt(b.children@[i]) by {
        lemma_children_same_skeleton(a.children@, b.children@, a.children@.len() as int, i);
        lemma_skeleton_trivial(a.children@[i], b.children@[i]);
    }
    if a.children@.len() > 0 {
        assert((forall|i: int|
            0 <= i < a.children@.len() ==> spec_is_trivial_stmt(#[trigger] a.children@[i])) == (
        forall|i: int|
            0 <= i < b.children@.len() ==> spec_is_trivial_stmt(#[trigger] b.children@[i]))) by {
            assert forall|i: int| 0 <= i < b.children@.len() implies spec_is_trivial_stmt(
                #[trigger] b.children@[i],
            ) == spec_is_trivial_stmt(a.children@[i]) by {
                lemma_children_same_skeleton(a.children@, b.children@, a.children@.len() as int, i);
                lemma_skeleton_trivial(a.children@[i], b.children@[i]);
            }
        }
    }
}

/// Facts depend on the shape and node types of a definition's subtree
/// alone, and on no source text but whether an identifier spells
/// `NotImplementedError`: two trees that differ only in other text (names,
/// literals) get equal facts.
pub proof fn law_facts_ignore_source_text(a: CstNode, b: CstNode)
    requires
        same_skeleton(a, b),
    ensures
        spec_node_facts(a) == spec_node_facts(b),
{
    lemma_skeleton_child_of_type(a, b, "parameters"@);
    lemma_skeleton_child_of_type(a, b, "block"@);
    if let Some(x) = spec_body_block(a) {
        let y = spec_body_block(b).unwrap();
        lemma_skeleton_body_class(x, y);
        lemma_skeleton_probe(Probe::ValueReturn, x, y);
        lemma_skeleton_probe(Probe::Yield, x, y);
    }
}


/// Some node of the subtree `n`, `n` itself included, satisfies `q`.
pub open spec fn some_node(n: CstNode, q: spec_fn(CstNode) -> bool) -> bool
    decreases n, 1nat,
{
    q(n) || some_child_node(n.children@, q, n.children@.len() as int)
}

/// Some node of one of the first `k` trees of `cs` satisfies `q`.
pub open spec fn some_child_node(cs: Seq<CstNode>, q: spec_fn(CstNode) -> bool, k: int) -> bool
    decreases cs, k,
{
    if k <= 0 || k > cs.len() {
        false
    } else {
        some_child_node(cs, q, k - 1) || some_node(cs[k - 1], q)
    }
}

proof fn lemma_probe_is_some_node(p: Probe, q: spec_fn(CstNode) -> bool, n: CstNode)
    requires
        forall|x: CstNode| probe_holds(p, x) == #[trigger] q(x),
    ensures
        subtree_any(p, n) == some_node(n, q),
    decreases n, 1nat,
{
    lemma_probe_children(p, q, n.children@, n.children@.len() as int);
}

proof fn lemma_probe_children(p: Probe, q: spec_fn(CstNode) -> bool, cs: Seq<CstNode>, k: int)
    requires
        forall|x: CstNode| probe_holds(p, x) == #[trigger] q(x),
    ensures
        children_any(p, cs, k) == some_child_node(cs, q, k),
    decreases cs, k,
{
    if 0 < k <= cs.len() {
        lemma_probe_children(p, q, cs, k - 1);
        lemma_probe_is_some_node(p, q, cs[k - 1]);
    }
}

/// A `yield` node, whatever its children.
pub open spec fn is_yield(x: CstNode) -> bool {
    x.node_type@ == "yield"@
}

/// A `return` statement that hands back a value.
pub open spec fn is_value_return(x: CstNode) -> bool {
    x.node_type@ == "return_statement"@ && x.children@.len() > 0
}

/// An identifier spelled `NotImplementedError`.
pub open spec fn is_not_implemented_name(x: CstNode) -> bool {
    x.node_type@ == "identifier"@ && text_or_empty(x) == "NotImplementedError"@
}

/// The facts of a function definition, stated over its children and the
/// nodes of its body: the parameter count is the number of children of its
/// first `parameters` child; `is_async` is set exactly for `async_function_def`;
/// without a body block the body is `empty` and returns `none`; with one, it
/// returns `value` exactly when some node of the block is a `return`
/// statement with a value, and is a generator exactly when some node of the
/// block is a `yield`, a bare `yield` included.
pub proof fn law_function_facts(n: CstNode)
    requires
        n.node_type@ == "function_definition"@ || n.node_type@ == "async_function_def"@,
    ensures
        spec_node_facts(n).param_count == (match child_of_type(n, "parameters"@) {
            Some(p) => Some(p.children@.len() as u32),
            None => None,
        }),
        spec_node_facts(n).is_async == (if n.node_type@ == "async_function_def"@ {
            Some(true)
        } else {
            None
        }),
        child_of_type(n, "block"@) is None ==> spec_node_facts(n).body == Some("empty"@)
            && spec_node_facts(n).returns == Some("none"@) && spec_node_facts(n).is_generator
            is None,
        child_of_type(n, "block"@) matches Some(b) ==> {
            &&& spec_node_facts(n).body == Some(spec_body_class(b))
            &&& spec_node_facts(n).returns == (if some_node(b, |x: CstNode| is_value_return(x)) {
                Some("value"@)
            } else {
                Some("none"@)
            })
            &&& spec_node_facts(n).is_generator == (if some_node(b, |x: CstNode| is_yield(x)) {
                Some(true)
            } else {
                None
            })
        },
{
    if let Some(b) = child_of_type(n, "block"@) {
        lemma_probe_is_some_node(Probe::ValueReturn, |x: CstNode| is_value_return(x), b);
        lemma_probe_is_some_node(Probe::Yield, |x: CstNode| is_yield(x), b);
    }
}

/// A statement that does nothing, stated over its node type and its subtree:
/// `pass`; an expression statement made only of strings and `...` (a
/// docstring); or a `raise` statement with an identifier spelled
/// `NotImplementedError` anywhere below it, with or without arguments.
pub open spec fn does_nothing(n: CstNode) -> bool {
    ||| n.node_type@ == "pass_statement"@
    ||| n.node_type@ == "expression_statement"@ && n.children@.len() > 0 && forall|i: int|
        0 <= i < n.children@.len() ==> {
            let t = #[trigger] n.children@[i].node_type@;
            t == "string"@ || t == "concatenated_string"@ || t == "ellipsis"@
        }
    ||| n.node_type@ == "raise_statement"@ && some_node(n, |x: CstNode| is_not_implemented_name(x))
}

/// Statement triviality is `does_nothing`, and a body block is `empty`
/// without statements, `stub` when every statement does nothing, and
/// `substantive` otherwise.
pub proof fn law_trivial_statements(n: CstNode, block: CstNode)
    ensures
        spec_is_trivial_stmt(n) == does_nothing(n),
        block.children@.len() == 0 ==> spec_body_class(block) == "empty"@,
        block.children@.len() > 0 && (forall|i: int|
            0 <= i < block.children@.len() ==> does_nothing(#[trigger] block.children@[i]))
            ==> spec_body_class(block) == "stub"@,
        (exists|i: int|
            0 <= i < block.children@.len() && !does_nothing(#[trigger] block.children@[i]))
            ==> spec_body_class(block) == "substantive"@,
{
    lemma_trivial_statement(n);
    assert forall|i: int| 0 <= i < block.children@.len() implies spec_is_trivial_stmt(
        #[trigger] block.children@[i],
    ) == does_nothing(block.children@[i]) by {
        lemma_trivial_statement(block.children@[i]);
    }
}

proof fn lemma_trivial_statement(n: CstNode)
    ensures
        spec_is_trivial_stmt(n) == does_nothing(n),
{
    reveal_strlit("pass_statement");
    reveal_strlit("expression_statement");
    reveal_strlit("raise_statement");
    assert("pass_statement"@.len() == 14);
    assert("expression_statement"@.len() == 20);
    assert("raise_statement"@.len() == 15);
    lemma_probe_is_some_node(
        Probe::NotImplementedName,
        |x: CstNode| is_not_implemented_name(x),
        n,
    );
    if n.node_type@ == "expression_statement"@ {
        assert((forall|i: int|
            0 <= i < n.children@.len() ==> crate::cst::is_inert_expression(
                #[trigger] n.children@[i].node_type@,
            )) == (forall|i: int|
            0 <= i < n.children@.len() ==> {
                let t = #[trigger] n.children@[i].node_type@;
                t == "string"@ || t == "concatenated_string"@ || t == "ellipsis"@
            }));
    }
}

/// Every node type of the original vocabulary is semantic, and no other:
/// statements, definitions, calls, identifiers, literals (`string`,
/// `integer`, `float`, `true`, `false`, `none`), parameters, argument lists
/// and type annotations.
pub proof fn law_semantic_vocabulary(t: Seq<char>)
    ensures
        spec_is_semantic("module"@),
        spec_is_semantic("function_definition"@),
        spec_is_semantic("async_function_def"@),
        spec_is_semantic("class_definition"@),
        spec_is_semantic("decorated_definition"@),
        spec_is_semantic("assignment"@),
        spec_is_semantic("augmented_assignment"@),
        spec_is_semantic("return_statement"@),
        spec_is_semantic("import_statement"@),
        spec_is_semantic("import_from_statement"@),
        spec_is_semantic("if_statement"@),
        spec_is_semantic("elif_clause"@),
        spec_is_semantic("else_clause"@),
        spec_is_semantic("for_statement"@),
        spec_is_semantic("while_statement"@),
        spec_is_semantic("try_statement"@),
        spec_is_semantic("except_clause"@),
        spec_is_semantic("with_statement"@),
        spec_is_semantic("raise_statement"@),
        spec_is_semantic("assert_statement"@),
        spec_is_semantic("delete_statement"@),
        spec_is_semantic("pass_statement"@),
        spec_is_semantic("break_statement"@),
        spec_is_semantic("continue_statement"@),
        spec_is_semantic("ellipsis"@),
        spec_is_semantic("expression_statement"@),
        spec_is_semantic("call"@),
        spec_is_semantic("identifier"@),
        spec_is_semantic("string"@),
        spec_is_semantic("integer"@),
        spec_is_semantic("float"@),
        spec_is_semantic("true"@),
        spec_is_semantic("false"@),
        spec_is_semantic("none"@),
        spec_is_semantic("parameters"@),
        spec_is_semantic("argument_list"@),
        spec_is_semantic("type"@),
        spec_is_semantic("type_annotation"@),
        spec_is_semantic(t) <==> {
        ||| t == "module"@
        ||| t == "function_definition"@
        ||| t == "async_function_def"@
        ||| t == "class_definition"@
        ||| t == "decorated_definition"@
        ||| t == "assignment"@
        ||| t == "augmented_assignment"@
        ||| t == "return_statement"@
        ||| t == "import_statement"@
        ||| t == "import_from_statement"@
        ||| t == "if_statement"@
        ||| t == "elif_clause"@
        ||| t == "else_clause"@
        ||| t == "for_statement"@
        ||| t == "while_statement"@
        ||| t == "try_statement"@
        ||| t == "except_clause"@
        ||| t == "with_statement"@
        ||| t == "raise_statement"@
        ||| t == "assert_statement"@
        ||| t == "delete_statement"@
        ||| t == "pass_statement"@
        ||| t == "break_statement"@
        ||| t == "continue_statement"@
        ||| t == "ellipsis"@
        ||| t == "expression_statement"@
        ||| t == "call"@
        ||| t == "identifier"@
        ||| t == "string"@
        ||| t == "integer"@
        ||| t == "float"@
        ||| t == "true"@
        ||| t == "false"@
        ||| t == "none"@
        ||| t == "parameters"@
        ||| t == "argument_list"@
        ||| t == "type"@
        ||| t == "type_annotation"@
        },
{
    assert(semantic_types()[0] == "module"@);
    assert(semantic_types()[1] == "function_definition"@);
    assert(semantic_types()[2] == "async_function_def"@);
    assert(semantic_types()[3] == "class_definition"@);
    assert(semantic_types()[4] == "decorated_definition"@);
    assert(semantic_types()[5] == "assignment"@);
    assert(semantic_types()[6] == "augmented_assignment"@);
    assert(semantic_types()[7] == "return_statement"@);
    assert(semantic_types()[8] == "import_statement"@);
    assert(semantic_types()[9] == "import_from_statement"@);
    assert(semantic_types()[10] == "if_statement"@);
    assert(semantic_types()[11] == "elif_clause"@);
    assert(semantic_types()[12] == "else_clause"@);
    assert(semantic_types()[13] == "for_statement"@);
    assert(semantic_types()[14] == "while_statement"@);
    assert(semantic_types()[15] == "try_statement"@);
    assert(semantic_types()[16] == "except_clause"@);
    assert(semantic_types()[17] == "with_statement"@);
    assert(semantic_types()[18] == "raise_statement"@);
    assert(semantic_types()[19] == "assert_statement"@);
    assert(semantic_types()[20] == "delete_statement"@);
    assert(semantic_types()[21] == "pass_statement"@);
    assert(semantic_types()[22] == "break_statement"@);
    assert(semantic_types()[23] == "continue_statement"@);
    assert(semantic_types()[24] == "ellipsis"@);
    assert(semantic_types()[25] == "expression_statement"@);
    assert(semantic_types()[26] == "call"@);
    assert(semantic_types()[27] == "identifier"@);
    assert(semantic_types()[28] == "string"@);
    assert(semantic_types()[29] == "integer"@);
    assert(semantic_types()[30] == "float"@);
    assert(semantic_types()[31] == "true"@);
    assert(semantic_types()[32] == "false"@);
    assert(semantic_types()[33] == "none"@);
    assert(semantic_types()[34] == "parameters"@);
    assert(semantic_types()[35] == "argument_list"@);
    assert(semantic_types()[36] == "type"@);
    assert(semantic_types()[37] == "type_annotation"@);
}

/// A node of a semantic type is always kept: it converts to a semantic
/// tree whatever lies below it.
pub proof fn law_semantic_nodes_are_kept(
    n: CstNode,
    h: NodeHashes,
    prefix: Seq<char>,
    parent: Option<Seq<char>>,
)
    requires
        spec_is_semantic(n.node_type@),
    ensures
        convert_spec(n, h, prefix, parent) is Some,
{
    lemma_convert_none(n, h, prefix, parent);
}

/// `l` is the label of `n`: a leaf's text; for a node with children, the
/// text of its first `identifier` child, or its node type when it has none.
pub open spec fn is_label_of(n: CstNode, l: Seq<char>) -> bool {
    if n.children@.len() == 0 {
        l == text_or_empty(n)
    } else if exists|j: int|
        0 <= j < n.children@.len() && #[trigger] n.children@[j].node_type@ == "identifier"@ {
        exists|j: int|
            0 <= j < n.children@.len() && #[trigger] n.children@[j].node_type@ == "identifier"@
                && (forall|k: int| 0 <= k < j ==> n.children@[k].node_type@ != "identifier"@) && l
                == text_or_empty(n.children@[j])
    } else {
        l == n.node_type@
    }
}

/// Every node of a semantic tree, definition or not, carries the label of
/// its syntax node.
pub proof fn law_labels(n: CstNode, h: NodeHashes, prefix: Seq<char>, parent: Option<Seq<char>>)
    ensures
        is_label_of(n, spec_label(n)),
        convert_spec(n, h, prefix, parent) matches Some(v) ==> is_label_of(n, v.label),
{
    lemma_first_of_type(n.children@, "identifier"@, 0);
    if let Some(j) = first_of_type(n.children@, "identifier"@, 0) {
        assert(n.children@[j].node_type@ == "identifier"@);
    }
}

/// Each node of the syntax tree keeps the kind-derived node type, the
/// named flag and the start and end rows and columns of its grammar node,
/// and has as many children as the grammar node has named children.
pub proof fn law_syntax_node_positions(g: GrammarView, source: Seq<u8>)
    ensures
        spec_cst(g, source).named == g.named,
        spec_cst(g, source).start_line == g.start_row as u32,
        spec_cst(g, source).start_col == g.start_column as u32,
        spec_cst(g, source).end_line == g.end_row as u32,
        spec_cst(g, source).end_col == g.end_column as u32,
        spec_cst(g, source).children.len() == named_count(g.children, g.children.len() as int),
{
    lemma_named_count(g.children, source, g.children.len() as int);
}

/// The number of named trees among the first `k` of `cs`.
pub open spec fn named_count(cs: Seq<GrammarView>, k: int) -> nat
    decreases k,
{
    if k <= 0 || k > cs.len() {
        0
    } else {
        named_count(cs, k - 1) + if cs[k - 1].named {
            1nat
        } else {
            0nat
        }
    }
}

proof fn lemma_named_count(cs: Seq<GrammarView>, source: Seq<u8>, k: int)
    ensures
        named_cst_children(cs, source, k).len() == named_count(cs, k),
    decreases k,
{
    if 0 < k <= cs.len() {
        lemma_named_count(cs, source, k - 1);
    }
}


/// `child_of_type` finds the first child of the given type: a child of that
/// type with none of that type before it, or nothing when no child has it.
pub proof fn law_child_of_type(n: CstNode, t: Seq<char>)
    ensures
        child_of_type(n, t) matches Some(c) ==> exists|j: int|
            0 <= j < n.children@.len() && n.children@[j] == c && c.node_type@ == t && forall|
                k: int,
            |
                0 <= k < j ==> #[trigger] n.children@[k].node_type@ != t,
        child_of_type(n, t) is None ==> forall|j: int|
            0 <= j < n.children@.len() ==> #[trigger] n.children@[j].node_type@ != t,
{
    lemma_first_of_type(n.children@, t, 0);
}

/// A class definition's facts hold only how its body block is classified
/// (nothing without a block); a node that is no definition has no facts.
pub proof fn law_other_facts(n: CstNode)
    ensures
        n.node_type@ == "class_definition"@ ==> {
            &&& spec_node_facts(n).body == (match child_of_type(n, "block"@) {
                Some(b) => Some(spec_body_class(b)),
                None => None,
            })
            &&& spec_node_facts(n).param_count is None
            &&& spec_node_facts(n).is_async is None
            &&& spec_node_facts(n).returns is None
            &&& spec_node_facts(n).is_generator is None
        },
        !is_definition(n.node_type@) ==> {
            &&& spec_node_facts(n).body is None
            &&& spec_node_facts(n).param_count is None
            &&& spec_node_facts(n).is_async is None
            &&& spec_node_facts(n).returns is None
            &&& spec_node_facts(n).is_generator is None
        },
{
    reveal_strlit("class_definition");
    reveal_strlit("function_definition");
    reveal_strlit("async_function_def");
    assert("class_definition"@.len() == 16);
    assert("function_definition"@.len() == 19);
    assert("async_function_def"@.len() == 18);
}

/// A semantic node keeps the node type, positions and hash of its syntax
/// node, and a definition carries exactly the facts of its syntax subtree.
pub proof fn law_semantic_node_fields(
    n: CstNode,
    h: NodeHashes,
    prefix: Seq<char>,
    parent: Option<Seq<char>>,
)
    ensures
        convert_spec(n, h, prefix, parent) matches Some(v) ==> {
            &&& v.node_type == n.node_type@
            &&& v.start_line == n.start_line && v.start_col == n.start_col
            &&& v.end_line == n.end_line && v.end_col == n.end_col
            &&& v.hash == h.hash@
            &&& (is_definition(n.node_type@) ==> v.facts == Some(spec_node_facts(n)))
        },
{
}

/// Every child of a converted node comes from a child of its syntax node:
/// its id is the parent's id, a dot and that child's index, and it has that
/// child's node type.
pub open spec fn kept_from(prefix: Seq<char>, cs: Seq<CstNode>, v: SemanticView) -> bool {
    exists|j: int|
        0 <= j < cs.len() && v.id == prefix + "."@ + decimal(j as nat) && v.node_type
            == #[trigger] cs[j].node_type@
}

proof fn lemma_children_kept_from(
    cs: Seq<CstNode>,
    hs: Seq<NodeHashes>,
    prefix: Seq<char>,
    ctx: Option<Seq<char>>,
    k: int,
)
    requires
        k <= cs.len(),
    ensures
        forall|m: int|
            0 <= m < converted_children(cs, hs, prefix, ctx, k).len() ==> kept_from(
                prefix,
                cs,
                #[trigger] converted_children(cs, hs, prefix, ctx, k)[m],
            ),
    decreases k,
{
    if 0 < k {
        lemma_children_kept_from(cs, hs, prefix, ctx, k - 1);
        let rest = converted_children(cs, hs, prefix, ctx, k - 1);
        if let Some(v) = convert_spec(cs[k - 1], hs[k - 1], child_id(prefix, k - 1), ctx) {
            assert(v.node_type == cs[k - 1].node_type@);
            assert(kept_from(prefix, cs, v));
            assert forall|m: int| 0 <= m < rest.push(v).len() implies kept_from(
                prefix,
                cs,
                #[trigger] rest.push(v)[m],
            ) by {
                if m < rest.len() {
                    assert(rest.push(v)[m] == rest[m]);
                }
            }
        }
    }
}

/// Each child of a semantic node stands for a child of its syntax node:
/// its id is the parent's id, a dot and the index of that syntax child, and
/// it has that child's node type.
pub proof fn law_children_come_from_syntax_children(
    n: CstNode,
    h: NodeHashes,
    prefix: Seq<char>,
    parent: Option<Seq<char>>,
)
    ensures
        convert_spec(n, h, prefix, parent) matches Some(v) ==> forall|m: int|
            0 <= m < v.children.len() ==> kept_from(prefix, n.children@, #[trigger] v.children[m]),
{
    let kids = converted_children(
        n.children@,
        h.children@,
        prefix,
        child_context(n, parent),
        n.children@.len() as int,
    );
    lemma_children_kept_from(
        n.children@,
        h.children@,
        prefix,
        child_context(n, parent),
        n.children@.len() as int,
    );
    if let Some(v) = convert_spec(n, h, prefix, parent) {
        assert(v.children == kids);
        assert forall|m: int| 0 <= m < v.children.len() implies kept_from(
            prefix,
            n.children@,
            #[trigger] v.children[m],
        ) by {
            assert(v.children[m] == kids[m]);
        }
    }
}

/// The text of a leaf is the start of its span's characters: where the
/// span lies in the source and is valid UTF-8, the first
/// `min(length, MAX_LEAF_CHARS)` characters of the decoded span; otherwise
/// empty. In a syntax tree, a leaf's text is that of its grammar node's span.
pub proof fn law_leaf_text(source: Seq<u8>, start: int, end: int, g: GrammarView)
    ensures
        ({
            let t = spec_leaf_text(source, start, end);
            if 0 <= start <= end <= source.len() && vstd::utf8::valid_utf8(
                source.subrange(start, end),
            ) {
                let d = vstd::utf8::decode_utf8(source.subrange(start, end));
                &&& t.len() == if d.len() < MAX_LEAF_CHARS {
                    d.len()
                } else {
                    MAX_LEAF_CHARS as nat
                }
                &&& forall|i: int| 0 <= i < t.len() ==> #[trigger] t[i] == d[i]
            } else {
                t.len() == 0
            }
        }),
        spec_cst(g, source).children.len() == 0 ==> spec_cst(g, source).text == Some(
            spec_leaf_text(source, g.start_byte as int, g.end_byte as int),
        ),
{
}

/// A file name ending in `.py` or `.pyi` is detected as Python, and one
/// that ends in neither is detected as no language.
pub proof fn law_python_file_names(stem: Seq<char>, name: Seq<char>)
    ensures
        spec_detect_language(stem + seq!['.', 'p', 'y']) == seq!['p', 'y', 't', 'h', 'o', 'n'],
        spec_detect_language(stem + seq!['.', 'p', 'y', 'i']) == seq![
            'p',
            'y',
            't',
            'h',
            'o',
            'n',
        ],
        name.len() == 0 || (name.last() != 'y' && name.last() != 'i') ==> spec_detect_language(
            name,
        ).len() == 0,
{
    reveal_strlit(".py");
    reveal_strlit(".pyi");
    reveal_strlit("python");
    let a = stem + seq!['.', 'p', 'y'];
    assert(a.subrange(a.len() - 3, a.len() as int) =~= ".py"@);
    let b = stem + seq!['.', 'p', 'y', 'i'];
    assert(b.subrange(b.len() - 4, b.len() as int) =~= ".pyi"@);
    assert(".py"@ =~= seq!['.', 'p', 'y']);
    assert("python"@ =~= seq!['p', 'y', 't', 'h', 'o', 'n']);
    if name.len() > 0 && name.last() != 'y' && name.last() != 'i' {
        if crate::text::has_suffix(name, ".py"@) {
            let s = name.subrange(name.len() - 3, name.len() as int);
            assert(s[2] == name.last());
        }
        if crate::text::has_suffix(name, ".pyi"@) {
            let s = name.subrange(name.len() - 4, name.len() as int);
            assert(s[3] == name.last());
        }
    }
}

} // verus!
