//! The semantic tree: the concrete syntax tree pruned to the node types that
//! carry meaning, with stable path ids, structural hashes, the enclosing class
//! of each method, and facts on definition nodes.

use vstd::prelude::*;
use crate::cst::{label_for, spec_label, CstNode};
use crate::facts::{python_node_facts, spec_node_facts, FactsView, NodeFacts};
use crate::text::{decimal, push_char, push_decimal, str_eq};
use crate::vocab::{is_method_def, is_semantic, spec_is_method_def, spec_is_semantic};

verus! {

/// The structural hash of every node of a syntax tree, arranged as that tree.
pub struct NodeHashes {
    pub hash: String,
    pub children: Vec<NodeHashes>,
}

/// `h` has the shape of `n`: one hash per node.
pub open spec fn hashes_fit(n: CstNode, h: NodeHashes) -> bool
    decreases n, 1nat,
{
    h.children@.len() == n.children@.len() && forest_fits(
        n.children@,
        h.children@,
        n.children@.len() as int,
    )
}

/// The first `k` hash trees of `hs` have the shapes of the first `k` trees of `cs`.
pub open spec fn forest_fits(cs: Seq<CstNode>, hs: Seq<NodeHashes>, k: int) -> bool
    decreases cs, k,
{
    if k <= 0 || k > cs.len() {
        true
    } else {
        forest_fits(cs, hs, k - 1) && hashes_fit(cs[k - 1], hs[k - 1])
    }
}

/// Each of the first `k` hash trees has the shape of its syntax tree.
pub proof fn lemma_forest_fits(cs: Seq<CstNode>, hs: Seq<NodeHashes>, k: int, i: int)
    requires
        forest_fits(cs, hs, k),
        0 <= i < k <= cs.len(),
    ensures
        hashes_fit(cs[i], hs[i]),
    decreases k,
{
    if i < k - 1 {
        lemma_forest_fits(cs, hs, k - 1, i);
    }
}

/// One node of the semantic tree.
pub struct SemanticNode {
    /// The path of the node from the root: the root's id, then for each step
    /// down a dot and the index of the child in the syntax tree.
    pub id: String,
    pub node_type: String,
    pub label: String,
    pub start_line: u32,
    pub start_col: u32,
    pub end_line: u32,
    pub end_col: u32,
    /// The structural hash of the syntax subtree the node stands for.
    pub hash: String,
    /// For a function or method definition: the name of the enclosing class.
    pub parent_type: Option<String>,
    /// Structural facts, on function and class definitions only.
    pub facts: Option<NodeFacts>,
    pub children: Vec<SemanticNode>,
}

/// The mathematical content of a semantic tree.
pub struct SemanticView {
    pub id: Seq<char>,
    pub node_type: Seq<char>,
    pub label: Seq<char>,
    pub start_line: u32,
    pub start_col: u32,
    pub end_line: u32,
    pub end_col: u32,
    pub hash: Seq<char>,
    pub parent_type: Option<Seq<char>>,
    pub facts: Option<FactsView>,
    pub children: Seq<SemanticView>,
}

/// The content of an optional string slice.
pub open spec fn opt_str_view(s: Option<&str>) -> Option<Seq<char>> {
    match s {
        Some(t) => Some(t@),
        None => None,
    }
}

/// The content of a semantic tree.
pub open spec fn tree_view(n: SemanticNode) -> SemanticView
    decreases n, 1nat,
{
    SemanticView {
        id: n.id@,
        node_type: n.node_type@,
        label: n.label@,
        start_line: n.start_line,
        start_col: n.start_col,
        end_line: n.end_line,
        end_col: n.end_col,
        hash: n.hash@,
        parent_type: match n.parent_type {
            Some(p) => Some(p@),
            None => None,
        },
        facts: match n.facts {
            Some(f) => Some(f@),
            None => None,
        },
        children: forest_view(n.children@, n.children@.len() as int),
    }
}

/// The contents of the first `k` trees of `cs`.
pub open spec fn forest_view(cs: Seq<SemanticNode>, k: int) -> Seq<SemanticView>
    decreases cs, k,
{
    if k <= 0 || k > cs.len() {
        Seq::empty()
    } else {
        forest_view(cs, k - 1).push(tree_view(cs[k - 1]))
    }
}

/// The content of an optional semantic tree.
pub open spec fn opt_tree_view(n: Option<SemanticNode>) -> Option<SemanticView> {
    match n {
        Some(t) => Some(tree_view(t)),
        None => None,
    }
}

/// The contents of a prefix of trees do not change when a tree is appended.
pub proof fn lemma_forest_view_push(cs: Seq<SemanticNode>, x: SemanticNode, k: int)
    requires
        0 <= k <= cs.len(),
    ensures
        forest_view(cs.push(x), k) == forest_view(cs, k),
    decreases k,
{
    if k > 0 {
        lemma_forest_view_push(cs, x, k - 1);
        assert(cs.push(x)[k - 1] == cs[k - 1]);
    }
}

/// The id of the `i`-th child of the node with id `prefix`.
pub open spec fn child_id(prefix: Seq<char>, i: int) -> Seq<char> {
    prefix + "."@ + decimal(i as nat)
}

/// The enclosing class that the children of `n` see: `n`'s own label where
/// `n` is a class definition, else the one that `n` sees.
pub open spec fn child_context(n: CstNode, parent: Option<Seq<char>>) -> Option<Seq<char>> {
    if n.node_type@ == "class_definition"@ {
        Some(spec_label(n))
    } else {
        parent
    }
}

/// Whether a node carries facts: function and class definitions.
pub open spec fn is_definition(t: Seq<char>) -> bool {
    spec_is_method_def(t) || t == "class_definition"@
}

/// The semantic tree of the syntax tree `n` with id `prefix`, whose nearest
/// enclosing class is `parent`; `None` where neither `n` nor any node below it
/// is semantic.
pub open spec fn convert_spec(
    n: CstNode,
    h: NodeHashes,
    prefix: Seq<char>,
    parent: Option<Seq<char>>,
) -> Option<SemanticView>
    decreases n, 1nat,
{
    let kids = converted_children(
        n.children@,
        h.children@,
        prefix,
        child_context(n, parent),
        n.children@.len() as int,
    );
    if !spec_is_semantic(n.node_type@) && kids.len() == 0 {
        None
    } else {
        Some(
            SemanticView {
                id: prefix,
                node_type: n.node_type@,
                label: spec_label(n),
                start_line: n.start_line,
                start_col: n.start_col,
                end_line: n.end_line,
                end_col: n.end_col,
                hash: h.hash@,
                parent_type: if spec_is_method_def(n.node_type@) {
                    parent
                } else {
                    None
                },
                facts: if is_definition(n.node_type@) {
                    Some(spec_node_facts(n))
                } else {
                    None
                },
                children: kids,
            },
        )
    }
}

/// The semantic trees of the first `k` children `cs` of the node with id
/// `prefix`, in order, leaving out those that convert to nothing.
pub open spec fn converted_children(
    cs: Seq<CstNode>,
    hs: Seq<NodeHashes>,
    prefix: Seq<char>,
    ctx: Option<Seq<char>>,
    k: int,
) -> Seq<SemanticView>
    decreases cs, k,
{
    if k <= 0 || k > cs.len() {
        Seq::empty()
    } else {
        let rest = converted_children(cs, hs, prefix, ctx, k - 1);
        match convert_spec(cs[k - 1], hs[k - 1], child_id(prefix, k - 1), ctx) {
            Some(v) => rest.push(v),
            None => rest,
        }
    }
}

/// Convert a syntax tree into its semantic tree: keep the semantic nodes
/// and the nodes with semantic descendants, tag methods with their enclosing
/// class, and attach facts to definitions.
pub fn convert(
    node: &CstNode,
    hashes: &NodeHashes,
    id_prefix: &str,
    parent_class: Option<&str>,
) -> (r: Option<SemanticNode>)
    requires
        hashes_fit(*node, *hashes),
    ensures
        opt_tree_view(r) == convert_spec(*node, *hashes, id_prefix@, opt_str_view(parent_class)),
    decreases node,
{
    let node_type = node.node_type.as_str();
    let own_class_label: Option<String> = if str_eq(node_type, "class_definition") {
        Some(label_for(node))
    } else {
        None
    };
    let child_parent_class: Option<&str> = match &own_class_label {
        Some(l) => Some(l.as_str()),
        None => parent_class,
    };
    let ghost ctx = child_context(*node, opt_str_view(parent_class));
    assert(opt_str_view(child_parent_class) == ctx);

    let mut children: Vec<SemanticNode> = Vec::new();
    let mut i: usize = 0;
    while i < node.children.len()
        invariant
            i <= node.children@.len(),
            hashes_fit(*node, *hashes),
            opt_str_view(child_parent_class) == ctx,
            forest_view(children@, children@.len() as int) == converted_children(
                node.children@,
                hashes.children@,
                id_prefix@,
                ctx,
                i as int,
            ),
        decreases node.children@.len() - i,
    {
        proof {
            lemma_forest_fits(
                node.children@,
                hashes.children@,
                node.children@.len() as int,
                i as int,
            );
        }
        let mut child_id_str = id_prefix.to_owned();
        push_char(&mut child_id_str, '.');
        push_decimal(&mut child_id_str, i);
        proof {
            reveal_strlit(".");
            assert(child_id_str@ =~= child_id(id_prefix@, i as int));
        }
        let converted = convert(
            &node.children[i],
            &hashes.children[i],
            child_id_str.as_str(),
            child_parent_class,
        );
        match converted {
            Some(c) => {
                proof {
                    lemma_forest_view_push(children@, c, children@.len() as int);
                }
                children.push(c);
            },
            None => {},
        }
        i = i + 1;
    }
    if !is_semantic(node_type) && children.len() == 0 {
        return None;
    }
    let is_method = is_method_def(node_type);
    let parent_type: Option<String> = if is_method {
        match parent_class {
            Some(c) => Some(c.to_owned()),
            None => None,
        }
    } else {
        None
    };
    let facts: Option<NodeFacts> = if is_method || str_eq(node_type, "class_definition") {
        Some(python_node_facts(node))
    } else {
        None
    };
    Some(
        SemanticNode {
            id: id_prefix.to_owned(),
            node_type: node.node_type.clone(),
            label: label_for(node),
            start_line: node.start_line,
            start_col: node.start_col,
            end_line: node.end_line,
            end_col: node.end_col,
            hash: hashes.hash.clone(),
            parent_type,
            facts,
            children,
        },
    )
}

} // verus!
