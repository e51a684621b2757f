//! The concrete syntax tree handed over by the parser, and the read-only
//! questions the library asks of it.

use vstd::prelude::*;
use crate::text::str_eq;

verus! {

/// One node of a concrete syntax tree: its grammar type, whether the grammar
/// names it, its source text (kept for leaves only), its position in the
/// source (zero-based rows and columns), and its named children.
pub struct CstNode {
    pub node_type: String,
    pub named: bool,
    pub text: Option<String>,
    pub start_line: u32,
    pub start_col: u32,
    pub end_line: u32,
    pub end_col: u32,
    pub children: Vec<CstNode>,
}

/// The text of a node, or the empty sequence where it has none.
pub open spec fn text_or_empty(n: CstNode) -> Seq<char> {
    match n.text {
        Some(t) => t@,
        None => Seq::empty(),
    }
}

/// Questions that the library asks of every node of a subtree.
pub enum Probe {
    /// An identifier spelled `NotImplementedError`.
    NotImplementedName,
    /// A `return` statement that hands back a value.
    ValueReturn,
    /// A `yield` expression.
    Yield,
}

/// Whether the node itself answers the probe.
pub open spec fn probe_holds(p: Probe, n: CstNode) -> bool {
    match p {
        Probe::NotImplementedName => n.node_type@ == "identifier"@ && text_or_empty(n)
            == "NotImplementedError"@,
        Probe::ValueReturn => n.node_type@ == "return_statement"@ && n.children@.len() > 0,
        Probe::Yield => n.node_type@ == "yield"@,
    }
}

/// Whether the node or any node below it answers the probe.
pub open spec fn subtree_any(p: Probe, n: CstNode) -> bool
    decreases n, 1nat,
{
    probe_holds(p, n) || children_any(p, n.children@, n.children@.len() as int)
}

/// Whether any of the first `k` trees of `cs` holds a node that answers the probe.
pub open spec fn children_any(p: Probe, cs: Seq<CstNode>, k: int) -> bool
    decreases cs, k,
{
    if k <= 0 || k > cs.len() {
        false
    } else {
        children_any(p, cs, k - 1) || subtree_any(p, cs[k - 1])
    }
}

/// Once one of the first `k` trees answers the probe, so does one of the first `m`.
pub proof fn lemma_children_any_grows(p: Probe, cs: Seq<CstNode>, k: int, m: int)
    requires
        children_any(p, cs, k),
        k <= m <= cs.len(),
    ensures
        children_any(p, cs, m),
    decreases m - k,
{
    if k < m {
        lemma_children_any_grows(p, cs, k, m - 1);
    }
}

fn probe_matches(p: &Probe, n: &CstNode) -> (r: bool)
    ensures
        r == probe_holds(*p, *n),
{
    match p {
        Probe::NotImplementedName => {
            if !str_eq(n.node_type.as_str(), "identifier") {
                return false;
            }
            match &n.text {
                Some(t) => {
                    assert(text_or_empty(*n) == t@);
                    str_eq(t.as_str(), "NotImplementedError")
                },
                None => {
                    proof {
                        reveal_strlit("NotImplementedError");
                        assert("NotImplementedError"@.len() == 19);
                        assert(text_or_empty(*n).len() == 0);
                    }
                    false
                },
            }
        },
        Probe::ValueReturn => str_eq(n.node_type.as_str(), "return_statement")
            && n.children.len() > 0,
        Probe::Yield => str_eq(n.node_type.as_str(), "yield"),
    }
}

/// Whether `node` or any node below it answers `probe`.
pub fn subtree_contains(node: &CstNode, probe: &Probe) -> (r: bool)
    ensures
        r == subtree_any(*probe, *node),
    decreases node,
{
    if probe_matches(probe, node) {
        return true;
    }
    let mut i: usize = 0;
    while i < node.children.len()
        invariant
            i <= node.children@.len(),
            !probe_holds(*probe, *node),
            !children_any(*probe, node.children@, i as int),
        decreases node.children@.len() - i,
    {
        let child = &node.children[i];
        assert(*child == node.children@[i as int]);
        if subtree_contains(child, probe) {
            proof {
                assert(children_any(*probe, node.children@, i + 1));
                lemma_children_any_grows(*probe, node.children@, i + 1, node.children@.len() as int);
            }
            return true;
        }
        i = i + 1;
    }
    false
}


/// The index of the first tree of `cs`, from index `i` on, whose node type is `t`.
pub open spec fn first_of_type(cs: Seq<CstNode>, t: Seq<char>, i: int) -> Option<int>
    decreases cs.len() - i,
{
    if i < 0 || i >= cs.len() {
        None
    } else if cs[i].node_type@ == t {
        Some(i)
    } else {
        first_of_type(cs, t, i + 1)
    }
}

/// What `first_of_type` finds is a tree of that type at or after `i`, with
/// none of that type between `i` and it.
pub proof fn lemma_first_of_type(cs: Seq<CstNode>, t: Seq<char>, i: int)
    requires
        0 <= i,
    ensures
        match first_of_type(cs, t, i) {
            Some(k) => i <= k < cs.len() && cs[k].node_type@ == t && forall|j: int|
                i <= j < k ==> #[trigger] cs[j].node_type@ != t,
            None => forall|j: int| i <= j < cs.len() ==> #[trigger] cs[j].node_type@ != t,
        },
    decreases cs.len() - i,
{
    if i < cs.len() && cs[i].node_type@ != t {
        lemma_first_of_type(cs, t, i + 1);
    }
}

/// The first child of `n` whose node type is `t`.
pub open spec fn child_of_type(n: CstNode, t: Seq<char>) -> Option<CstNode> {
    match first_of_type(n.children@, t, 0) {
        Some(i) => Some(n.children@[i]),
        None => None,
    }
}

/// The index of the first child of `node` whose node type is `t`.
pub fn child_index_of_type(node: &CstNode, t: &str) -> (r: Option<usize>)
    ensures
        match first_of_type(node.children@, t@, 0) {
            Some(i) => r matches Some(k) && k == i,
            None => r is None,
        },
        r matches Some(k) ==> k < node.children@.len() && node.children@[k as int].node_type@
            == t@,
{
    proof {
        lemma_first_of_type(node.children@, t@, 0);
    }
    let mut i: usize = 0;
    while i < node.children.len()
        invariant
            i <= node.children@.len(),
            first_of_type(node.children@, t@, 0) == first_of_type(node.children@, t@, i as int),
        decreases node.children@.len() - i,
    {
        if str_eq(node.children[i].node_type.as_str(), t) {
            return Some(i);
        }
        i = i + 1;
    }
    None
}

/// The `block` body of a definition node.
pub open spec fn spec_body_block(n: CstNode) -> Option<CstNode> {
    child_of_type(n, "block"@)
}

/// The `block` body of a function or class definition, if present.
pub fn body_block(node: &CstNode) -> (r: Option<&CstNode>)
    ensures
        r is Some <==> spec_body_block(*node) is Some,
        r is Some ==> *r.unwrap() == spec_body_block(*node).unwrap(),
{
    match child_index_of_type(node, "block") {
        Some(i) => Some(&node.children[i]),
        None => None,
    }
}

/// The label of a node: a leaf's own text, else the text of its first
/// `identifier` child, else its node type.
pub open spec fn spec_label(n: CstNode) -> Seq<char> {
    if n.children@.len() == 0 {
        text_or_empty(n)
    } else {
        match child_of_type(n, "identifier"@) {
            Some(c) => text_or_empty(c),
            None => n.node_type@,
        }
    }
}

fn text_or_empty_string(n: &CstNode) -> (r: String)
    ensures
        r@ == text_or_empty(*n),
{
    match &n.text {
        Some(t) => t.clone(),
        None => String::new(),
    }
}

/// The label of a node: a leaf's own text, else the text of its first
/// `identifier` child, else its node type.
pub fn label_for(node: &CstNode) -> (r: String)
    ensures
        r@ == spec_label(*node),
{
    if node.children.len() == 0 {
        return text_or_empty_string(node);
    }
    match child_index_of_type(node, "identifier") {
        Some(i) => text_or_empty_string(&node.children[i]),
        None => node.node_type.clone(),
    }
}

/// Whether a raise statement raises `NotImplementedError` (a stub sentinel).
pub fn raises_not_implemented(stmt: &CstNode) -> (r: bool)
    ensures
        r == subtree_any(Probe::NotImplementedName, *stmt),
{
    subtree_contains(stmt, &Probe::NotImplementedName)
}

/// A node type that may stand alone in a statement that does nothing: a
/// string (a docstring) or `...`.
pub open spec fn is_inert_expression(t: Seq<char>) -> bool {
    t == "string"@ || t == "concatenated_string"@ || t == "ellipsis"@
}

/// A no-op statement: `pass`, `...`, a bare docstring, or
/// `raise NotImplementedError`.
pub open spec fn spec_is_trivial_stmt(n: CstNode) -> bool {
    if n.node_type@ == "pass_statement"@ {
        true
    } else if n.node_type@ == "expression_statement"@ {
        n.children@.len() > 0 && forall|i: int|
            0 <= i < n.children@.len() ==> is_inert_expression(
                #[trigger] n.children@[i].node_type@,
            )
    } else if n.node_type@ == "raise_statement"@ {
        subtree_any(Probe::NotImplementedName, n)
    } else {
        false
    }
}

/// A no-op statement: `pass`, `...`, a bare docstring, or
/// `raise NotImplementedError`.
pub fn is_trivial_stmt(stmt: &CstNode) -> (r: bool)
    ensures
        r == spec_is_trivial_stmt(*stmt),
{
    let t = stmt.node_type.as_str();
    if str_eq(t, "pass_statement") {
        true
    } else if str_eq(t, "expression_statement") {
        if stmt.children.len() == 0 {
            return false;
        }
        let mut i: usize = 0;
        while i < stmt.children.len()
            invariant
                i <= stmt.children@.len(),
                stmt.node_type@ == "expression_statement"@,
                stmt.node_type@ != "pass_statement"@,
                forall|j: int|
                    0 <= j < i ==> is_inert_expression(#[trigger] stmt.children@[j].node_type@),
            decreases stmt.children@.len() - i,
        {
            let ct = stmt.children[i].node_type.as_str();
            if !(str_eq(ct, "string") || str_eq(ct, "concatenated_string") || str_eq(
                ct,
                "ellipsis",
            )) {
                assert(!is_inert_expression(stmt.children@[i as int].node_type@));
                return false;
            }
            i = i + 1;
        }
        true
    } else if str_eq(t, "raise_statement") {
        raises_not_implemented(stmt)
    } else {
        false
    }
}

/// How a body block is classified: `empty` without statements, `stub` when
/// every statement is a no-op, `substantive` otherwise.
pub open spec fn spec_body_class(block: CstNode) -> Seq<char> {
    if block.children@.len() == 0 {
        "empty"@
    } else if forall|i: int|
        0 <= i < block.children@.len() ==> spec_is_trivial_stmt(#[trigger] block.children@[i]) {
        "stub"@
    } else {
        "substantive"@
    }
}

/// Classify a body block as empty / stub (no-op) / substantive.
pub fn classify_body(block: &CstNode) -> (r: &'static str)
    ensures
        r@ == spec_body_class(*block),
{
    if block.children.len() == 0 {
        return "empty";
    }
    let mut i: usize = 0;
    while i < block.children.len()
        invariant
            i <= block.children@.len(),
            forall|j: int| 0 <= j < i ==> spec_is_trivial_stmt(#[trigger] block.children@[j]),
        decreases block.children@.len() - i,
    {
        if !is_trivial_stmt(&block.children[i]) {
            return "substantive";
        }
        i = i + 1;
    }
    "stub"
}

} // verus!
