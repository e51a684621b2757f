//! Reading Python source into the library's concrete syntax tree, with the
//! tree-sitter Python grammar.

use vstd::prelude::*;
use vstd::utf8::{decode_utf8, encode_utf8, encode_utf8_decode_utf8, valid_utf8};
use vstd::string::StringSliceAdditionalSpecFns;
use crate::cst::CstNode;
use crate::semantic::opt_str_view;
use crate::text::{chars_of, push_char, str_eq};

verus! {

/// `tree_sitter::Parser`.
#[verifier::external_type_specification]
#[verifier::external_body]
pub struct ExParser(tree_sitter::Parser);

/// `tree_sitter::LanguageError`.
#[verifier::external_type_specification]
#[verifier::external_body]
pub struct ExLanguageError(tree_sitter::LanguageError);

/// `tree_sitter::Node`.
#[verifier::external_type_specification]
#[verifier::external_body]
pub struct ExNode<'tree>(tree_sitter::Node<'tree>);

/// One node of the tree that the grammar builds, read as plain values: its
/// kind, whether the grammar names it, its span in bytes and in (row,
/// column) positions, and all its children, named and anonymous, in order.
pub struct GrammarNode {
    pub kind: String,
    pub named: bool,
    pub start_byte: usize,
    pub end_byte: usize,
    pub start_row: usize,
    pub start_column: usize,
    pub end_row: usize,
    pub end_column: usize,
    pub children: Vec<GrammarNode>,
}

/// The mathematical content of a grammar tree.
pub struct GrammarView {
    pub kind: Seq<char>,
    pub named: bool,
    pub start_byte: usize,
    pub end_byte: usize,
    pub start_row: usize,
    pub start_column: usize,
    pub end_row: usize,
    pub end_column: usize,
    pub children: Seq<GrammarView>,
}

/// The content of a grammar tree.
pub open spec fn grammar_view(g: GrammarNode) -> GrammarView
    decreases g, 1nat,
{
    GrammarView {
        kind: g.kind@,
        named: g.named,
        start_byte: g.start_byte,
        end_byte: g.end_byte,
        start_row: g.start_row,
        start_column: g.start_column,
        end_row: g.end_row,
        end_column: g.end_column,
        children: grammar_forest_view(g.children@, g.children@.len() as int),
    }
}

/// The contents of the first `k` trees of `cs`.
pub open spec fn grammar_forest_view(cs: Seq<GrammarNode>, k: int) -> Seq<GrammarView>
    decreases cs, k,
{
    if k <= 0 || k > cs.len() {
        Seq::empty()
    } else {
        grammar_forest_view(cs, k - 1).push(grammar_view(cs[k - 1]))
    }
}

proof fn lemma_grammar_forest_view(cs: Seq<GrammarNode>, k: int)
    requires
        0 <= k <= cs.len(),
    ensures
        grammar_forest_view(cs, k).len() == k,
        forall|i: int| 0 <= i < k ==> #[trigger] grammar_forest_view(cs, k)[i] == grammar_view(cs[i]),
    decreases k,
{
    if k > 0 {
        lemma_grammar_forest_view(cs, k - 1);
    }
}

/// The grammar tree that tree-sitter's Python grammar builds for a source
/// text. It is a function of the text alone.
pub uninterp spec fn python_tree(source: Seq<char>) -> GrammarView;

/// A tree-sitter parser that holds the Python grammar. Only
/// `set_python_language` makes one.
pub struct PythonGrammarParser {
    parser: tree_sitter::Parser,
}

/// `tree_sitter::Parser::new`: a parser with no language assigned.
#[verifier::external_body]
fn new_parser() -> tree_sitter::Parser {
    tree_sitter::Parser::new()
}

/// `tree_sitter::Parser::set_language` with `tree_sitter_python::LANGUAGE`.
/// It fails only where the grammar's ABI version lies outside the range
/// this tree-sitter accepts; the Python grammar has ABI 15, inside 13 to 15,
/// so it succeeds.
#[verifier::external_body]
fn set_python_language(
    parser: tree_sitter::Parser,
) -> (r: Result<PythonGrammarParser, tree_sitter::LanguageError>)
    ensures
        r is Ok,
{
    let mut parser = parser;
    match parser.set_language(&tree_sitter_python::LANGUAGE.into()) {
        Ok(()) => Ok(PythonGrammarParser { parser }),
        Err(e) => Err(e),
    }
}

/// `tree_sitter::Parser::parse` from scratch, its tree read into a
/// `GrammarNode`. It returns no tree only for a parser without a language
/// or with a timeout or cancellation set, none of which holds of a
/// `PythonGrammarParser`; the tree is the one the Python grammar builds for
/// the source.
#[verifier::external_body]
fn parse_python(parser: &mut PythonGrammarParser, source: &str) -> (r: Option<GrammarNode>)
    ensures
        r is Some,
        grammar_view(r.unwrap()) == python_tree(source@),
{
    match parser.parser.parse(source, None) {
        Some(tree) => Some(grammar_node_of(tree.root_node())),
        None => None,
    }
}

/// Reads a `tree_sitter::Node` and its children, in order, into a
/// `GrammarNode`, field by field; the conversion in `parse_python`.
#[verifier::external_body]
fn grammar_node_of(node: tree_sitter::Node) -> GrammarNode {
    let (start, end) = (node.start_position(), node.end_position());
    let mut cursor = node.walk();
    GrammarNode {
        kind: node.kind().to_string(),
        named: node.is_named(),
        start_byte: node.start_byte(),
        end_byte: node.end_byte(),
        start_row: start.row,
        start_column: start.column,
        end_row: end.row,
        end_column: end.column,
        children: node.children(&mut cursor).map(grammar_node_of).collect(),
    }
}

/// `std::str::from_utf8`: the bytes read as a string where they are valid
/// UTF-8.
#[verifier::external_body]
fn utf8_str(bytes: &[u8]) -> (r: Option<&str>)
    ensures
        r is Some <==> valid_utf8(bytes@),
        r matches Some(s) ==> s.spec_bytes() == bytes@,
{
    std::str::from_utf8(bytes).ok()
}

/// The most characters of a leaf's text that are kept.
pub const MAX_LEAF_CHARS: usize = 4096;

/// At most the first `k` elements of `s`.
pub open spec fn prefix_of(s: Seq<char>, k: nat) -> Seq<char> {
    if s.len() <= k {
        s
    } else {
        s.take(k as int)
    }
}

/// The text of a leaf spanning bytes `start..end` of `source`: its first
/// characters, at most `MAX_LEAF_CHARS` of them, where the span lies in the
/// source and is valid UTF-8, else empty.
pub open spec fn spec_leaf_text(source: Seq<u8>, start: int, end: int) -> Seq<char> {
    if 0 <= start <= end <= source.len() && valid_utf8(source.subrange(start, end)) {
        prefix_of(decode_utf8(source.subrange(start, end)), MAX_LEAF_CHARS as nat)
    } else {
        Seq::empty()
    }
}

/// The text of a leaf spanning bytes `start..end` of `source`, cut to at
/// most `MAX_LEAF_CHARS` characters.
pub fn leaf_text(source: &[u8], start: usize, end: usize) -> (r: String)
    ensures
        r@ == spec_leaf_text(source@, start as int, end as int),
{
    if !(start <= end && end <= source.len()) {
        return String::new();
    }
    let span = vstd::slice::slice_subrange(source, start, end);
    let s = match utf8_str(span) {
        Some(s) => s,
        None => {
            return String::new();
        },
    };
    proof {
        encode_utf8_decode_utf8(s@);
    }
    let cs = chars_of(s);
    let n: usize = if cs.len() < MAX_LEAF_CHARS {
        cs.len()
    } else {
        MAX_LEAF_CHARS
    };
    let mut out = String::new();
    let mut i: usize = 0;
    while i < n
        invariant
            i <= n <= cs@.len(),
            out@ == cs@.take(i as int),
        decreases n - i,
    {
        push_char(&mut out, cs[i]);
        i = i + 1;
        assert(out@ =~= cs@.take(i as int));
    }
    assert(out@ =~= prefix_of(cs@, MAX_LEAF_CHARS as nat));
    out
}

/// The node type recorded for a grammar node: a `function_definition` whose
/// first child is the `async` keyword becomes `async_function_def`, so that
/// `def f()` and `async def f()` never give the same tree.
pub open spec fn spec_cst_type(kind: Seq<char>, first_child_kind: Option<Seq<char>>) -> Seq<char> {
    if kind == "function_definition"@ && first_child_kind == Some("async"@) {
        "async_function_def"@
    } else {
        kind
    }
}

/// The node type recorded for a grammar node of kind `kind` whose first
/// child, if any, has kind `first_child_kind`.
pub fn cst_node_type(kind: &str, first_child_kind: Option<&str>) -> (r: String)
    ensures
        r@ == spec_cst_type(kind@, opt_str_view(first_child_kind)),
{
    let is_async = match first_child_kind {
        Some(k) => str_eq(k, "async"),
        None => false,
    };
    if is_async && str_eq(kind, "function_definition") {
        "async_function_def".to_owned()
    } else {
        kind.to_owned()
    }
}

/// The content of a syntax tree.
pub struct CstView {
    pub node_type: Seq<char>,
    pub named: bool,
    pub text: Option<Seq<char>>,
    pub start_line: u32,
    pub start_col: u32,
    pub end_line: u32,
    pub end_col: u32,
    pub children: Seq<CstView>,
}

/// The content of a syntax tree.
pub open spec fn cst_view(n: CstNode) -> CstView
    decreases n, 1nat,
{
    CstView {
        node_type: n.node_type@,
        named: n.named,
        text: match n.text {
            Some(t) => Some(t@),
            None => None,
        },
        start_line: n.start_line,
        start_col: n.start_col,
        end_line: n.end_line,
        end_col: n.end_col,
        children: cst_forest_view(n.children@, n.children@.len() as int),
    }
}

/// The contents of the first `k` trees of `cs`.
pub open spec fn cst_forest_view(cs: Seq<CstNode>, k: int) -> Seq<CstView>
    decreases cs, k,
{
    if k <= 0 || k > cs.len() {
        Seq::empty()
    } else {
        cst_forest_view(cs, k - 1).push(cst_view(cs[k - 1]))
    }
}

proof fn lemma_cst_forest_view_push(cs: Seq<CstNode>, x: CstNode, k: int)
    requires
        0 <= k <= cs.len(),
    ensures
        cst_forest_view(cs.push(x), k) == cst_forest_view(cs, k),
    decreases k,
{
    if k > 0 {
        lemma_cst_forest_view_push(cs, x, k - 1);
        assert(cs.push(x)[k - 1] == cs[k - 1]);
    }
}

/// The kind of the first child of a grammar node, named or anonymous.
pub open spec fn first_child_kind(g: GrammarView) -> Option<Seq<char>> {
    if g.children.len() > 0 {
        Some(g.children[0].kind)
    } else {
        None
    }
}

/// The syntax tree of the grammar node `g` of a tree parsed from `source`:
/// its node type from `spec_cst_type`, its named children only, in order,
/// each converted the same way, its positions (rows and columns as `u32`),
/// and text on leaves only, from `spec_leaf_text`.
pub open spec fn spec_cst(g: GrammarView, source: Seq<u8>) -> CstView
    decreases g, 1nat,
{
    let kids = named_cst_children(g.children, source, g.children.len() as int);
    CstView {
        node_type: spec_cst_type(g.kind, first_child_kind(g)),
        named: g.named,
        text: if kids.len() == 0 {
            Some(spec_leaf_text(source, g.start_byte as int, g.end_byte as int))
        } else {
            None
        },
        start_line: g.start_row as u32,
        start_col: g.start_column as u32,
        end_line: g.end_row as u32,
        end_col: g.end_column as u32,
        children: kids,
    }
}

/// The syntax trees of the named ones among the first `k` grammar nodes of
/// `cs`, in order.
pub open spec fn named_cst_children(cs: Seq<GrammarView>, source: Seq<u8>, k: int) -> Seq<CstView>
    decreases cs, k,
{
    if k <= 0 || k > cs.len() {
        Seq::empty()
    } else {
        let rest = named_cst_children(cs, source, k - 1);
        if cs[k - 1].named {
            rest.push(spec_cst(cs[k - 1], source))
        } else {
            rest
        }
    }
}

/// Convert a grammar node and its named descendants into the library's
/// syntax tree. Anonymous children (keywords, punctuation) are left out;
/// text is kept on leaves only.
pub fn node_to_cst(node: &GrammarNode, source: &[u8]) -> (r: CstNode)
    ensures
        cst_view(r) == spec_cst(grammar_view(*node), source@),
    decreases node,
{
    let ghost gv = grammar_view(*node);
    proof {
        lemma_grammar_forest_view(node.children@, node.children@.len() as int);
    }
    let mut children: Vec<CstNode> = Vec::new();
    let mut i: usize = 0;
    while i < node.children.len()
        invariant
            i <= node.children@.len(),
            gv == grammar_view(*node),
            gv.children.len() == node.children@.len(),
            forall|k: int|
                0 <= k < node.children@.len() ==> #[trigger] gv.children[k] == grammar_view(
                    node.children@[k],
                ),
            cst_forest_view(children@, children@.len() as int) == named_cst_children(
                gv.children,
                source@,
                i as int,
            ),
        decreases node.children@.len() - i,
    {
        let c = &node.children[i];
        assert(gv.children[i as int] == grammar_view(*c));
        if c.named {
            let cc = node_to_cst(c, source);
            proof {
                lemma_cst_forest_view_push(children@, cc, children@.len() as int);
            }
            children.push(cc);
        }
        i = i + 1;
    }
    let text = if children.len() == 0 {
        Some(leaf_text(source, node.start_byte, node.end_byte))
    } else {
        None
    };
    let first_kind: Option<&str> = if node.children.len() > 0 {
        assert(gv.children[0] == grammar_view(node.children@[0]));
        Some(node.children[0].kind.as_str())
    } else {
        None
    };
    let node_type = cst_node_type(node.kind.as_str(), first_kind);
    CstNode {
        node_type,
        named: node.named,
        text,
        start_line: node.start_row as u32,
        start_col: node.start_column as u32,
        end_line: node.end_row as u32,
        end_col: node.end_column as u32,
        children,
    }
}

/// The syntax tree of a Python source text: that of the tree the Python
/// grammar builds for it, over the text's UTF-8 bytes.
pub open spec fn spec_parse(source: Seq<char>) -> CstView {
    spec_cst(python_tree(source), encode_utf8(source))
}

/// Parse Python source into the library's syntax tree. It always succeeds;
/// the two errors of the original flow (the grammar not loading, the
/// parser giving no tree) cannot occur with this grammar and parser.
pub fn parse_source(source: &str) -> (r: Result<CstNode, String>)
    ensures
        r matches Ok(c) && cst_view(c) == spec_parse(source@),
{
    let parser = new_parser();
    let mut parser = match set_python_language(parser) {
        Ok(p) => p,
        Err(_) => {
            return Err("Failed to load Python grammar".to_owned());
        },
    };
    let tree = match parse_python(&mut parser, source) {
        Some(t) => t,
        None => {
            return Err("Parse failed".to_owned());
        },
    };
    Ok(node_to_cst(&tree, source.as_bytes()))
}

} // verus!
