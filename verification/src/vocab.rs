//! The node-type vocabulary of the Python grammar that the library keeps,
//! drops or treats specially.

use vstd::prelude::*;
use crate::text::str_eq;

verus! {

/// The node types that carry meaning on their own and are kept in the
/// semantic tree even without semantic descendants. Trivial statements
/// (`pass`, `break`, `continue`, `...`) are among them: they are real body
/// content.
pub open spec fn semantic_types() -> Seq<Seq<char>> {
    seq![
        "module"@,
        "function_definition"@,
        "async_function_def"@,
        "class_definition"@,
        "decorated_definition"@,
        "assignment"@,
        "augmented_assignment"@,
        "return_statement"@,
        "import_statement"@,
        "import_from_statement"@,
        "if_statement"@,
        "elif_clause"@,
        "else_clause"@,
        "for_statement"@,
        "while_statement"@,
        "try_statement"@,
        "except_clause"@,
        "with_statement"@,
        "raise_statement"@,
        "assert_statement"@,
        "delete_statement"@,
        "pass_statement"@,
        "break_statement"@,
        "continue_statement"@,
        "ellipsis"@,
        "expression_statement"@,
        "call"@,
        "identifier"@,
        "string"@,
        "integer"@,
        "float"@,
        "true"@,
        "false"@,
        "none"@,
        "parameters"@,
        "argument_list"@,
        "type"@,
        "type_annotation"@,
    ]
}

/// The node types that the host strips as trivia.
pub open spec fn trivia_types() -> Seq<Seq<char>> {
    seq![
        "comment"@,
        "line_comment"@,
        "block_comment"@,
        "whitespace"@,
    ]
}

/// Whether a node type is kept in the semantic tree on its own.
pub open spec fn spec_is_semantic(t: Seq<char>) -> bool {
    semantic_types().contains(t)
}

/// Whether a node type is a (synchronous or asynchronous) function definition.
pub open spec fn spec_is_method_def(t: Seq<char>) -> bool {
    t == "function_definition"@ || t == "async_function_def"@
}

/// The semantic node types, in a vector.
pub fn semantic_type_list() -> (v: Vec<&'static str>)
    ensures
        v@.len() == semantic_types().len(),
        forall|i: int| 0 <= i < v@.len() ==> #[trigger] v@[i]@ == semantic_types()[i],
{
    let mut v: Vec<&'static str> = Vec::new();
    v.push("module");
    v.push("function_definition");
    v.push("async_function_def");
    v.push("class_definition");
    v.push("decorated_definition");
    v.push("assignment");
    v.push("augmented_assignment");
    v.push("return_statement");
    v.push("import_statement");
    v.push("import_from_statement");
    v.push("if_statement");
    v.push("elif_clause");
    v.push("else_clause");
    v.push("for_statement");
    v.push("while_statement");
    v.push("try_statement");
    v.push("except_clause");
    v.push("with_statement");
    v.push("raise_statement");
    v.push("assert_statement");
    v.push("delete_statement");
    v.push("pass_statement");
    v.push("break_statement");
    v.push("continue_statement");
    v.push("ellipsis");
    v.push("expression_statement");
    v.push("call");
    v.push("identifier");
    v.push("string");
    v.push("integer");
    v.push("float");
    v.push("true");
    v.push("false");
    v.push("none");
    v.push("parameters");
    v.push("argument_list");
    v.push("type");
    v.push("type_annotation");
    v
}

/// The trivia node types, in a vector.
pub fn trivia_type_list() -> (v: Vec<&'static str>)
    ensures
        v@.len() == trivia_types().len(),
        forall|i: int| 0 <= i < v@.len() ==> #[trigger] v@[i]@ == trivia_types()[i],
{
    let mut v: Vec<&'static str> = Vec::new();
    v.push("comment");
    v.push("line_comment");
    v.push("block_comment");
    v.push("whitespace");
    v
}

/// Whether a node type is kept in the semantic tree on its own.
pub fn is_semantic(node_type: &str) -> (r: bool)
    ensures
        r == spec_is_semantic(node_type@),
{
    let names = semantic_type_list();
    let mut i: usize = 0;
    while i < names.len()
        invariant
            i <= names@.len(),
            names@.len() == semantic_types().len(),
            forall|j: int| 0 <= j < names@.len() ==> #[trigger] names@[j]@ == semantic_types()[j],
            forall|j: int| 0 <= j < i ==> semantic_types()[j] != node_type@,
        decreases names@.len() - i,
    {
        if str_eq(names[i], node_type) {
            assert(semantic_types()[i as int] == node_type@);
            return true;
        }
        i = i + 1;
    }
    false
}

/// Whether a node type is a (synchronous or asynchronous) function definition.
pub fn is_method_def(node_type: &str) -> (r: bool)
    ensures
        r == spec_is_method_def(node_type@),
{
    str_eq(node_type, "function_definition") || str_eq(node_type, "async_function_def")
}

} // verus!
