use intentumdiff_python_parser::cst::CstNode;
use intentumdiff_python_parser::facts::NodeFacts;
use intentumdiff_python_parser::plugin::PythonParser;
use intentumdiff_python_parser::semantic::{convert, NodeHashes, SemanticNode};
use intentumdiff_python_parser::syntax::parse_source;

/// A hash tree of the shape of `node`, each hash naming the node's type.
fn hashes_for(node: &CstNode) -> NodeHashes {
    NodeHashes {
        hash: format!("h:{}", node.node_type),
        children: node.children.iter().map(hashes_for).collect(),
    }
}

/// Find the first node of a given type in a built SemanticNode tree.
fn find<'a>(node: &'a SemanticNode, node_type: &str) -> Option<&'a SemanticNode> {
    if node.node_type == node_type {
        return Some(node);
    }
    node.children.iter().find_map(|c| find(c, node_type))
}

fn semantic_tree(source: &str) -> SemanticNode {
    let root = parse_source(source).expect("parse");
    let hashes = hashes_for(&root);
    convert(&root, &hashes, "0", None).expect("semantic tree")
}

fn facts_of(source: &str, node_type: &str) -> NodeFacts {
    let sem = semantic_tree(source);
    find(&sem, node_type)
        .and_then(|n| n.facts.clone())
        .unwrap_or_else(|| panic!("no facts on {node_type}"))
}

#[test]
fn grammar_id_nonempty() {
    assert!(!PythonParser::grammar_id().is_empty());
}

#[test]
fn language_ids_contain_grammar_id() {
    let gid = PythonParser::grammar_id();
    let ids = PythonParser::language_ids();
    assert!(
        ids.contains(&gid),
        "language_ids {:?} must contain {:?}",
        ids,
        gid
    );
}

#[test]
fn detect_language_known_ext() {
    let r = PythonParser::detect_language("test.py".to_string(), "".to_string());
    assert_eq!(r.as_str(), "python");
}

#[test]
fn detect_language_unknown_ext() {
    let r =
        PythonParser::detect_language("test.xyz_notareal_ext_9z8y".to_string(), "".to_string());
    assert_eq!(r.as_str(), "");
}

#[test]
fn noop_stub_has_no_params_returns_none_and_stub_body() {
    let facts = facts_of("def ccc():\n    pass\n", "function_definition");
    assert_eq!(facts.param_count, Some(0), "def ccc() takes no parameters");
    assert_eq!(facts.returns.as_deref(), Some("none"));
    assert_eq!(facts.body.as_deref(), Some("stub"));
}

#[test]
fn async_def_surfaces_as_async_function_def_with_is_async_fact() {
    let facts = facts_of("async def f():\n    return 1\n", "async_function_def");
    assert_eq!(facts.is_async, Some(true));
    let sem = semantic_tree("def f():\n    return 1\n");
    assert!(find(&sem, "async_function_def").is_none());
    assert!(find(&sem, "function_definition").is_some());
}

#[test]
fn ellipsis_and_docstring_bodies_are_stubs() {
    assert_eq!(
        facts_of("def a():\n    ...\n", "function_definition").body.as_deref(),
        Some("stub")
    );
    assert_eq!(
        facts_of("def a():\n    \"\"\"docs\"\"\"\n", "function_definition").body.as_deref(),
        Some("stub")
    );
    assert_eq!(
        facts_of("def a():\n    raise NotImplementedError\n", "function_definition")
            .body
            .as_deref(),
        Some("stub")
    );
}

#[test]
fn substantive_function_reports_params_and_value_return() {
    let facts = facts_of("def add(a, b):\n    return a + b\n", "function_definition");
    assert_eq!(facts.param_count, Some(2));
    assert_eq!(facts.returns.as_deref(), Some("value"));
    assert_eq!(facts.body.as_deref(), Some("substantive"));
}

#[test]
fn generator_and_bare_return_are_detected() {
    let gen = facts_of("def g():\n    yield 1\n", "function_definition");
    assert_eq!(gen.is_generator, Some(true));
    let bare = facts_of("def f(x):\n    x += 1\n    return\n", "function_definition");
    assert_eq!(bare.returns.as_deref(), Some("none"), "bare return yields None");
}

#[test]
fn definition_facts_serialize_and_non_definitions_have_none() {
    let sem = semantic_tree("x = 1\ndef ccc():\n    pass\n");
    // A non-definition (assignment) carries no facts.
    assert!(find(&sem, "assignment").and_then(|n| n.facts.clone()).is_none());
    // The facts that the serialised tree carries.
    let facts = find(&sem, "function_definition").and_then(|n| n.facts.clone()).expect("facts");
    assert_eq!(facts.body.as_deref(), Some("stub"));
}
