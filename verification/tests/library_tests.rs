use intentumdiff_python_parser::cst::{classify_body, is_trivial_stmt, label_for, CstNode};
use intentumdiff_python_parser::facts::python_node_facts;
use intentumdiff_python_parser::plugin::{
    error_json, language_info_for, process_parse, process_tree, LanguageInfo, ParserMode,
    PythonParser,
};
use intentumdiff_python_parser::semantic::{convert, NodeHashes, SemanticNode};
use intentumdiff_python_parser::syntax::{cst_node_type, leaf_text, node_to_cst, parse_source, GrammarNode};
use intentumdiff_python_parser::text::{ends_with, push_decimal, str_eq};
use intentumdiff_python_parser::vocab::{is_method_def, is_semantic};

fn node(t: &str, text: Option<&str>, children: Vec<CstNode>) -> CstNode {
    CstNode {
        node_type: t.to_string(),
        named: true,
        text: text.map(|s| s.to_string()),
        start_line: 1,
        start_col: 2,
        end_line: 3,
        end_col: 4,
        children,
    }
}

fn leaf(t: &str, text: &str) -> CstNode {
    node(t, Some(text), vec![])
}

fn hashes_for(n: &CstNode) -> NodeHashes {
    NodeHashes {
        hash: format!("#{}", n.node_type),
        children: n.children.iter().map(hashes_for).collect(),
    }
}

fn tree_of(source: &str) -> SemanticNode {
    let root = parse_source(source).expect("parse");
    convert(&root, &hashes_for(&root), "0", None).expect("tree")
}

fn find<'a>(n: &'a SemanticNode, t: &str) -> Option<&'a SemanticNode> {
    if n.node_type == t {
        return Some(n);
    }
    n.children.iter().find_map(|c| find(c, t))
}

fn find_all<'a>(n: &'a SemanticNode, t: &str, out: &mut Vec<&'a SemanticNode>) {
    if n.node_type == t {
        out.push(n);
    }
    for c in &n.children {
        find_all(c, t, out);
    }
}

fn every_node(n: &SemanticNode, f: &dyn Fn(&SemanticNode) -> bool) -> bool {
    f(n) && n.children.iter().all(|c| every_node(c, f))
}

#[test]
fn text_helpers_compare_by_characters() {
    assert!(str_eq("héllo", "héllo"));
    assert!(!str_eq("héllo", "hello"));
    assert!(ends_with("mod.pyi", ".pyi"));
    assert!(!ends_with("py", ".py"));
    assert!(ends_with("x", ""));
}

#[test]
fn decimal_numerals() {
    let mut s = String::from("0.");
    push_decimal(&mut s, 0);
    assert_eq!(s, "0.0");
    let mut s = String::new();
    push_decimal(&mut s, 1234);
    assert_eq!(s, "1234");
    let mut s = String::new();
    push_decimal(&mut s, 10);
    assert_eq!(s, "10");
}

#[test]
fn leaf_text_is_cut_to_4096_characters() {
    let long = "é".repeat(5000);
    let t = leaf_text(long.as_bytes(), 0, long.len());
    assert_eq!(t.chars().count(), 4096);
    assert!(t.chars().all(|c| c == 'é'));
    let short = "abcdef";
    assert_eq!(leaf_text(short.as_bytes(), 1, 4), "bcd");
}

#[test]
fn leaf_text_of_a_bad_span_is_empty() {
    let s = "é";
    // a span that splits a character is not UTF-8
    assert_eq!(leaf_text(s.as_bytes(), 0, 1), "");
    // a span outside the source
    assert_eq!(leaf_text(s.as_bytes(), 1, 9), "");
    assert_eq!(leaf_text(s.as_bytes(), 2, 1), "");
}

#[test]
fn async_keyword_renames_function_definitions_only() {
    assert_eq!(cst_node_type("function_definition", Some("async")), "async_function_def");
    assert_eq!(cst_node_type("function_definition", Some("def")), "function_definition");
    assert_eq!(cst_node_type("function_definition", None), "function_definition");
    assert_eq!(cst_node_type("with_statement", Some("async")), "with_statement");
}

#[test]
fn vocabulary() {
    assert!(is_semantic("module"));
    assert!(is_semantic("pass_statement"));
    assert!(is_semantic("type_annotation"));
    assert!(!is_semantic("comment"));
    assert!(!is_semantic("block"));
    assert!(is_method_def("function_definition"));
    assert!(is_method_def("async_function_def"));
    assert!(!is_method_def("class_definition"));
}

#[test]
fn labels() {
    assert_eq!(label_for(&leaf("identifier", "x")), "x");
    assert_eq!(label_for(&node("identifier", None, vec![])), "");
    let f = node(
        "function_definition",
        None,
        vec![leaf("string", "s"), leaf("identifier", "f"), leaf("identifier", "g")],
    );
    assert_eq!(label_for(&f), "f");
    let c = node("call", None, vec![leaf("string", "s")]);
    assert_eq!(label_for(&c), "call");
}

#[test]
fn body_classification() {
    assert_eq!(classify_body(&node("block", None, vec![])), "empty");
    let pass = leaf("pass_statement", "pass");
    let doc = node("expression_statement", None, vec![leaf("string", "\"d\"")]);
    let raise = node(
        "raise_statement",
        None,
        vec![leaf("identifier", "NotImplementedError")],
    );
    assert!(is_trivial_stmt(&pass));
    assert!(is_trivial_stmt(&doc));
    assert!(is_trivial_stmt(&raise));
    assert!(!is_trivial_stmt(&node("expression_statement", None, vec![])));
    assert!(!is_trivial_stmt(&node("raise_statement", None, vec![leaf("identifier", "ValueError")])));
    assert_eq!(classify_body(&node("block", None, vec![pass, doc, raise])), "stub");
    let call = node("expression_statement", None, vec![node("call", None, vec![])]);
    assert_eq!(classify_body(&node("block", None, vec![leaf("pass_statement", "pass"), call])), "substantive");
}

#[test]
fn facts_of_functions_without_body_and_of_classes() {
    let f = node("function_definition", None, vec![leaf("identifier", "f")]);
    let facts = python_node_facts(&f);
    assert_eq!(facts.body.as_deref(), Some("empty"));
    assert_eq!(facts.returns.as_deref(), Some("none"));
    assert_eq!(facts.param_count, None);
    assert_eq!(facts.is_async, None);
    assert_eq!(facts.is_generator, None);
    let c = node(
        "class_definition",
        None,
        vec![leaf("identifier", "C"), node("block", None, vec![leaf("pass_statement", "pass")])],
    );
    let facts = python_node_facts(&c);
    assert_eq!(facts.body.as_deref(), Some("stub"));
    assert_eq!(facts.returns, None);
    assert_eq!(facts.param_count, None);
    let other = python_node_facts(&leaf("identifier", "x"));
    assert!(other.body.is_none() && other.returns.is_none() && other.param_count.is_none());
}

#[test]
fn error_replies() {
    assert_eq!(error_json("Parse failed"), "{\"error\":\"Parse failed\"}");
    let comment = leaf("comment", "# hi");
    let root = node("source", None, vec![comment]);
    match process_tree(&root, &hashes_for(&root)) {
        Err(e) => assert_eq!(e, "{\"error\":\"Empty semantic tree\"}"),
        Ok(_) => panic!("nothing semantic"),
    }
}

#[test]
fn processing_an_empty_file_gives_a_module() {
    let root = process_parse("").expect("parse");
    let tree = process_tree(&root, &hashes_for(&root)).expect("tree");
    assert_eq!(tree.node_type, "module");
    assert_eq!(tree.id, "0");
    assert!(tree.children.is_empty());
    let root = process_parse("   \n  ").expect("parse");
    assert!(process_tree(&root, &hashes_for(&root)).is_ok());
}

#[test]
fn ids_are_paths_of_syntax_indices() {
    let a = leaf("identifier", "a");
    let noise = leaf("comment", "#");
    let inner = node("block", None, vec![noise, leaf("pass_statement", "pass")]);
    let root = node("module", None, vec![a, inner]);
    let t = convert(&root, &hashes_for(&root), "7", None).unwrap();
    assert_eq!(t.id, "7");
    assert_eq!(t.children.len(), 2);
    assert_eq!(t.children[0].id, "7.0");
    assert_eq!(t.children[1].id, "7.1");
    assert_eq!(t.children[1].node_type, "block");
    // the comment is pruned, the pass statement keeps its syntax index
    assert_eq!(t.children[1].children.len(), 1);
    assert_eq!(t.children[1].children[0].id, "7.1.1");
    assert_eq!(t.children[1].hash, "#block");
    assert_eq!((t.start_line, t.start_col, t.end_line, t.end_col), (1, 2, 3, 4));
}

#[test]
fn methods_carry_their_enclosing_class() {
    let t = tree_of(
        "class Counter:\n    def inc(self):\n        pass\n\ndef free():\n    pass\n",
    );
    let mut fns = Vec::new();
    find_all(&t, "function_definition", &mut fns);
    assert_eq!(fns.len(), 2);
    assert_eq!(fns[0].label, "inc");
    assert_eq!(fns[0].parent_type.as_deref(), Some("Counter"));
    assert_eq!(fns[1].label, "free");
    assert_eq!(fns[1].parent_type, None);
    let class = find(&t, "class_definition").unwrap();
    assert_eq!(class.label, "Counter");
    assert_eq!(class.parent_type, None);
    assert_eq!(class.facts.as_ref().unwrap().body.as_deref(), Some("substantive"));
}

#[test]
fn semantic_tree_shape_holds_on_a_sample() {
    let t = tree_of(
        "import os\n# note\nclass A:\n    \"\"\"doc\"\"\"\n    async def f(self, x):\n        yield x\n\nfor i in range(3):\n    print(i)\n",
    );
    assert!(every_node(&t, &|n| n.facts.is_some()
        == (n.node_type == "function_definition"
            || n.node_type == "async_function_def"
            || n.node_type == "class_definition")));
    assert!(every_node(&t, &|n| n.parent_type.is_none()
        || n.node_type == "function_definition"
        || n.node_type == "async_function_def"));
    assert!(every_node(&t, &|n| is_semantic(&n.node_type) || !n.children.is_empty()));
    assert!(find(&t, "comment").is_none());
    let f = find(&t, "async_function_def").unwrap();
    assert_eq!(f.parent_type.as_deref(), Some("A"));
    let facts = f.facts.as_ref().unwrap();
    assert_eq!(facts.is_async, Some(true));
    assert_eq!(facts.is_generator, Some(true));
    assert_eq!(facts.param_count, Some(2));
}

#[test]
fn leaves_keep_their_text_and_positions() {
    let root = parse_source("x = 1\n").unwrap();
    assert_eq!(root.node_type, "module");
    assert!(root.text.is_none());
    let assignment = &root.children[0].children[0];
    assert_eq!(assignment.node_type, "assignment");
    let x = &assignment.children[0];
    assert_eq!(x.text.as_deref(), Some("x"));
    assert_eq!((x.start_line, x.start_col, x.end_line, x.end_col), (0, 0, 0, 1));
    let one = &assignment.children[1];
    assert_eq!(one.node_type, "integer");
    assert_eq!(one.text.as_deref(), Some("1"));
}

#[test]
fn plugin_answers() {
    assert!(matches!(PythonParser::get_parser_mode(), ParserMode::FullParse));
    assert_eq!(PythonParser::detect_language("stubs.pyi".to_string(), String::new()), "python");
    assert_eq!(PythonParser::detect_language("py".to_string(), String::new()), "");
    assert_eq!(PythonParser::detect_language("a.py.txt".to_string(), String::new()), "");
    assert_eq!(PythonParser::preprocess_source("x=1".to_string()), "x=1");
    assert_eq!(PythonParser::priority(), 0);
    assert_eq!(
        PythonParser::trivia_node_types(),
        vec!["comment", "line_comment", "block_comment", "whitespace"]
    );
    assert_eq!(PythonParser::language_ids(), vec!["python"]);
    let ex = PythonParser::example("python".to_string());
    assert!(ex.old.starts_with("def greet(name):\n"));
    assert!(ex.new.starts_with("def greet(name: str) -> None:\n"));
    assert!(parse_source(&ex.old).is_ok() && parse_source(&ex.new).is_ok());
}

#[test]
fn language_records_copy_metadata_and_plugin_details() {
    let info = LanguageInfo {
        language_id: "python".to_string(),
        language_name: "Python".to_string(),
        language_short_name: "py".to_string(),
        monaco_language: "python".to_string(),
        default_filename: "main.py".to_string(),
        language_file_extensions: vec![".py".to_string(), ".pyi".to_string()],
    };
    let records = language_info_for(vec![info], "someone", "1.2.3", "2024-01-01");
    assert_eq!(records.len(), 1);
    let r = &records[0];
    assert_eq!(r.language_name, "Python");
    assert_eq!(r.default_filename, "main.py");
    assert_eq!(r.language_file_extensions, vec![".py", ".pyi"]);
    assert_eq!(r.author, "someone");
    assert_eq!(r.plugin_version, "1.2.3");
    assert_eq!(r.last_updated, "2024-01-01");
    assert!(language_info_for(vec![], "a", "b", "c").is_empty());
}

fn gnode(kind: &str, named: bool, bytes: (usize, usize), children: Vec<GrammarNode>) -> GrammarNode {
    GrammarNode {
        kind: kind.to_string(),
        named,
        start_byte: bytes.0,
        end_byte: bytes.1,
        start_row: 0,
        start_column: bytes.0,
        end_row: 0,
        end_column: bytes.1,
        children,
    }
}

#[test]
fn grammar_nodes_keep_named_children_in_order() {
    let source = "async def f(): pass";
    let tree = gnode(
        "function_definition",
        true,
        (0, 19),
        vec![
            gnode("async", false, (0, 5), vec![]),
            gnode("def", false, (6, 9), vec![]),
            gnode("identifier", true, (10, 11), vec![]),
            gnode("parameters", true, (11, 13), vec![gnode("(", false, (11, 12), vec![])]),
            gnode(":", false, (13, 14), vec![]),
            gnode("block", true, (15, 19), vec![gnode("pass_statement", true, (15, 19), vec![])]),
        ],
    );
    let c = node_to_cst(&tree, source.as_bytes());
    assert_eq!(c.node_type, "async_function_def");
    assert!(c.text.is_none());
    let kinds: Vec<&str> = c.children.iter().map(|k| k.node_type.as_str()).collect();
    assert_eq!(kinds, vec!["identifier", "parameters", "block"]);
    assert_eq!(c.children[0].text.as_deref(), Some("f"));
    // a node whose children are all anonymous is a leaf
    assert_eq!(c.children[1].text.as_deref(), Some("()"));
    assert!(c.children[2].text.is_none());
    assert_eq!(c.children[2].children[0].text.as_deref(), Some("pass"));
    assert_eq!((c.children[2].start_col, c.children[2].end_col), (15, 19));
    let sync = gnode("function_definition", true, (0, 3), vec![gnode("def", false, (0, 3), vec![])]);
    assert_eq!(node_to_cst(&sync, b"def").node_type, "function_definition");
}

#[test]
fn parsing_python_reports_async_definitions() {
    let root = parse_source("async def f():\n    return 1\n").unwrap();
    assert_eq!(root.children[0].node_type, "async_function_def");
    let root = parse_source("def f():\n    return 1\n").unwrap();
    assert_eq!(root.children[0].node_type, "function_definition");
}
