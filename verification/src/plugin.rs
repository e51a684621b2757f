//! The parser plugin's answers to its host: its mode, grammar, languages,
//! file detection, example, trivia, and the two steps of processing a file.

use vstd::prelude::*;
use crate::cst::CstNode;
use crate::semantic::{convert, convert_spec, hashes_fit, opt_tree_view, NodeHashes, SemanticNode};
use crate::syntax::{cst_view, parse_source, spec_parse};
use crate::text::{ends_with, has_suffix, push_str};
use crate::vocab::{trivia_type_list, trivia_types};

verus! {

/// How a parser plugin works: this one parses whole files itself.
pub enum ParserMode {
    FullParse,
}

/// A before/after pair of source files that shows what the plugin does.
pub struct ExamplePair {
    pub old: String,
    pub new: String,
}

/// What the plugin's metadata says of one language.
pub struct LanguageInfo {
    pub language_id: String,
    pub language_name: String,
    pub language_short_name: String,
    pub monaco_language: String,
    pub default_filename: String,
    pub language_file_extensions: Vec<String>,
}

/// What the plugin reports of one language it handles.
pub struct LanguageInfoRecord {
    pub language_id: String,
    pub language_name: String,
    pub language_short_name: String,
    pub monaco_language: String,
    pub default_filename: String,
    pub language_file_extensions: Vec<String>,
    pub author: String,
    pub plugin_version: String,
    pub last_updated: String,
}

/// The Python parser plugin.
pub struct PythonParser;

/// The id of the grammar the plugin parses with.
pub open spec fn spec_grammar_id() -> Seq<char> {
    "python"@
}

/// The ids of the languages the plugin handles.
pub open spec fn spec_language_ids() -> Seq<Seq<char>> {
    seq![spec_grammar_id()]
}

/// Whether a file name marks a Python file: it ends in `.py` or `.pyi`.
pub open spec fn is_python_file_name(name: Seq<char>) -> bool {
    has_suffix(name, ".py"@) || has_suffix(name, ".pyi"@)
}

/// The language detected for a file name: the grammar id for a Python file,
/// else nothing (the empty string).
pub open spec fn spec_detect_language(name: Seq<char>) -> Seq<char> {
    if is_python_file_name(name) {
        spec_grammar_id()
    } else {
        Seq::empty()
    }
}

/// The reply that reports a failure: `{"error":"<message>"}`.
pub open spec fn spec_error_json(message: Seq<char>) -> Seq<char> {
    "{\"error\":\""@ + message + "\"}"@
}

/// The message for a file in which nothing is semantic.
pub open spec fn empty_tree_message() -> Seq<char> {
    "Empty semantic tree"@
}

/// The old side of the example.
pub open spec fn example_old() -> Seq<char> {
    "def greet(name):\n    print(\"Hello, \" + name)\n\ndef add(a, b):\n    return a + b\n\nclass Counter:\n    def __init__(self):\n        self.count = 0\n\n    def increment(self):\n        self.count += 1\n"@
}

/// The new side of the example.
pub open spec fn example_new() -> Seq<char> {
    "def greet(name: str) -> None:\n    print(f\"Hello, {name}\")\n\ndef add(x: int, y: int) -> int:\n    return x + y\n\nclass Counter:\n    def __init__(self) -> None:\n        self.count: int = 0\n\n    def increment(self) -> None:\n        self.count += 1\n"@
}

/// The reply that reports a failure: `{"error":"<message>"}`, with the
/// message as it is.
pub fn error_json(message: &str) -> (r: String)
    ensures
        r@ == spec_error_json(message@),
{
    let mut r = "{\"error\":\"".to_owned();
    push_str(&mut r, message);
    push_str(&mut r, "\"}");
    r
}

/// The record reported for one language: what the metadata says of it, and
/// the plugin's author, version and date.
pub open spec fn record_matches(
    r: LanguageInfoRecord,
    info: LanguageInfo,
    author: Seq<char>,
    plugin_version: Seq<char>,
    last_updated: Seq<char>,
) -> bool {
    &&& r.language_id == info.language_id
    &&& r.language_name == info.language_name
    &&& r.language_short_name == info.language_short_name
    &&& r.monaco_language == info.monaco_language
    &&& r.default_filename == info.default_filename
    &&& r.language_file_extensions == info.language_file_extensions
    &&& r.author@ == author
    &&& r.plugin_version@ == plugin_version
    &&& r.last_updated@ == last_updated
}

/// The records reported for the languages whose metadata is `infos`, in order.
pub fn language_info_for(
    infos: Vec<LanguageInfo>,
    author: &str,
    plugin_version: &str,
    last_updated: &str,
) -> (r: Vec<LanguageInfoRecord>)
    ensures
        r@.len() == infos@.len(),
        forall|i: int|
            0 <= i < r@.len() ==> record_matches(
                #[trigger] r@[i],
                infos@[i],
                author@,
                plugin_version@,
                last_updated@,
            ),
{
    let mut infos = infos;
    let ghost all = infos@;
    let mut out: Vec<LanguageInfoRecord> = Vec::new();
    while infos.len() > 0
        invariant
            out@.len() + infos@.len() == all.len(),
            infos@ == all.subrange(out@.len() as int, all.len() as int),
            forall|i: int|
                0 <= i < out@.len() ==> record_matches(
                    #[trigger] out@[i],
                    all[i],
                    author@,
                    plugin_version@,
                    last_updated@,
                ),
        decreases infos@.len(),
    {
        let info = infos.remove(0);
        let ghost k = out@.len() as int;
        assert(info == all[k]);
        out.push(
            LanguageInfoRecord {
                language_id: info.language_id,
                language_name: info.language_name,
                language_short_name: info.language_short_name,
                monaco_language: info.monaco_language,
                default_filename: info.default_filename,
                language_file_extensions: info.language_file_extensions,
                author: author.to_owned(),
                plugin_version: plugin_version.to_owned(),
                last_updated: last_updated.to_owned(),
            },
        );
        assert(infos@ =~= all.subrange(out@.len() as int, all.len() as int));
    }
    out
}

/// Parsing, the first step of processing a file: the syntax tree, or the
/// reply that reports why there is none. Parsing Python source always
/// succeeds, so the result is the source's syntax tree.
pub fn process_parse(source: &str) -> (r: Result<CstNode, String>)
    ensures
        r matches Ok(c) && cst_view(c) == spec_parse(source@),
{
    match parse_source(source) {
        Ok(c) => Ok(c),
        Err(e) => Err(error_json(e.as_str())),
    }
}

/// The second step of processing a file: its semantic tree, rooted at id
/// `0`, or the reply that reports that nothing in it is semantic.
pub fn process_tree(root: &CstNode, hashes: &NodeHashes) -> (r: Result<SemanticNode, String>)
    requires
        hashes_fit(*root, *hashes),
    ensures
        match convert_spec(*root, *hashes, "0"@, None) {
            Some(v) => r matches Ok(t) && opt_tree_view(Some(t)) == Some(v),
            None => r matches Err(e) && e@ == spec_error_json(empty_tree_message()),
        },
{
    match convert(root, hashes, "0", None) {
        Some(t) => Ok(t),
        None => Err(error_json("Empty semantic tree")),
    }
}

impl PythonParser {
    /// The plugin parses whole files itself.
    pub fn get_parser_mode() -> (r: ParserMode)
        ensures
            r is FullParse,
    {
        ParserMode::FullParse
    }

    /// The id of the grammar: `python`.
    pub fn grammar_id() -> (r: String)
        ensures
            r@ == spec_grammar_id(),
    {
        "python".to_owned()
    }

    /// The language of a file, from its name alone: `python` for a name
    /// ending in `.py` or `.pyi`, else the empty string.
    pub fn detect_language(filename: String, _content: String) -> (r: String)
        ensures
            r@ == spec_detect_language(filename@),
    {
        if ends_with(filename.as_str(), ".py") || ends_with(filename.as_str(), ".pyi") {
            "python".to_owned()
        } else {
            String::new()
        }
    }

    /// The source as it is: Python needs no preprocessing.
    pub fn preprocess_source(source: String) -> (r: String)
        ensures
            r == source,
    {
        source
    }

    /// A before/after pair that adds type annotations to a small module.
    pub fn example(_language: String) -> (r: ExamplePair)
        ensures
            r.old@ == example_old(),
            r.new@ == example_new(),
    {
        ExamplePair {
            old: "def greet(name):\n    print(\"Hello, \" + name)\n\ndef add(a, b):\n    return a + b\n\nclass Counter:\n    def __init__(self):\n        self.count = 0\n\n    def increment(self):\n        self.count += 1\n".to_owned(),
            new: "def greet(name: str) -> None:\n    print(f\"Hello, {name}\")\n\ndef add(x: int, y: int) -> int:\n    return x + y\n\nclass Counter:\n    def __init__(self) -> None:\n        self.count: int = 0\n\n    def increment(self) -> None:\n        self.count += 1\n".to_owned(),
        }
    }

    /// The node types that the host strips as trivia.
    pub fn trivia_node_types() -> (r: Vec<String>)
        ensures
            r@.len() == trivia_types().len(),
            forall|i: int| 0 <= i < r@.len() ==> #[trigger] r@[i]@ == trivia_types()[i],
    {
        let names = trivia_type_list();
        let mut out: Vec<String> = Vec::new();
        let mut i: usize = 0;
        while i < names.len()
            invariant
                i <= names@.len(),
                names@.len() == trivia_types().len(),
                forall|j: int| 0 <= j < names@.len() ==> #[trigger] names@[j]@ == trivia_types()[j],
                out@.len() == i,
                forall|j: int| 0 <= j < i ==> #[trigger] out@[j]@ == trivia_types()[j],
            decreases names@.len() - i,
        {
            out.push(names[i].to_owned());
            i = i + 1;
        }
        out
    }

    /// The languages the plugin handles: `python` alone.
    pub fn language_ids() -> (r: Vec<String>)
        ensures
            r@.len() == spec_language_ids().len(),
            forall|i: int| 0 <= i < r@.len() ==> #[trigger] r@[i]@ == spec_language_ids()[i],
    {
        let mut v: Vec<String> = Vec::new();
        v.push("python".to_owned());
        v
    }

    /// The plugin's priority among plugins for the same language.
    pub fn priority() -> (r: i32)
        ensures
            r == 0,
    {
        0
    }
}

} // verus!
