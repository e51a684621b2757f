//! Privacy-safe structural facts about definition nodes: counts, flags and
//! words from a fixed vocabulary, never source text, names or literals.

use vstd::prelude::*;
use crate::cst::{
    body_block, child_index_of_type, child_of_type, classify_body, spec_body_block, spec_body_class,
    subtree_any, subtree_contains, CstNode, Probe,
};
use crate::text::str_eq;
use crate::vocab::{is_method_def, spec_is_method_def};

verus! {

/// Structural facts about a function or class definition.
#[derive(Clone, Debug)]
pub struct NodeFacts {
    /// The number of parameters of a function.
    pub param_count: Option<u32>,
    /// Set for an `async def`.
    pub is_async: Option<bool>,
    /// `empty`, `stub` or `substantive`.
    pub body: Option<String>,
    /// `value` when some `return` hands back a value, else `none`.
    pub returns: Option<String>,
    /// Set for a function whose body yields.
    pub is_generator: Option<bool>,
}

/// The mathematical content of `NodeFacts`.
pub struct FactsView {
    pub param_count: Option<u32>,
    pub is_async: Option<bool>,
    pub body: Option<Seq<char>>,
    pub returns: Option<Seq<char>>,
    pub is_generator: Option<bool>,
}

/// The characters of an optional string.
pub open spec fn opt_view(s: Option<String>) -> Option<Seq<char>> {
    match s {
        Some(t) => Some(t@),
        None => None,
    }
}

impl View for NodeFacts {
    type V = FactsView;

    open spec fn view(&self) -> FactsView {
        FactsView {
            param_count: self.param_count,
            is_async: self.is_async,
            body: opt_view(self.body),
            returns: opt_view(self.returns),
            is_generator: self.is_generator,
        }
    }
}

/// Facts with nothing known.
pub open spec fn no_facts() -> FactsView {
    FactsView { param_count: None, is_async: None, body: None, returns: None, is_generator: None }
}

/// The facts of a function definition.
pub open spec fn function_facts(n: CstNode) -> FactsView {
    FactsView {
        param_count: match child_of_type(n, "parameters"@) {
            Some(p) => Some(p.children@.len() as u32),
            None => None,
        },
        is_async: if n.node_type@ == "async_function_def"@ {
            Some(true)
        } else {
            None
        },
        body: match spec_body_block(n) {
            Some(b) => Some(spec_body_class(b)),
            None => Some("empty"@),
        },
        returns: match spec_body_block(n) {
            Some(b) => if subtree_any(Probe::ValueReturn, b) {
                Some("value"@)
            } else {
                Some("none"@)
            },
            None => Some("none"@),
        },
        is_generator: match spec_body_block(n) {
            Some(b) => if subtree_any(Probe::Yield, b) {
                Some(true)
            } else {
                None
            },
            None => None,
        },
    }
}

/// The facts of a class definition: only how its body is classified.
pub open spec fn class_facts(n: CstNode) -> FactsView {
    FactsView {
        body: match spec_body_block(n) {
            Some(b) => Some(spec_body_class(b)),
            None => None,
        },
        ..no_facts()
    }
}

/// The facts computed for a node: those of a function or class definition,
/// and none for any other node.
pub open spec fn spec_node_facts(n: CstNode) -> FactsView {
    if spec_is_method_def(n.node_type@) {
        function_facts(n)
    } else if n.node_type@ == "class_definition"@ {
        class_facts(n)
    } else {
        no_facts()
    }
}

/// Compute the facts of a Python definition node from its full subtree
/// (only counts, words from a fixed vocabulary and flags).
pub fn python_node_facts(node: &CstNode) -> (facts: NodeFacts)
    ensures
        facts@ == spec_node_facts(*node),
{
    let mut facts = NodeFacts {
        param_count: None,
        is_async: None,
        body: None,
        returns: None,
        is_generator: None,
    };
    let t = node.node_type.as_str();
    if is_method_def(t) {
        if let Some(i) = child_index_of_type(node, "parameters") {
            facts.param_count = Some(node.children[i].children.len() as u32);
        }
        if str_eq(t, "async_function_def") {
            facts.is_async = Some(true);
        }
        if let Some(block) = body_block(node) {
            facts.body = Some(classify_body(block).to_owned());
            let returns_value = subtree_contains(block, &Probe::ValueReturn);
            let is_generator = subtree_contains(block, &Probe::Yield);
            facts.returns = Some(
                if returns_value {
                    "value"
                } else {
                    "none"
                }.to_owned(),
            );
            if is_generator {
                facts.is_generator = Some(true);
            }
        } else {
            facts.body = Some("empty".to_owned());
            facts.returns = Some("none".to_owned());
        }
    } else if str_eq(t, "class_definition") {
        if let Some(block) = body_block(node) {
            facts.body = Some(classify_body(block).to_owned());
        }
    }
    facts
}

} // verus!
