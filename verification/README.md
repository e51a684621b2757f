# intentumdiff_python_parser

The Python parser of a semantic-diff plugin, verified with Verus. It parses
Python source with tree-sitter, reads the grammar's tree into plain values
(`GrammarNode`), converts that into a concrete syntax tree (`syntax`), prunes that tree to its semantic nodes with path ids,
structural hashes and enclosing classes (`semantic`), and attaches structural
facts to function and class definitions (`facts`, over the questions in
`cst`). `plugin` answers the host's other questions; `laws` proves properties
of the whole. `app/` holds what depends on the plugin SDK (structural hashes,
metadata) and the JSON serialisation of the tree.
