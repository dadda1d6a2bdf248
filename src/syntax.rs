//! The grammar parser and pattern query engine, as seen from verified code.
use tree_sitter::{Language, Parser, Query, QueryCursor, StreamingIterator};
use vstd::prelude::*;

verus! {

/// One node bound by a capture of a pattern: the capture's name and the node's
/// byte range in the parsed text.
pub struct RawCapture {
    pub name: String,
    pub start_byte: usize,
    pub end_byte: usize,
}

/// The captures that a pattern over the YAML grammar yields on a text, in the
/// order that the query engine yields them, as (capture name, start byte, end byte).
/// `None` where the grammar cannot be loaded, the pattern does not compile, or
/// the parser returns no tree.
pub uninterp spec fn yaml_query_captures(text: Seq<char>, pattern: Seq<char>) -> Option<
    Seq<(Seq<char>, int, int)>,
>;

pub open spec fn captures_view(v: Seq<RawCapture>) -> Seq<(Seq<char>, int, int)> {
    v.map_values(|c: RawCapture| (c.name@, c.start_byte as int, c.end_byte as int))
}

/// Relies on tree-sitter's `QueryCursor::matches`, run with `pattern` over the
/// tree that `Parser::parse` builds from `text` with tree-sitter-yaml's grammar:
/// the captures depend on the text and the pattern alone. With no timeout and
/// no cancellation set, loading the grammar and parsing do not fail on any
/// text, so whether the call fails depends on the pattern alone
/// (`Query::new`).
#[verifier::external_body]
pub(crate) fn run_yaml_query(text: &str, pattern: &str) -> (r: Option<Vec<RawCapture>>)
    ensures
        r matches Some(v) ==> yaml_query_captures(text@, pattern@) == Some(captures_view(v@)),
        r is None ==> yaml_query_captures(text@, pattern@) is None,
        r is None ==> forall|t: Seq<char>| (#[trigger] yaml_query_captures(t, pattern@)) is None,
        r is Some ==> forall|t: Seq<char>| (#[trigger] yaml_query_captures(t, pattern@)) is Some,
{
    let language: Language = tree_sitter_yaml::LANGUAGE.into();
    let mut parser = Parser::new();
    parser.set_language(&language).ok()?;
    let tree = parser.parse(text, None)?;
    let query = Query::new(&language, pattern).ok()?;
    let mut cursor = QueryCursor::new();
    let mut matches = cursor.matches(&query, tree.root_node(), text.as_bytes());
    let mut out = Vec::new();
    while let Some(m) = matches.next() {
        for c in m.captures {
            let name = query.capture_names()[c.index as usize].to_string();
            out.push(RawCapture { name, start_byte: c.node.start_byte(), end_byte: c.node.end_byte() });
        }
    }
    Some(out)
}

} // verus!
