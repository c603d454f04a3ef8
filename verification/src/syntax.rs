//! Where the bodies in a piece of source code lie.
use streaming_iterator::StreamingIterator;
use tree_sitter::{Language, Parser, Query, QueryCursor};
use vstd::prelude::*;

verus! {

/// A language whose source can be parsed.
#[derive(Debug, Clone, Copy, PartialEq, Eq, Structural)]
pub enum Grammar {
    Cpp,
    Python,
    Typescript,
    Tsx,
    Rust,
    Ruby,
}

/// The byte ranges that `QueryCursor::matches` of the `tree_sitter` crate captures
/// for a query in a text parsed with a grammar, in the order of the matches; `None`
/// where the grammar, the text or the query is refused.
pub uninterp spec fn query_captures(grammar: Grammar, source: Seq<char>, query: Seq<char>) -> Option<
    Seq<(usize, usize)>,
>;

/// `QueryCursor::matches` of the `tree_sitter` crate on the tree that `Parser::parse`
/// gives: the ranges of all captured nodes, under the name [`query_captures`].
#[verifier::external_body]
pub(crate) fn captured_ranges(grammar: Grammar, source: &str, query: &str) -> (r: Option<
    Vec<(usize, usize)>,
>)
    ensures
        r is Some <==> query_captures(grammar, source@, query@) is Some,
        r matches Some(v) ==> query_captures(grammar, source@, query@) == Some(v@),
{
    let language: Language = match grammar {
        Grammar::Cpp => tree_sitter_cpp::LANGUAGE,
        Grammar::Python => tree_sitter_python::LANGUAGE,
        Grammar::Typescript => tree_sitter_typescript::LANGUAGE_TYPESCRIPT,
        Grammar::Tsx => tree_sitter_typescript::LANGUAGE_TSX,
        Grammar::Rust => tree_sitter_rust::LANGUAGE,
        Grammar::Ruby => tree_sitter_ruby::LANGUAGE }.into();
    let mut parser = Parser::new();
    parser.set_language(&language).ok()?;
    let tree = parser.parse(source, None)?;
    let mut cursor = QueryCursor::new();
    let mut ranges = Vec::new();
    cursor.matches(&Query::new(&language, query).ok()?, tree.root_node(), source.as_bytes()).for_each(
        |m| ranges.extend(m.captures().iter().map(|c| (c.node.start_byte(), c.node.end_byte()))));
    Some(ranges)
}

} // verus!
