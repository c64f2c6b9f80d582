//! Syntax trees, from the `tree-sitter` crate and its grammars, as plain values.

use crate::text::{opt_view, views};
use tree_sitter::{Query, QueryCapture, QueryCursor, StreamingIterator};
use vstd::prelude::*;

verus! {

/// The grammars that files are parsed with.
#[derive(Debug, Clone, Copy, PartialEq, Eq, Structural)]
pub enum Grammar {
    Rust,
    CSharp,
    Python,
    Go,
    JavaScript,
    TypeScript,
    Tsx,
    Svelte,
    Bash,
    Yaml,
    Json,
    Markdown,
}

/// A node of a syntax tree.
pub struct SyntaxNode {
    /// The grammar's name for this kind of node.
    pub kind: String,
    /// The field of its parent that the node stands in.
    pub field: Option<String>,
    /// Distance from the root.
    pub depth: u32,
    pub start_row: u32,
    pub end_row: u32,
    pub start_byte: usize,
    pub end_byte: usize,
}

/// What `SyntaxNode` says, as mathematical values.
pub struct SyntaxNodeView {
    pub kind: Seq<char>,
    pub field: Option<Seq<char>>,
    pub depth: u32,
    pub start_row: u32,
    pub end_row: u32,
    pub start_byte: usize,
    pub end_byte: usize,
}

impl View for SyntaxNode {
    type V = SyntaxNodeView;

    open spec fn view(&self) -> SyntaxNodeView {
        SyntaxNodeView {
            kind: self.kind@,
            field: opt_view(self.field),
            depth: self.depth,
            start_row: self.start_row,
            end_row: self.end_row,
            start_byte: self.start_byte,
            end_byte: self.end_byte,
        }
    }
}

/// A node that a query captured.
pub struct Capture {
    /// The name of the capture in the query, without `@`.
    pub name: String,
    pub kind: String,
    pub start_row: u32,
    pub end_row: u32,
    pub start_byte: usize,
    pub end_byte: usize,
}

pub struct CaptureView {
    pub name: Seq<char>,
    pub kind: Seq<char>,
    pub start_row: u32,
    pub end_row: u32,
    pub start_byte: usize,
    pub end_byte: usize,
}

impl View for Capture {
    type V = CaptureView;

    open spec fn view(&self) -> CaptureView {
        CaptureView {
            name: self.name@,
            kind: self.kind@,
            start_row: self.start_row,
            end_row: self.end_row,
            start_byte: self.start_byte,
            end_byte: self.end_byte,
        }
    }
}

/// The captures of one match of a query, in order.
pub struct Match {
    pub captures: Vec<Capture>,
}

impl View for Match {
    type V = Seq<CaptureView>;

    open spec fn view(&self) -> Seq<CaptureView> {
        views(self.captures@)
    }
}

/// A parsed document.
#[verifier::external_type_specification]
#[verifier::external_body]
pub struct ExTree(tree_sitter::Tree);

/// Whether `tree-sitter` parses a text with a grammar.
pub uninterp spec fn parses(g: Grammar, text: Seq<char>) -> bool;

/// The nodes of the tree that `tree-sitter` makes of a text, each before its
/// children and these in order.
pub uninterp spec fn syntax_nodes(g: Grammar, text: Seq<char>) -> Seq<SyntaxNodeView>;

/// The matches of a query in the tree of a text, in the order `tree-sitter`
/// gives them; `None` where the query does not fit the grammar.
pub uninterp spec fn query_matches(g: Grammar, text: Seq<char>, query: Seq<char>) -> Option<Seq<Seq<CaptureView>>>;

/// The grammar and the text that a tree was made from.
pub uninterp spec fn tree_source(t: tree_sitter::Tree) -> (Grammar, Seq<char>);

/// `Parser::set_language` and `Parser::parse` make a tree of the text.
#[verifier::external_body]
pub(crate) fn parse(g: Grammar, text: &str) -> (r: Option<tree_sitter::Tree>)
    ensures
        r is Some == parses(g, text@),
        r matches Some(t) ==> tree_source(t) == (g, text@),
{
    let language: tree_sitter::Language = match g {
        Grammar::Rust => tree_sitter_rust::LANGUAGE, Grammar::CSharp => tree_sitter_c_sharp::LANGUAGE,
        Grammar::Python => tree_sitter_python::LANGUAGE, Grammar::Go => tree_sitter_go::LANGUAGE,
        Grammar::JavaScript => tree_sitter_javascript::LANGUAGE, Grammar::Bash => tree_sitter_bash::LANGUAGE,
        Grammar::TypeScript => tree_sitter_typescript::LANGUAGE_TYPESCRIPT,
        Grammar::Tsx => tree_sitter_typescript::LANGUAGE_TSX, Grammar::Svelte => tree_sitter_svelte_ng::LANGUAGE,
        Grammar::Yaml => tree_sitter_yaml::LANGUAGE, Grammar::Json => tree_sitter_json::LANGUAGE,
        Grammar::Markdown => tree_sitter_md::LANGUAGE,
    }.into();
    let mut parser = tree_sitter::Parser::new();
    parser.set_language(&language).ok()?;
    parser.parse(text, None)
}

/// `Node::descendant_count` of the root counts the nodes of the tree, the root
/// among them.
#[verifier::external_body]
pub(crate) fn node_count(t: &tree_sitter::Tree) -> (r: usize)
    ensures
        r == syntax_nodes(tree_source(*t).0, tree_source(*t).1).len(),
{
    t.root_node().descendant_count()
}

/// `TreeCursor::goto_descendant` moves to the node with that number, counted from
/// the root with each node before its children; what the cursor and the node say
/// there is taken over.
#[verifier::external_body]
pub(crate) fn node_at(t: &tree_sitter::Tree, i: usize) -> (r: SyntaxNode)
    requires
        i < syntax_nodes(tree_source(*t).0, tree_source(*t).1).len(),
    ensures
        r@ == syntax_nodes(tree_source(*t).0, tree_source(*t).1)[i as int],
{
    let mut cursor = t.walk();
    cursor.goto_descendant(i);
    SyntaxNode {
        kind: cursor.node().kind().to_owned(),
        field: cursor.field_name().map(|f| f.to_owned()),
        depth: cursor.depth(),
        start_row: cursor.node().start_position().row as u32,
        end_row: cursor.node().end_position().row as u32,
        start_byte: cursor.node().start_byte(),
        end_byte: cursor.node().end_byte(),
    }
}

/// `Query::new` compiles the query for the grammar of the tree, and
/// `QueryCursor::matches` runs it from the root; of each match the captured nodes
/// are taken over, with the names that `Query::capture_names` gives.
#[verifier::external_body]
pub(crate) fn run_query(t: &tree_sitter::Tree, text: &str, query: &str) -> (r: Option<Vec<Match>>)
    requires
        tree_source(*t).1 == text@,
    ensures
        r is Some == query_matches(tree_source(*t).0, text@, query@) is Some,
        r matches Some(v) ==> query_matches(tree_source(*t).0, text@, query@) == Some(views(v@)),
{
    let q = Query::new(&t.language(), query).ok()?;
    let mut cursor = QueryCursor::new();
    let mut found = Vec::new();
    let capture = |c: &QueryCapture| Capture {
        name: q.capture_names()[c.index as usize].to_owned(),
        kind: c.node.kind().to_owned(),
        start_row: c.node.start_position().row as u32,
        end_row: c.node.end_position().row as u32,
        start_byte: c.node.start_byte(),
        end_byte: c.node.end_byte(),
    };
    cursor.matches(&q, t.root_node(), text.as_bytes()).for_each(
        |m| found.push(Match { captures: m.captures().iter().map(capture).collect() }),
    );
    Some(found)
}

} // verus!
