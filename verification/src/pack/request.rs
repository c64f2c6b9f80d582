//! What a pack is asked for, and what it selects.

use crate::text::{ascii_lowercase, lower, same};
use vstd::prelude::*;

verus! {

/// Output format for a context pack.
#[derive(Debug, Clone, Copy, PartialEq, Eq, Structural)]
pub enum PackFormat {
    Markdown,
    Json,
}

impl PackFormat {
    /// What a (lowercase) format name stands for.
    pub open spec fn named(s: Seq<char>) -> Option<PackFormat> {
        if s == "markdown"@ || s == "md"@ {
            Some(PackFormat::Markdown)
        } else if s == "json"@ {
            Some(PackFormat::Json)
        } else {
            None
        }
    }

    /// Parse from a CLI/config string.
    pub fn from_str_opt(s: &str) -> (r: Option<PackFormat>)
        ensures
            r == PackFormat::named(lower(s@)),
    {
        let t = ascii_lowercase(s);
        let t = t.as_str();
        if same(t, "markdown") || same(t, "md") {
            Some(PackFormat::Markdown)
        } else if same(t, "json") {
            Some(PackFormat::Json)
        } else {
            None
        }
    }
}

/// How the pack was scoped.
#[derive(Debug, PartialEq, Eq)]
pub enum PackMode {
    Changed,
    Path(String),
    Symbol(String),
    Query(String),
}

impl PackMode {
    pub open spec fn label_text(self) -> Seq<char> {
        match self {
            PackMode::Changed => "changed"@,
            PackMode::Path(_) => "path"@,
            PackMode::Symbol(_) => "symbol"@,
            PackMode::Query(_) => "query"@,
        }
    }

    pub open spec fn asked(self) -> Seq<char> {
        match self {
            PackMode::Changed => "(changed files)"@,
            PackMode::Path(p) => p@,
            PackMode::Symbol(s) => s@,
            PackMode::Query(q) => q@,
        }
    }

    pub fn label(&self) -> (r: &'static str)
        ensures
            r@ == self.label_text(),
    {
        match self {
            PackMode::Changed => "changed",
            PackMode::Path(_) => "path",
            PackMode::Symbol(_) => "symbol",
            PackMode::Query(_) => "query",
        }
    }

    pub fn query_text(&self) -> (r: String)
        ensures
            r@ == self.asked(),
    {
        match self {
            PackMode::Changed => "(changed files)".to_owned(),
            PackMode::Path(p) => p.clone(),
            PackMode::Symbol(s) => s.clone(),
            PackMode::Query(q) => q.clone(),
        }
    }
}

/// A fully-resolved pack request.
#[derive(Debug)]
pub struct PackRequest {
    pub mode: PackMode,
    pub budget: usize,
    pub depth: usize,
    pub include_tests: bool,
    pub include_config: bool,
    pub include_diff: bool,
    pub dry_run: bool,
    pub explain: bool,
    pub format: PackFormat,
}

/// A file selected for inclusion, with its reason and estimated cost.
#[derive(Debug, PartialEq, Eq)]
pub struct SelectedFile {
    pub path: String,
    pub reason: String,
    /// Ranking tier (lower = higher priority).
    pub tier: u8,
    pub estimated_tokens: usize,
    /// Whether the file fits the budget (false when budget-trimmed).
    pub included: bool,
}

/// What `SelectedFile` says, as mathematical values.
pub struct SelectedView {
    pub path: Seq<char>,
    pub reason: Seq<char>,
    pub tier: u8,
    pub estimated_tokens: usize,
    pub included: bool,
}

impl View for SelectedFile {
    type V = SelectedView;

    open spec fn view(&self) -> SelectedView {
        SelectedView {
            path: self.path@,
            reason: self.reason@,
            tier: self.tier,
            estimated_tokens: self.estimated_tokens,
            included: self.included,
        }
    }
}

impl Clone for SelectedFile {
    fn clone(&self) -> (r: Self)
        ensures
            r@ == self@,
    {
        SelectedFile {
            path: self.path.clone(),
            reason: self.reason.clone(),
            tier: self.tier,
            estimated_tokens: self.estimated_tokens,
            included: self.included,
        }
    }
}

} // verus!
