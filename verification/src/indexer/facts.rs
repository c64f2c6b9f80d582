//! What extraction finds in a file besides its symbols.

use crate::graph::model::Language;
use crate::text::views;
use vstd::prelude::*;

verus! {

/// How a supertype relates to its child, as far as the syntax says.
#[derive(Debug, Clone, Copy, PartialEq, Eq, Structural)]
pub enum SuperHint {
    Inherits,
    Implements,
    /// The syntax does not say (C# base lists); the target's kind decides.
    Unknown,
}

/// A supertype relationship discovered in a file: `child` inherits from or
/// implements `supertype`.
#[derive(Debug, PartialEq, Eq)]
pub struct Supertype {
    pub child: String,
    pub supertype: String,
    pub hint: SuperHint,
}

pub struct SupertypeView {
    pub child: Seq<char>,
    pub supertype: Seq<char>,
    pub hint: SuperHint,
}

impl View for Supertype {
    type V = SupertypeView;

    open spec fn view(&self) -> SupertypeView {
        SupertypeView { child: self.child@, supertype: self.supertype@, hint: self.hint }
    }
}

/// A usage reference discovered in a file: the declaration `from` mentions `to`.
#[derive(Debug, PartialEq, Eq)]
pub struct Reference {
    /// Name of the enclosing declaration; empty at the top level.
    pub from: String,
    pub to: String,
}

pub struct ReferenceView {
    pub from: Seq<char>,
    pub to: Seq<char>,
}

impl View for Reference {
    type V = ReferenceView;

    open spec fn view(&self) -> ReferenceView {
        ReferenceView { from: self.from@, to: self.to@ }
    }
}

/// The imports of one file, to be resolved to packages.
pub struct FileImports {
    pub file_id: String,
    pub imports: Vec<String>,
    pub language: Language,
}

pub struct FileImportsView {
    pub file_id: Seq<char>,
    pub imports: Seq<Seq<char>>,
    pub language: Language,
}

impl View for FileImports {
    type V = FileImportsView;

    open spec fn view(&self) -> FileImportsView {
        FileImportsView { file_id: self.file_id@, imports: views(self.imports@), language: self.language }
    }
}

/// The supertypes of one file, to be resolved to symbols.
pub struct FileSupertypes {
    pub file: String,
    pub supers: Vec<Supertype>,
}

pub struct FileSupertypesView {
    pub file: Seq<char>,
    pub supers: Seq<SupertypeView>,
}

impl View for FileSupertypes {
    type V = FileSupertypesView;

    open spec fn view(&self) -> FileSupertypesView {
        FileSupertypesView { file: self.file@, supers: views(self.supers@) }
    }
}

/// The references of one file, to be resolved to symbols.
pub struct FileReferences {
    pub file: String,
    pub refs: Vec<Reference>,
}

pub struct FileReferencesView {
    pub file: Seq<char>,
    pub refs: Seq<ReferenceView>,
}

impl View for FileReferences {
    type V = FileReferencesView;

    open spec fn view(&self) -> FileReferencesView {
        FileReferencesView { file: self.file@, refs: views(self.refs@) }
    }
}

} // verus!
