//! Structured compilation errors. Every error carries the identifier or
//! path of the schema construct that caused it, so the host can report it
//! to the schema author verbatim.
use vstd::prelude::*;

verus! {

/// Why compiling a grammar group failed.
#[derive(Debug, Clone, PartialEq, Eq)]
pub enum CompileError {
    /// A field routed to the pattern extractor has no usable pattern:
    /// its leaf annotation is absent, lacks a pattern parameter, or
    /// supplies a pattern that is not a string literal. Carries the
    /// field's fully qualified identity path.
    MalformedLeafSpec(String),
    /// Two schema entities compiled to the same rule identifier.
    DuplicateRuleName(String),
    /// No nonterminal of the group carries the root marker. Carries the
    /// group's name.
    MissingRootAnnotation(String),
    /// More than one nonterminal of the group carries the root marker.
    /// Carries all candidate names in declaration order.
    AmbiguousRootAnnotation(Vec<String>),
    /// An item inside a grammar group is not a recognized nonterminal
    /// construct. Carries the item's description.
    UnsupportedSchemaItem(String),
}

pub enum CompileErrorView {
    MalformedLeafSpec(Seq<char>),
    DuplicateRuleName(Seq<char>),
    MissingRootAnnotation(Seq<char>),
    AmbiguousRootAnnotation(Seq<Seq<char>>),
    UnsupportedSchemaItem(Seq<char>),
}

impl View for CompileError {
    type V = CompileErrorView;

    open spec fn view(&self) -> CompileErrorView {
        match self {
            CompileError::MalformedLeafSpec(p) => CompileErrorView::MalformedLeafSpec(p@),
            CompileError::DuplicateRuleName(n) => CompileErrorView::DuplicateRuleName(n@),
            CompileError::MissingRootAnnotation(g) => CompileErrorView::MissingRootAnnotation(g@),
            CompileError::AmbiguousRootAnnotation(c) => CompileErrorView::AmbiguousRootAnnotation(
                c.deep_view(),
            ),
            CompileError::UnsupportedSchemaItem(d) => CompileErrorView::UnsupportedSchemaItem(d@),
        }
    }
}

} // verus!
