//! What can be wrong with a configuration text.

use vstd::prelude::*;
use kdl::KdlError;
use crate::config::document::{Span, ValueKind};

verus! {

/// Why a configuration text was refused. Each variant but `Kdl` carries the
/// place in the source that the diagnostic points at.
#[derive(Debug, PartialEq, Eq)]
pub enum ParseError {
    /// A node at the top of the document that is no setting.
    UnknownConfigurationOption(String, Span),
    /// A node inside braces with a name that its parent does not take.
    NodeMismatch(String, Span),
    /// A value of another kind than the setting takes: expected, then found.
    TypeMismatch(ValueKind, ValueKind, Span),
    /// A node that needs a value and has no entry.
    MissingValue(Span),
    /// A node that needs nodes in braces and has none.
    MissingChildNode(Span),
    /// A number of lines below one or above what the picker can take.
    InvalidHeightRange(Span),
    /// A fraction that is not above zero and at most one.
    InvalidPercentage(Span),
    /// A multiplexer that is not known.
    InvalidMux(String, Span),
    /// The text is no KDL document.
    Kdl(KdlError),
}

/// An error as mathematical values.
pub enum ParseErrorView {
    UnknownConfigurationOption(Seq<char>, Span),
    NodeMismatch(Seq<char>, Span),
    TypeMismatch(ValueKind, ValueKind, Span),
    MissingValue(Span),
    MissingChildNode(Span),
    InvalidHeightRange(Span),
    InvalidPercentage(Span),
    InvalidMux(Seq<char>, Span),
    Kdl,
}

impl View for ParseError {
    type V = ParseErrorView;

    open spec fn view(&self) -> ParseErrorView {
        match self {
            ParseError::UnknownConfigurationOption(n, s) => ParseErrorView::UnknownConfigurationOption(n@, *s),
            ParseError::NodeMismatch(n, s) => ParseErrorView::NodeMismatch(n@, *s),
            ParseError::TypeMismatch(e, f, s) => ParseErrorView::TypeMismatch(*e, *f, *s),
            ParseError::MissingValue(s) => ParseErrorView::MissingValue(*s),
            ParseError::MissingChildNode(s) => ParseErrorView::MissingChildNode(*s),
            ParseError::InvalidHeightRange(s) => ParseErrorView::InvalidHeightRange(*s),
            ParseError::InvalidPercentage(s) => ParseErrorView::InvalidPercentage(*s),
            ParseError::InvalidMux(n, s) => ParseErrorView::InvalidMux(n@, *s),
            ParseError::Kdl(_) => ParseErrorView::Kdl,
        }
    }
}

impl ParseError {
    /// The place in the source that the diagnostic points at, if the error
    /// has one of its own.
    pub fn span(&self) -> (r: Option<Span>)
        ensures
            r == match self@ {
                ParseErrorView::UnknownConfigurationOption(_, s) => Some(s),
                ParseErrorView::NodeMismatch(_, s) => Some(s),
                ParseErrorView::TypeMismatch(_, _, s) => Some(s),
                ParseErrorView::MissingValue(s) => Some(s),
                ParseErrorView::MissingChildNode(s) => Some(s),
                ParseErrorView::InvalidHeightRange(s) => Some(s),
                ParseErrorView::InvalidPercentage(s) => Some(s),
                ParseErrorView::InvalidMux(_, s) => Some(s),
                ParseErrorView::Kdl => None,
            },
    {
        match self {
            ParseError::UnknownConfigurationOption(_, s) => Some(*s),
            ParseError::NodeMismatch(_, s) => Some(*s),
            ParseError::TypeMismatch(_, _, s) => Some(*s),
            ParseError::MissingValue(s) => Some(*s),
            ParseError::MissingChildNode(s) => Some(*s),
            ParseError::InvalidHeightRange(s) => Some(*s),
            ParseError::InvalidPercentage(s) => Some(*s),
            ParseError::InvalidMux(_, s) => Some(*s),
            ParseError::Kdl(_) => None,
        }
    }

    /// The headline of the diagnostic.
    pub fn message(&self) -> (r: &'static str)
        ensures
            r@ == match self@ {
                ParseErrorView::UnknownConfigurationOption(_, _) => "Unknown configuration option"@,
                ParseErrorView::NodeMismatch(_, _) => "Node mismatch"@,
                ParseErrorView::TypeMismatch(_, _, _) => "Type mismatch"@,
                ParseErrorView::MissingValue(_) => "Missing node"@,
                ParseErrorView::MissingChildNode(_) => "Missing positional entry"@,
                ParseErrorView::InvalidHeightRange(_) => "Invalid height range"@,
                ParseErrorView::InvalidPercentage(_) => "Invalid percentage"@,
                ParseErrorView::InvalidMux(_, _) => "Invalid multiplexer"@,
                ParseErrorView::Kdl => "Failed to parse KDL document"@,
            },
    {
        match self {
            ParseError::UnknownConfigurationOption(_, _) => "Unknown configuration option",
            ParseError::NodeMismatch(_, _) => "Node mismatch",
            ParseError::TypeMismatch(_, _, _) => "Type mismatch",
            ParseError::MissingValue(_) => "Missing node",
            ParseError::MissingChildNode(_) => "Missing positional entry",
            ParseError::InvalidHeightRange(_) => "Invalid height range",
            ParseError::InvalidPercentage(_) => "Invalid percentage",
            ParseError::InvalidMux(_, _) => "Invalid multiplexer",
            ParseError::Kdl(_) => "Failed to parse KDL document",
        }
    }
}

} // verus!
