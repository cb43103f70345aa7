//! The ways in which a run can fail.

use vstd::prelude::*;

verus! {

/// Why a document could not be rewritten.
///
/// Every variant but `ValidationFailed` stops the run at the place where it arises;
/// `ValidationFailed` is reported at the end of a traversal during which a visitor
/// recorded at least one content problem.
#[derive(Clone, Copy, Debug, PartialEq, Eq, Structural)]
pub enum RewriteError {
    /// The tree holds a node of a kind that the traversal has no rule for.
    UnhandledNode,
    /// The parser reported a warning that is not known to be harmless.
    ParserWarning,
    /// An edit starts before the end of another, or two edits have the same range.
    OverlappingEdits,
    /// A byte range is no span of the text: it leaves the text or cuts a character.
    BadSpan,
    /// A range was asked of an empty node list, or of a node kind that has none.
    NoSpan,
    /// A visitor recorded content problems, so none of its edits may be applied.
    ValidationFailed,
    /// A colour template lacks a parameter that had to be read.
    MissingParameter,
    /// A colour template names a colour that is neither a code nor a known keyword.
    UnknownColor,
    /// A pattern is not a valid regular expression.
    InvalidPattern,
    /// A table starts inside a table, or ends without having started.
    UnbalancedTable,
    /// The first row of a combo table holds a cell that is not a heading.
    HeaderExpected,
    /// The header of a combo table holds a caption with no column key.
    UnknownCaption,
    /// A closing card marker has no open container before it.
    MalformedNesting,
    /// The wiki answered a request with an error.
    RemoteError,
    /// A page was to be saved, but the rules of the run do not allow saving.
    ApplyNotAllowed,
    /// A page was to be saved, but the rules of the run give no comment for the edit.
    NoComment,
    /// A page was to be saved, but the rules of the run do not say whether the edit is
    /// minor.
    NoMinorFlag,
}

} // verus!
