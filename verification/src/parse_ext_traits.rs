//! The text that nodes, parameters, rows and cells cover in the source.

use crate::error::RewriteError;
use crate::node::{node_span, nodes_span, Node, Parameter, TableCell, TableRow};
use crate::text::{span_text, substr};
use std::ops::Range;
use vstd::prelude::*;

verus! {

/// The text that a range covers: `NoSpan` where there is no range, `BadSpan` where the
/// range is no span of the text.
pub open spec fn text_at(text: Seq<char>, span: Option<(int, int)>) -> Result<
    Seq<char>,
    RewriteError,
> {
    match span {
        None => Err(RewriteError::NoSpan),
        Some(s) => match span_text(text, s.0, s.1) {
            Some(t) => Ok(t),
            None => Err(RewriteError::BadSpan),
        },
    }
}

/// The text that a list of nodes covers, from the first to the last; none for an empty
/// list.
pub open spec fn content_text(text: Seq<char>, nodes: Seq<Node>) -> Result<
    Seq<char>,
    RewriteError,
> {
    if nodes.len() == 0 {
        Ok(Seq::empty())
    } else {
        text_at(text, nodes_span(nodes))
    }
}

/// Whether a piece of text that was asked for is the expected one, or the failure is.
pub open spec fn yields(
    expected: Result<Seq<char>, RewriteError>,
    r: Result<&str, RewriteError>,
) -> bool {
    match expected {
        Ok(t) => r is Ok && r.unwrap()@ == t,
        Err(e) => r == Err::<&str, RewriteError>(e),
    }
}

/// The text between two offsets, or `BadSpan`.
pub fn slice<'a>(text: &'a str, start: usize, end: usize) -> (r: Result<&'a str, RewriteError>)
    ensures
        yields(text_at(text@, Some((start as int, end as int))), r),
{
    match substr(text, start, end) {
        Some(s) => Ok(s),
        None => Err(RewriteError::BadSpan),
    }
}

/// Where a node stands in the source text, and what it covers there.
pub trait NodeExt {
    /// The range of the node, where its kind has one that may be read.
    spec fn span(&self) -> Option<(int, int)>;

    /// The text that the node covers.
    fn as_str<'a>(&self, base_text: &'a str) -> (r: Result<&'a str, RewriteError>)
        ensures
            yields(text_at(base_text@, self.span()), r),
    ;

    /// The byte range of the node, or `NoSpan` for a kind whose range may not be read.
    fn range(&self) -> (r: Result<Range<usize>, RewriteError>)
        ensures
            match self.span() {
                Some(s) => r is Ok && r.unwrap().start == s.0 && r.unwrap().end == s.1,
                None => r is Err && r.unwrap_err() == RewriteError::NoSpan,
            },
    ;

    /// Where the node starts.
    fn start(&self) -> (r: Result<usize, RewriteError>)
        ensures
            match self.span() {
                Some(s) => r == Ok::<usize, RewriteError>(s.0 as usize) && r.unwrap() == s.0,
                None => r == Err::<usize, RewriteError>(RewriteError::NoSpan),
            },
    ;

    /// Where the node ends.
    fn end(&self) -> (r: Result<usize, RewriteError>)
        ensures
            match self.span() {
                Some(s) => r == Ok::<usize, RewriteError>(s.1 as usize) && r.unwrap() == s.1,
                None => r == Err::<usize, RewriteError>(RewriteError::NoSpan),
            },
    ;
}

impl NodeExt for Node {
    open spec fn span(&self) -> Option<(int, int)> {
        node_span(*self)
    }

    fn as_str<'a>(&self, base_text: &'a str) -> (r: Result<&'a str, RewriteError>) {
        let range = self.range()?;
        slice(base_text, range.start, range.end)
    }

    fn range(&self) -> (r: Result<Range<usize>, RewriteError>) {
        match self {
            Node::Text { start, end }
            | Node::Link { start, end, .. }
            | Node::Template { start, end, .. }
            | Node::Comment { start, end }
            | Node::StartTag { start, end }
            | Node::Bold { start, end }
            | Node::EndTag { start, end }
            | Node::Heading { start, end, .. } => Ok(*start..*end),
            _ => Err(RewriteError::NoSpan),
        }
    }

    fn start(&self) -> (r: Result<usize, RewriteError>) {
        let range = self.range()?;
        Ok(range.start)
    }

    fn end(&self) -> (r: Result<usize, RewriteError>) {
        let range = self.range()?;
        Ok(range.end)
    }
}

/// What a list of nodes covers in the source text.
pub trait VecNodeExt {
    /// The range from the start of the first node to the end of the last.
    spec fn span(&self) -> Option<(int, int)>;

    /// The text from the start of the first node to the end of the last.
    fn as_str<'a>(&self, source: &'a str) -> (r: Result<&'a str, RewriteError>)
        ensures
            yields(text_at(source@, self.span()), r),
    ;
}

impl VecNodeExt for Vec<Node> {
    open spec fn span(&self) -> Option<(int, int)> {
        nodes_span(self@)
    }

    fn as_str<'a>(&self, source: &'a str) -> (r: Result<&'a str, RewriteError>) {
        if self.len() == 0 {
            return Err(RewriteError::NoSpan);
        }
        let first = self[0].start()?;
        let last = self[self.len() - 1].end()?;
        slice(source, first, last)
    }
}

/// What a template parameter covers in the source text.
pub trait ParameterExt {
    /// The whole parameter.
    spec fn text_in(&self, source: Seq<char>) -> Result<Seq<char>, RewriteError>;

    /// The name of the parameter; `NoSpan` where it has none.
    spec fn name_in(&self, source: Seq<char>) -> Result<Seq<char>, RewriteError>;

    /// The value of the parameter; empty where it has none.
    spec fn value_in(&self, source: Seq<char>) -> Result<Seq<char>, RewriteError>;

    /// The text of the whole parameter.
    fn as_str<'a>(&self, source: &'a str) -> (r: Result<&'a str, RewriteError>)
        ensures
            yields(self.text_in(source@), r),
    ;

    /// The text of the name of the parameter.
    fn name_str<'a>(&self, source: &'a str) -> (r: Result<&'a str, RewriteError>)
        ensures
            yields(self.name_in(source@), r),
    ;

    /// The text of the value of the parameter.
    fn val_str<'a>(&self, source: &'a str) -> (r: Result<&'a str, RewriteError>)
        ensures
            yields(self.value_in(source@), r),
    ;
}

impl ParameterExt for Parameter {
    open spec fn text_in(&self, source: Seq<char>) -> Result<Seq<char>, RewriteError> {
        text_at(source, Some((self.start as int, self.end as int)))
    }

    open spec fn name_in(&self, source: Seq<char>) -> Result<Seq<char>, RewriteError> {
        match self.name {
            Some(nodes) => text_at(source, nodes_span(nodes@)),
            None => Err(RewriteError::NoSpan),
        }
    }

    open spec fn value_in(&self, source: Seq<char>) -> Result<Seq<char>, RewriteError> {
        content_text(source, self.value@)
    }

    fn as_str<'a>(&self, source: &'a str) -> (r: Result<&'a str, RewriteError>) {
        slice(source, self.start, self.end)
    }

    fn name_str<'a>(&self, source: &'a str) -> (r: Result<&'a str, RewriteError>) {
        match &self.name {
            Some(nodes) => nodes.as_str(source),
            None => Err(RewriteError::NoSpan),
        }
    }

    fn val_str<'a>(&self, source: &'a str) -> (r: Result<&'a str, RewriteError>) {
        if self.value.len() == 0 {
            proof {
                reveal_strlit("");
                assert(""@ =~= Seq::<char>::empty());
            }
            Ok("")
        } else {
            self.value.as_str(source)
        }
    }
}

/// What a table cell covers in the source text.
pub trait TableCellExt {
    /// The content of the cell; empty where it has none.
    spec fn content_in(&self, source: Seq<char>) -> Result<Seq<char>, RewriteError>;

    /// The text of the content of the cell.
    fn text_content<'a>(&self, source: &'a str) -> (r: Result<&'a str, RewriteError>)
        ensures
            yields(self.content_in(source@), r),
    ;
}

impl TableCellExt for TableCell {
    open spec fn content_in(&self, source: Seq<char>) -> Result<Seq<char>, RewriteError> {
        content_text(source, self.content@)
    }

    fn text_content<'a>(&self, source: &'a str) -> (r: Result<&'a str, RewriteError>) {
        if self.content.len() == 0 {
            proof {
                reveal_strlit("");
                assert(""@ =~= Seq::<char>::empty());
            }
            Ok("")
        } else {
            self.content.as_str(source)
        }
    }
}

/// What a table row covers in the source text.
pub trait TableRowExt {
    /// The whole row.
    spec fn text_in(&self, source: Seq<char>) -> Result<Seq<char>, RewriteError>;

    /// The text of the whole row.
    fn as_str<'a>(&self, source: &'a str) -> (r: Result<&'a str, RewriteError>)
        ensures
            yields(self.text_in(source@), r),
    ;
}

impl TableRowExt for TableRow {
    open spec fn text_in(&self, source: Seq<char>) -> Result<Seq<char>, RewriteError> {
        text_at(source, Some((self.start as int, self.end as int)))
    }

    fn as_str<'a>(&self, source: &'a str) -> (r: Result<&'a str, RewriteError>) {
        slice(source, self.start, self.end)
    }
}

} // verus!
