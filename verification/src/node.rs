//! The parsed tree of a document: node kinds with their byte ranges, and the warnings
//! of the parser.

use vstd::prelude::*;

verus! {

/// One element of a parsed document. Every kind carries the half-open byte range
/// `[start, end)` that it covers in the source text; kinds with content own their
/// children in document order.
#[derive(Debug, PartialEq, Eq)]
#[allow(inconsistent_fields)]
pub enum Node {
    Bold { start: usize, end: usize },
    BoldItalic { start: usize, end: usize },
    Category { start: usize, end: usize, ordinal: Vec<Node> },
    CharacterEntity { start: usize, end: usize },
    Comment { start: usize, end: usize },
    DefinitionList { start: usize, end: usize, items: Vec<DefinitionListItem> },
    EndTag { start: usize, end: usize },
    ExternalLink { start: usize, end: usize, nodes: Vec<Node> },
    Heading { start: usize, end: usize, nodes: Vec<Node> },
    HorizontalDivider { start: usize, end: usize },
    Image { start: usize, end: usize, text: Vec<Node> },
    Italic { start: usize, end: usize },
    Link { start: usize, end: usize, text: Vec<Node> },
    MagicWord { start: usize, end: usize },
    OrderedList { start: usize, end: usize, items: Vec<ListItem> },
    ParagraphBreak { start: usize, end: usize },
    Parameter { start: usize, end: usize, name: Vec<Node>, default: Option<Vec<Node>> },
    Preformatted { start: usize, end: usize, nodes: Vec<Node> },
    Redirect { start: usize, end: usize },
    StartTag { start: usize, end: usize },
    Table {
        start: usize,
        end: usize,
        attributes: Vec<Node>,
        captions: Vec<TableCaption>,
        rows: Vec<TableRow>,
    },
    Tag { start: usize, end: usize, nodes: Vec<Node> },
    Template { start: usize, end: usize, name: Vec<Node>, parameters: Vec<Parameter> },
    Text { start: usize, end: usize },
    UnorderedList { start: usize, end: usize, items: Vec<ListItem> },
}

/// One parameter of a template invocation.
#[derive(Debug, PartialEq, Eq)]
pub struct Parameter {
    pub start: usize,
    pub end: usize,
    pub name: Option<Vec<Node>>,
    pub value: Vec<Node>,
}

/// One item of an ordered or unordered list.
#[derive(Debug, PartialEq, Eq)]
pub struct ListItem {
    pub start: usize,
    pub end: usize,
    pub nodes: Vec<Node>,
}

/// One term or one details entry of a definition list.
#[derive(Debug, PartialEq, Eq)]
pub struct DefinitionListItem {
    pub start: usize,
    pub end: usize,
    pub nodes: Vec<Node>,
}

/// The caption of a table.
#[derive(Debug, PartialEq, Eq)]
pub struct TableCaption {
    pub start: usize,
    pub end: usize,
    pub attributes: Option<Vec<Node>>,
    pub content: Vec<Node>,
}

/// Whether a table cell is a heading cell or a data cell.
#[derive(Clone, Copy, Debug, PartialEq, Eq, Structural)]
pub enum TableCellType {
    Heading,
    Ordinary,
}

/// One cell of a table row. The range of the cell's text is that of its content.
#[derive(Debug, PartialEq, Eq)]
pub struct TableCell {
    pub start: usize,
    pub end: usize,
    pub type_: TableCellType,
    pub attributes: Option<Vec<Node>>,
    pub content: Vec<Node>,
}

/// One row of a table.
#[derive(Debug, PartialEq, Eq)]
pub struct TableRow {
    pub start: usize,
    pub end: usize,
    pub attributes: Vec<Node>,
    pub cells: Vec<TableCell>,
}

/// What a parser warning is about.
#[derive(Clone, Copy, Debug, PartialEq, Eq, Structural)]
pub enum WarningMessage {
    DefinitionTermContinuation,
    EndTagInComment,
    InvalidCharacter,
    InvalidHeadingSyntaxRewinding,
    InvalidLinkSyntax,
    InvalidParameterSyntax,
    InvalidTagSyntax,
    MissingEndTagRewinding,
    RepeatedEmptyLine,
    StrayTextInTable,
    TextAfterRedirect,
    UnexpectedEndTagRewinding,
    UnexpectedEndTag,
    UnexpectedHeadingLevelCorrecting,
    UnrecognizedTagName,
    UselessTextInParameter,
    UselessTextInRedirect,
}

/// A problem that the parser met between two byte offsets of the source text.
#[derive(Clone, Copy, Debug, PartialEq, Eq, Structural)]
pub struct Warning {
    pub start: usize,
    pub end: usize,
    pub message: WarningMessage,
}

/// What the parser hands over for one document.
#[derive(Debug, PartialEq, Eq)]
pub struct Document {
    pub nodes: Vec<Node>,
    pub warnings: Vec<Warning>,
}

/// The range of a node, for the kinds whose range the visitors may read.
pub open spec fn node_span(node: Node) -> Option<(int, int)> {
    match node {
        Node::Text { start, end }
        | Node::Link { start, end, .. }
        | Node::Template { start, end, .. }
        | Node::Comment { start, end }
        | Node::StartTag { start, end }
        | Node::Bold { start, end }
        | Node::EndTag { start, end }
        | Node::Heading { start, end, .. } => Some((start as int, end as int)),
        _ => None,
    }
}

/// The range from the start of the first node to the end of the last one.
pub open spec fn nodes_span(nodes: Seq<Node>) -> Option<(int, int)> {
    if nodes.len() == 0 {
        None
    } else {
        match (node_span(nodes.first()), node_span(nodes.last())) {
            (Some(first), Some(last)) => Some((first.0, last.1)),
            _ => None,
        }
    }
}

} // verus!
