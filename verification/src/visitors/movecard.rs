//! The move card extractor: from an attack container with its free-text description
//! to one card template.

use crate::edit::{edits_view, Edit, EditView};
use crate::error::RewriteError;
use crate::node::{node_span, nodes_span, Node, TableRow};
use crate::parse::WikiVisitor;
use crate::parse_ext_traits::{slice, text_at, NodeExt, VecNodeExt};
use crate::text::{str_eq, trim, trimmed};
use vstd::prelude::*;
use vstd::string::*;

verus! {

/// The start tag that opens the container of one attack.
pub open spec fn container_tag() -> Seq<char> {
    "<div class=\"attack-container\">"@
}

/// The start tag that opens the info block of an attack.
pub open spec fn info_tag() -> Seq<char> {
    "<div class=\"attack-info\">"@
}

/// The empty sub-heading behind which the description of an attack begins.
pub open spec fn empty_heading() -> Seq<char> {
    "==== ===="@
}

/// The name of the template that closes a card.
pub open spec fn closing_name() -> Seq<char> {
    "CloseCard"@
}

/// The template call that stands for a card with the given description.
pub open spec fn card_text(description: Seq<char>) -> Seq<char> {
    "{{GGST Move Card\n|input=\n|description=\n"@ + trimmed(description) + "\n}}"@
}

/// What the extractor knows while it walks a document.
pub struct MoveCardState {
    pub text: Seq<char>,
    pub edits: Seq<EditView>,
    /// Where the container of the current attack opened, if one is open.
    pub block_start: Option<int>,
    /// Where the last empty sub-heading of an info block ended.
    pub descr_start: int,
    /// Whether the walk is inside an info block that has not met its sub-heading yet.
    pub in_info: bool,
}

/// The state after a start tag was shown: a container tag opens a container at its
/// start, an info tag opens an info block, any other tag changes nothing.
pub open spec fn tag_step(m: MoveCardState, node: Node) -> Result<MoveCardState, RewriteError> {
    match text_at(m.text, node_span(node)) {
        Err(e) => Err(e),
        Ok(tag) => if tag == container_tag() {
            Ok(MoveCardState { block_start: Some(node_span(node).unwrap().0), in_info: false, ..m })
        } else if tag == info_tag() {
            Ok(MoveCardState { in_info: true, ..m })
        } else {
            Ok(m)
        },
    }
}

/// The state after a heading was shown: an empty sub-heading inside an info block ends
/// the block, and the description begins behind it.
pub open spec fn heading_step(m: MoveCardState, node: Node) -> Result<
    MoveCardState,
    RewriteError,
> {
    match text_at(m.text, node_span(node)) {
        Err(e) => Err(e),
        Ok(heading) => if heading == empty_heading() && m.in_info {
            Ok(MoveCardState { in_info: false, descr_start: node_span(node).unwrap().1, ..m })
        } else {
            Ok(m)
        },
    }
}

/// The state after a template was shown. Any template but the closing marker changes
/// nothing. The closing marker ends the open container: everything from the start of
/// the container to the end of the marker is replaced by a card whose description is
/// the text between the end of the sub-heading and the start of the marker. A marker
/// without an open container is `MalformedNesting`.
pub open spec fn close_step(m: MoveCardState, node: Node) -> Result<MoveCardState, RewriteError> {
    match node {
        Node::Template { start, end, name, .. } => match text_at(m.text, nodes_span(name@)) {
            Err(e) => Err(e),
            Ok(called) => if called != closing_name() {
                Ok(m)
            } else if m.block_start is None {
                Err(RewriteError::MalformedNesting)
            } else {
                match text_at(m.text, Some((m.descr_start, start as int))) {
                    Err(e) => Err(e),
                    Ok(description) => Ok(
                        MoveCardState {
                            block_start: None,
                            edits: m.edits.push(
                                EditView {
                                    replacement: card_text(description),
                                    start: m.block_start.unwrap(),
                                    end: end as int,
                                },
                            ),
                            ..m
                        },
                    ),
                }
            },
        },
        _ => Ok(m),
    }
}

/// The extractor of move cards: it replaces each attack container, up to its closing
/// marker, by one card template that holds the attack's free-text description.
pub struct MoveCardVisitor {
    base_text: String,
    replacements: Vec<Edit>,
    block_start: Option<usize>,
    descr_start: usize,
    is_ai: bool,
}

/// An offset that may be missing, as a mathematical value.
pub open spec fn offset_view(offset: Option<usize>) -> Option<int> {
    match offset {
        Some(at) => Some(at as int),
        None => None,
    }
}

/// What an extractor knows that has seen nothing yet.
pub open spec fn fresh() -> MoveCardState {
    MoveCardState {
        text: Seq::empty(),
        edits: Seq::empty(),
        block_start: None,
        descr_start: 0,
        in_info: false,
    }
}

impl MoveCardVisitor {
    /// An extractor that has seen nothing yet.
    pub fn new() -> (r: Self)
        ensures
            r.model() == fresh(),
    {
        let r = MoveCardVisitor {
            base_text: String::new(),
            replacements: Vec::new(),
            block_start: None,
            descr_start: 0,
            is_ai: false,
        };
        assert(edits_view(r.replacements@) =~= Seq::<EditView>::empty());
        r
    }
}

impl Default for MoveCardVisitor {
    fn default() -> (r: Self)
        ensures
            r.model() == fresh(),
    {
        MoveCardVisitor::new()
    }
}

impl WikiVisitor for MoveCardVisitor {
    type Model = MoveCardState;

    closed spec fn model(&self) -> MoveCardState {
        MoveCardState {
            text: self.base_text@,
            edits: edits_view(self.replacements@),
            block_start: offset_view(self.block_start),
            descr_start: self.descr_start as int,
            in_info: self.is_ai,
        }
    }

    open spec fn with_text(m: MoveCardState, text: Seq<char>) -> Result<
        MoveCardState,
        RewriteError,
    > {
        Ok(MoveCardState { text, ..m })
    }

    open spec fn edits_of(m: MoveCardState) -> Result<Seq<EditView>, RewriteError> {
        Ok(m.edits)
    }

    open spec fn after_template(m: MoveCardState, node: Node) -> Result<
        MoveCardState,
        RewriteError,
    > {
        close_step(m, node)
    }

    open spec fn after_table_start(m: MoveCardState, node: Node) -> Result<
        MoveCardState,
        RewriteError,
    > {
        Ok(m)
    }

    open spec fn after_table_row(m: MoveCardState, row: TableRow) -> Result<
        MoveCardState,
        RewriteError,
    > {
        Ok(m)
    }

    open spec fn after_table_end(m: MoveCardState, node: Node) -> Result<
        MoveCardState,
        RewriteError,
    > {
        Ok(m)
    }

    open spec fn after_start_tag(m: MoveCardState, node: Node) -> Result<
        MoveCardState,
        RewriteError,
    > {
        tag_step(m, node)
    }

    open spec fn after_heading(m: MoveCardState, node: Node) -> Result<
        MoveCardState,
        RewriteError,
    > {
        heading_step(m, node)
    }

    fn set_base_text(&mut self, base_text: &str) -> (r: Result<(), RewriteError>) {
        self.base_text = String::from_str(base_text);
        Ok(())
    }

    fn get_replacements(&self) -> (r: Result<&Vec<Edit>, RewriteError>) {
        Ok(&self.replacements)
    }

    fn visit_template(&mut self, node: &Node) -> (r: Result<(), RewriteError>) {
        let (start, end) = match node {
            Node::Template { start, end, name, .. } => {
                let called = name.as_str(self.base_text.as_str())?;
                if !str_eq(called, "CloseCard") {
                    return Ok(());
                }
                (*start, *end)
            },
            _ => {
                return Ok(());
            },
        };
        let block_start = match self.block_start {
            Some(at) => at,
            None => {
                return Err(RewriteError::MalformedNesting);
            },
        };
        let description = slice(self.base_text.as_str(), self.descr_start, start)?;
        let mut out = String::from_str("{{GGST Move Card\n|input=\n|description=\n");
        out.append(trim(description));
        out.append("\n}}");
        let ghost before = self.replacements@;
        let edit = Edit::new(out, block_start, end);
        self.replacements.push(edit);
        self.block_start = None;
        assert(edits_view(self.replacements@) =~= edits_view(before).push(edit@));
        Ok(())
    }

    fn visit_table_start(&mut self, node: &Node) -> (r: Result<(), RewriteError>) {
        Ok(())
    }

    fn visit_table_row(&mut self, row: &TableRow) -> (r: Result<(), RewriteError>) {
        Ok(())
    }

    fn visit_table_end(&mut self, node: &Node) -> (r: Result<(), RewriteError>) {
        Ok(())
    }

    fn visit_start_tag(&mut self, node: &Node) -> (r: Result<(), RewriteError>) {
        let range = node.range()?;
        let tag = slice(self.base_text.as_str(), range.start, range.end)?;
        if str_eq(tag, "<div class=\"attack-container\">") {
            self.block_start = Some(range.start);
            self.is_ai = false;
        } else if str_eq(tag, "<div class=\"attack-info\">") {
            self.is_ai = true;
        }
        Ok(())
    }

    fn visit_heading(&mut self, node: &Node) -> (r: Result<(), RewriteError>) {
        let range = node.range()?;
        let heading = slice(self.base_text.as_str(), range.start, range.end)?;
        if str_eq(heading, "==== ====") {
            if self.is_ai {
                self.is_ai = false;
                self.descr_start = range.end;
            }
        }
        Ok(())
    }
}

} // verus!
