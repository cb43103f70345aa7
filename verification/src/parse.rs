//! The traversal of the tree and the engine around it: the visitor interface, the walk
//! in document order, and the run from text and tree to the rewritten text.

use crate::edit::{apply_edits, compose, edits_view, lemma_no_edits, Edit, EditView};
use crate::error::RewriteError;
use crate::node::{
    DefinitionListItem, Document, ListItem, Node, Parameter, TableCaption, TableCell, TableRow,
    Warning, WarningMessage,
};
use vstd::prelude::*;

verus! {

/// A rewrite strategy: it is told the text, then shown the nodes of the tree in document
/// order, and in the end asked for the edits it has computed.
///
/// What a visitor does is stated over its model: each hook has a spec function that
/// gives the model after the hook from the model before it, or the failure that ends the
/// run.
pub trait WikiVisitor {
    /// What the visitor knows, as a mathematical value.
    type Model;

    /// What this visitor knows.
    spec fn model(&self) -> Self::Model;

    /// The model after the visitor was told the text.
    spec fn with_text(m: Self::Model, text: Seq<char>) -> Result<Self::Model, RewriteError>;

    /// The edits that the visitor hands over at the end.
    spec fn edits_of(m: Self::Model) -> Result<Seq<EditView>, RewriteError>;

    /// The model after a template invocation was shown.
    spec fn after_template(m: Self::Model, node: Node) -> Result<Self::Model, RewriteError>;

    /// The model after the start of a table was shown.
    spec fn after_table_start(m: Self::Model, node: Node) -> Result<Self::Model, RewriteError>;

    /// The model after a table row was shown.
    spec fn after_table_row(m: Self::Model, row: TableRow) -> Result<Self::Model, RewriteError>;

    /// The model after the end of a table was shown.
    spec fn after_table_end(m: Self::Model, node: Node) -> Result<Self::Model, RewriteError>;

    /// The model after a start tag was shown.
    spec fn after_start_tag(m: Self::Model, node: Node) -> Result<Self::Model, RewriteError>;

    /// The model after a heading was shown.
    spec fn after_heading(m: Self::Model, node: Node) -> Result<Self::Model, RewriteError>;

    /// Tells the visitor the text of the document that it is about to be shown.
    fn set_base_text(&mut self, base_text: &str) -> (r: Result<(), RewriteError>)
        ensures
            reached(Self::with_text(old(self).model(), base_text@), final(self).model(), r),
    ;

    /// The edits that the visitor has computed, or the failure that keeps them back.
    fn get_replacements(&self) -> (r: Result<&Vec<Edit>, RewriteError>)
        ensures
            match Self::edits_of(self.model()) {
                Ok(edits) => r is Ok && edits_view(r.unwrap()@) == edits,
                Err(e) => r == Err::<&Vec<Edit>, RewriteError>(e),
            },
    ;

    /// Shows the visitor a template invocation, before anything inside it.
    fn visit_template(&mut self, node: &Node) -> (r: Result<(), RewriteError>)
        ensures
            reached(Self::after_template(old(self).model(), *node), final(self).model(), r),
    ;

    /// Shows the visitor a table, before anything inside it.
    fn visit_table_start(&mut self, node: &Node) -> (r: Result<(), RewriteError>)
        ensures
            reached(Self::after_table_start(old(self).model(), *node), final(self).model(), r),
    ;

    /// Shows the visitor a row of a table, before anything inside it.
    fn visit_table_row(&mut self, row: &TableRow) -> (r: Result<(), RewriteError>)
        ensures
            reached(Self::after_table_row(old(self).model(), *row), final(self).model(), r),
    ;

    /// Shows the visitor a table once more, after everything inside it.
    fn visit_table_end(&mut self, node: &Node) -> (r: Result<(), RewriteError>)
        ensures
            reached(Self::after_table_end(old(self).model(), *node), final(self).model(), r),
    ;

    /// Shows the visitor a start tag.
    fn visit_start_tag(&mut self, node: &Node) -> (r: Result<(), RewriteError>)
        ensures
            reached(Self::after_start_tag(old(self).model(), *node), final(self).model(), r),
    ;

    /// Shows the visitor a heading, before anything inside it.
    fn visit_heading(&mut self, node: &Node) -> (r: Result<(), RewriteError>)
        ensures
            reached(Self::after_heading(old(self).model(), *node), final(self).model(), r),
    ;
}

/// Whether a step that was to lead to `expected` has done so: on success the model is
/// the expected one, on failure the failure is the expected one.
pub open spec fn reached<M>(
    expected: Result<M, RewriteError>,
    model: M,
    r: Result<(), RewriteError>,
) -> bool {
    match expected {
        Ok(m) => r is Ok && model == m,
        Err(e) => r == Err::<(), RewriteError>(e),
    }
}

/// The model after one node and everything below it was shown.
pub open spec fn walk_node<V: WikiVisitor>(m: V::Model, node: Node) -> Result<
    V::Model,
    RewriteError,
>
    decreases node, 0nat,
{
    match node {
        Node::Template { name, parameters, .. } => match V::after_template(m, node) {
            Ok(m1) => match walk_nodes::<V>(m1, name@) {
                Ok(m2) => walk_parameters::<V>(m2, parameters@),
                Err(e) => Err(e),
            },
            Err(e) => Err(e),
        },
        Node::Heading { nodes, .. } => match V::after_heading(m, node) {
            Ok(m1) => walk_nodes::<V>(m1, nodes@),
            Err(e) => Err(e),
        },
        Node::Tag { nodes, .. } => walk_nodes::<V>(m, nodes@),
        Node::Link { text, .. } => walk_nodes::<V>(m, text@),
        Node::Preformatted { nodes, .. } => walk_nodes::<V>(m, nodes@),
        Node::StartTag { .. } => V::after_start_tag(m, node),
        Node::Text { .. }
        | Node::EndTag { .. }
        | Node::Comment { .. }
        | Node::ParagraphBreak { .. }
        | Node::HorizontalDivider { .. }
        | Node::Italic { .. }
        | Node::Bold { .. }
        | Node::CharacterEntity { .. }
        | Node::BoldItalic { .. } => Ok(m),
        Node::Table { attributes, captions, rows, .. } => match V::after_table_start(m, node) {
            Ok(m1) => match walk_nodes::<V>(m1, attributes@) {
                Ok(m2) => match walk_captions::<V>(m2, captions@) {
                    Ok(m3) => match walk_rows::<V>(m3, rows@) {
                        Ok(m4) => V::after_table_end(m4, node),
                        Err(e) => Err(e),
                    },
                    Err(e) => Err(e),
                },
                Err(e) => Err(e),
            },
            Err(e) => Err(e),
        },
        Node::UnorderedList { items, .. } => walk_items::<V>(m, items@),
        Node::OrderedList { items, .. } => walk_items::<V>(m, items@),
        Node::DefinitionList { items, .. } => walk_definitions::<V>(m, items@),
        Node::Parameter { name, default, .. } => match walk_nodes::<V>(m, name@) {
            Ok(m1) => walk_optional::<V>(m1, default),
            Err(e) => Err(e),
        },
        Node::Category { .. }
        | Node::ExternalLink { .. }
        | Node::Image { .. }
        | Node::MagicWord { .. }
        | Node::Redirect { .. } => Err(RewriteError::UnhandledNode),
    }
}

/// The model after a list of nodes was shown, one after the other.
pub open spec fn walk_nodes<V: WikiVisitor>(m: V::Model, nodes: Seq<Node>) -> Result<
    V::Model,
    RewriteError,
>
    decreases nodes, nodes.len(),
{
    if nodes.len() == 0 {
        Ok(m)
    } else {
        match walk_node::<V>(m, nodes[0]) {
            Ok(m1) => walk_nodes::<V>(m1, nodes.drop_first()),
            Err(e) => Err(e),
        }
    }
}

/// The model after a list of nodes was shown, where there is one.
pub open spec fn walk_optional<V: WikiVisitor>(m: V::Model, nodes: Option<Vec<Node>>) -> Result<
    V::Model,
    RewriteError,
>
    decreases nodes, 0nat,
{
    match nodes {
        Some(ns) => walk_nodes::<V>(m, ns@),
        None => Ok(m),
    }
}

/// The model after the parameters of a template were shown: of each its name, where it
/// has one, then its value.
pub open spec fn walk_parameters<V: WikiVisitor>(m: V::Model, parameters: Seq<Parameter>) -> Result<
    V::Model,
    RewriteError,
>
    decreases parameters, parameters.len(),
{
    if parameters.len() == 0 {
        Ok(m)
    } else {
        match walk_optional::<V>(m, parameters[0].name) {
            Ok(m1) => match walk_nodes::<V>(m1, parameters[0].value@) {
                Ok(m2) => walk_parameters::<V>(m2, parameters.drop_first()),
                Err(e) => Err(e),
            },
            Err(e) => Err(e),
        }
    }
}

/// The model after the captions of a table were shown: of each its attributes, where it
/// has any, then its content.
pub open spec fn walk_captions<V: WikiVisitor>(m: V::Model, captions: Seq<TableCaption>) -> Result<
    V::Model,
    RewriteError,
>
    decreases captions, captions.len(),
{
    if captions.len() == 0 {
        Ok(m)
    } else {
        match walk_optional::<V>(m, captions[0].attributes) {
            Ok(m1) => match walk_nodes::<V>(m1, captions[0].content@) {
                Ok(m2) => walk_captions::<V>(m2, captions.drop_first()),
                Err(e) => Err(e),
            },
            Err(e) => Err(e),
        }
    }
}

/// The model after the rows of a table were shown: each row itself, then its
/// attributes, then its cells.
pub open spec fn walk_rows<V: WikiVisitor>(m: V::Model, rows: Seq<TableRow>) -> Result<
    V::Model,
    RewriteError,
>
    decreases rows, rows.len(),
{
    if rows.len() == 0 {
        Ok(m)
    } else {
        match V::after_table_row(m, rows[0]) {
            Ok(m1) => match walk_nodes::<V>(m1, rows[0].attributes@) {
                Ok(m2) => match walk_cells::<V>(m2, rows[0].cells@) {
                    Ok(m3) => walk_rows::<V>(m3, rows.drop_first()),
                    Err(e) => Err(e),
                },
                Err(e) => Err(e),
            },
            Err(e) => Err(e),
        }
    }
}

/// The model after the cells of a row were shown: of each its attributes, where it has
/// any, then its content.
pub open spec fn walk_cells<V: WikiVisitor>(m: V::Model, cells: Seq<TableCell>) -> Result<
    V::Model,
    RewriteError,
>
    decreases cells, cells.len(),
{
    if cells.len() == 0 {
        Ok(m)
    } else {
        match walk_optional::<V>(m, cells[0].attributes) {
            Ok(m1) => match walk_nodes::<V>(m1, cells[0].content@) {
                Ok(m2) => walk_cells::<V>(m2, cells.drop_first()),
                Err(e) => Err(e),
            },
            Err(e) => Err(e),
        }
    }
}

/// The model after the items of a list were shown.
pub open spec fn walk_items<V: WikiVisitor>(m: V::Model, items: Seq<ListItem>) -> Result<
    V::Model,
    RewriteError,
>
    decreases items, items.len(),
{
    if items.len() == 0 {
        Ok(m)
    } else {
        match walk_nodes::<V>(m, items[0].nodes@) {
            Ok(m1) => walk_items::<V>(m1, items.drop_first()),
            Err(e) => Err(e),
        }
    }
}

/// The model after the items of a definition list were shown.
pub open spec fn walk_definitions<V: WikiVisitor>(
    m: V::Model,
    items: Seq<DefinitionListItem>,
) -> Result<V::Model, RewriteError>
    decreases items, items.len(),
{
    if items.len() == 0 {
        Ok(m)
    } else {
        match walk_nodes::<V>(m, items[0].nodes@) {
            Ok(m1) => walk_definitions::<V>(m1, items.drop_first()),
            Err(e) => Err(e),
        }
    }
}

/// Shows one node to the visitor, and then everything below it, in document order. A
/// node of a kind without a rule ends the walk with `UnhandledNode`.
pub fn visit_node<V: WikiVisitor>(visitor: &mut V, node: &Node) -> (r: Result<(), RewriteError>)
    ensures
        reached(walk_node::<V>(old(visitor).model(), *node), final(visitor).model(), r),
    decreases *node, 0nat,
{
    match node {
        Node::Template { name, parameters, .. } => {
            visitor.visit_template(node)?;
            visit_nodes(visitor, name)?;
            visit_parameters(visitor, parameters)
        },
        Node::Heading { nodes, .. } => {
            visitor.visit_heading(node)?;
            visit_nodes(visitor, nodes)
        },
        Node::Tag { nodes, .. } => visit_nodes(visitor, nodes),
        Node::Link { text, .. } => visit_nodes(visitor, text),
        Node::Preformatted { nodes, .. } => visit_nodes(visitor, nodes),
        Node::StartTag { .. } => visitor.visit_start_tag(node),
        Node::Text { .. }
        | Node::EndTag { .. }
        | Node::Comment { .. }
        | Node::ParagraphBreak { .. }
        | Node::HorizontalDivider { .. }
        | Node::Italic { .. }
        | Node::Bold { .. }
        | Node::CharacterEntity { .. }
        | Node::BoldItalic { .. } => Ok(()),
        Node::Table { attributes, captions, rows, .. } => {
            visitor.visit_table_start(node)?;
            visit_nodes(visitor, attributes)?;
            visit_captions(visitor, captions)?;
            visit_rows(visitor, rows)?;
            visitor.visit_table_end(node)
        },
        Node::UnorderedList { items, .. } => visit_items(visitor, items),
        Node::OrderedList { items, .. } => visit_items(visitor, items),
        Node::DefinitionList { items, .. } => visit_definitions(visitor, items),
        Node::Parameter { name, default, .. } => {
            visit_nodes(visitor, name)?;
            visit_optional(visitor, default)
        },
        Node::Category { .. }
        | Node::ExternalLink { .. }
        | Node::Image { .. }
        | Node::MagicWord { .. }
        | Node::Redirect { .. } => Err(RewriteError::UnhandledNode),
    }
}

/// Shows a list of nodes to the visitor, one after the other.
pub fn visit_nodes<V: WikiVisitor>(visitor: &mut V, nodes: &Vec<Node>) -> (r: Result<
    (),
    RewriteError,
>)
    ensures
        reached(walk_nodes::<V>(old(visitor).model(), nodes@), final(visitor).model(), r),
    decreases *nodes, 1nat,
{
    let ghost m0 = visitor.model();
    let mut i: usize = 0;
    assert(nodes@.skip(0) =~= nodes@);
    while i < nodes.len()
        invariant
            i <= nodes.len(),
            m0 == old(visitor).model(),
            walk_nodes::<V>(m0, nodes@) == walk_nodes::<V>(visitor.model(), nodes@.skip(i as int)),
        decreases nodes.len() - i,
    {
        assert(nodes@.skip(i as int).drop_first() =~= nodes@.skip(i + 1));
        assert(nodes@.skip(i as int)[0] == nodes@[i as int]);
        visit_node(visitor, &nodes[i])?;
        i += 1;
    }
    Ok(())
}

/// Shows a list of nodes to the visitor, where there is one.
fn visit_optional<V: WikiVisitor>(visitor: &mut V, nodes: &Option<Vec<Node>>) -> (r: Result<
    (),
    RewriteError,
>)
    ensures
        reached(walk_optional::<V>(old(visitor).model(), *nodes), final(visitor).model(), r),
    decreases *nodes, 1nat,
{
    match nodes {
        Some(ns) => visit_nodes(visitor, ns),
        None => Ok(()),
    }
}

/// Shows the parameters of a template to the visitor.
fn visit_parameters<V: WikiVisitor>(visitor: &mut V, parameters: &Vec<Parameter>) -> (r: Result<
    (),
    RewriteError,
>)
    ensures
        reached(
            walk_parameters::<V>(old(visitor).model(), parameters@),
            final(visitor).model(),
            r,
        ),
    decreases *parameters, 1nat,
{
    let ghost m0 = visitor.model();
    let mut i: usize = 0;
    assert(parameters@.skip(0) =~= parameters@);
    while i < parameters.len()
        invariant
            i <= parameters.len(),
            m0 == old(visitor).model(),
            walk_parameters::<V>(m0, parameters@) == walk_parameters::<V>(
                visitor.model(),
                parameters@.skip(i as int),
            ),
        decreases parameters.len() - i,
    {
        assert(parameters@.skip(i as int).drop_first() =~= parameters@.skip(i + 1));
        assert(parameters@.skip(i as int)[0] == parameters@[i as int]);
        visit_optional(visitor, &parameters[i].name)?;
        visit_nodes(visitor, &parameters[i].value)?;
        i += 1;
    }
    Ok(())
}

/// Shows the captions of a table to the visitor.
fn visit_captions<V: WikiVisitor>(visitor: &mut V, captions: &Vec<TableCaption>) -> (r: Result<
    (),
    RewriteError,
>)
    ensures
        reached(walk_captions::<V>(old(visitor).model(), captions@), final(visitor).model(), r),
    decreases *captions, 1nat,
{
    let ghost m0 = visitor.model();
    let mut i: usize = 0;
    assert(captions@.skip(0) =~= captions@);
    while i < captions.len()
        invariant
            i <= captions.len(),
            m0 == old(visitor).model(),
            walk_captions::<V>(m0, captions@) == walk_captions::<V>(
                visitor.model(),
                captions@.skip(i as int),
            ),
        decreases captions.len() - i,
    {
        assert(captions@.skip(i as int).drop_first() =~= captions@.skip(i + 1));
        assert(captions@.skip(i as int)[0] == captions@[i as int]);
        visit_optional(visitor, &captions[i].attributes)?;
        visit_nodes(visitor, &captions[i].content)?;
        i += 1;
    }
    Ok(())
}

/// Shows the rows of a table to the visitor.
fn visit_rows<V: WikiVisitor>(visitor: &mut V, rows: &Vec<TableRow>) -> (r: Result<
    (),
    RewriteError,
>)
    ensures
        reached(walk_rows::<V>(old(visitor).model(), rows@), final(visitor).model(), r),
    decreases *rows, 1nat,
{
    let ghost m0 = visitor.model();
    let mut i: usize = 0;
    assert(rows@.skip(0) =~= rows@);
    while i < rows.len()
        invariant
            i <= rows.len(),
            m0 == old(visitor).model(),
            walk_rows::<V>(m0, rows@) == walk_rows::<V>(visitor.model(), rows@.skip(i as int)),
        decreases rows.len() - i,
    {
        assert(rows@.skip(i as int).drop_first() =~= rows@.skip(i + 1));
        assert(rows@.skip(i as int)[0] == rows@[i as int]);
        visitor.visit_table_row(&rows[i])?;
        visit_nodes(visitor, &rows[i].attributes)?;
        visit_cells(visitor, &rows[i].cells)?;
        i += 1;
    }
    Ok(())
}

/// Shows the cells of a row to the visitor.
fn visit_cells<V: WikiVisitor>(visitor: &mut V, cells: &Vec<TableCell>) -> (r: Result<
    (),
    RewriteError,
>)
    ensures
        reached(walk_cells::<V>(old(visitor).model(), cells@), final(visitor).model(), r),
    decreases *cells, 1nat,
{
    let ghost m0 = visitor.model();
    let mut i: usize = 0;
    assert(cells@.skip(0) =~= cells@);
    while i < cells.len()
        invariant
            i <= cells.len(),
            m0 == old(visitor).model(),
            walk_cells::<V>(m0, cells@) == walk_cells::<V>(visitor.model(), cells@.skip(i as int)),
        decreases cells.len() - i,
    {
        assert(cells@.skip(i as int).drop_first() =~= cells@.skip(i + 1));
        assert(cells@.skip(i as int)[0] == cells@[i as int]);
        visit_optional(visitor, &cells[i].attributes)?;
        visit_nodes(visitor, &cells[i].content)?;
        i += 1;
    }
    Ok(())
}

/// Shows the items of a list to the visitor.
fn visit_items<V: WikiVisitor>(visitor: &mut V, items: &Vec<ListItem>) -> (r: Result<
    (),
    RewriteError,
>)
    ensures
        reached(walk_items::<V>(old(visitor).model(), items@), final(visitor).model(), r),
    decreases *items, 1nat,
{
    let ghost m0 = visitor.model();
    let mut i: usize = 0;
    assert(items@.skip(0) =~= items@);
    while i < items.len()
        invariant
            i <= items.len(),
            m0 == old(visitor).model(),
            walk_items::<V>(m0, items@) == walk_items::<V>(visitor.model(), items@.skip(i as int)),
        decreases items.len() - i,
    {
        assert(items@.skip(i as int).drop_first() =~= items@.skip(i + 1));
        assert(items@.skip(i as int)[0] == items@[i as int]);
        visit_nodes(visitor, &items[i].nodes)?;
        i += 1;
    }
    Ok(())
}

/// Shows the items of a definition list to the visitor.
fn visit_definitions<V: WikiVisitor>(visitor: &mut V, items: &Vec<DefinitionListItem>) -> (r:
    Result<(), RewriteError>)
    ensures
        reached(walk_definitions::<V>(old(visitor).model(), items@), final(visitor).model(), r),
    decreases *items, 1nat,
{
    let ghost m0 = visitor.model();
    let mut i: usize = 0;
    assert(items@.skip(0) =~= items@);
    while i < items.len()
        invariant
            i <= items.len(),
            m0 == old(visitor).model(),
            walk_definitions::<V>(m0, items@) == walk_definitions::<V>(
                visitor.model(),
                items@.skip(i as int),
            ),
        decreases items.len() - i,
    {
        assert(items@.skip(i as int).drop_first() =~= items@.skip(i + 1));
        assert(items@.skip(i as int)[0] == items@[i as int]);
        visit_nodes(visitor, &items[i].nodes)?;
        i += 1;
    }
    Ok(())
}

/// Whether a warning of this kind is known to be harmless.
pub open spec fn benign(message: WarningMessage) -> bool {
    message == WarningMessage::StrayTextInTable || message == WarningMessage::RepeatedEmptyLine
        || message == WarningMessage::InvalidLinkSyntax || message
        == WarningMessage::UnrecognizedTagName
}

/// Whether every warning is of a harmless kind.
pub open spec fn all_benign(warnings: Seq<Warning>) -> bool {
    forall|i: int| 0 <= i < warnings.len() ==> benign((#[trigger] warnings[i]).message)
}

/// Whether a warning of this kind is known to be harmless.
pub fn is_benign(message: WarningMessage) -> (r: bool)
    ensures
        r == benign(message),
{
    match message {
        WarningMessage::StrayTextInTable
        | WarningMessage::RepeatedEmptyLine
        | WarningMessage::InvalidLinkSyntax
        | WarningMessage::UnrecognizedTagName => true,
        _ => false,
    }
}

/// Whether every warning is of a harmless kind.
pub fn only_benign(warnings: &Vec<Warning>) -> (r: bool)
    ensures
        r == all_benign(warnings@),
{
    let mut i: usize = 0;
    while i < warnings.len()
        invariant
            i <= warnings.len(),
            forall|k: int| 0 <= k < i ==> benign((#[trigger] warnings@[k]).message),
        decreases warnings.len() - i,
    {
        if !is_benign(warnings[i].message) {
            return false;
        }
        i += 1;
    }
    true
}

/// The model of a visitor with the model `m` after it was told the text and has walked
/// the tree.
pub open spec fn walked<V: WikiVisitor>(m: V::Model, text: Seq<char>, nodes: Seq<Node>) -> Result<
    V::Model,
    RewriteError,
> {
    match V::with_text(m, text) {
        Ok(m1) => walk_nodes::<V>(m1, nodes),
        Err(e) => Err(e),
    }
}

/// The edits that a visitor with the model `m` computes for a document: it is told the
/// text, walks the tree, and hands its edits over.
pub open spec fn collected<V: WikiVisitor>(
    m: V::Model,
    text: Seq<char>,
    nodes: Seq<Node>,
) -> Result<Seq<EditView>, RewriteError> {
    match walked::<V>(m, text, nodes) {
        Ok(after) => V::edits_of(after),
        Err(e) => Err(e),
    }
}

/// The document that a visitor with the model `m` makes of a text: `ParserWarning`
/// where the parser gave a warning that is not harmless and warnings are not to be
/// passed over; else what the visitor's edits make of the text.
pub open spec fn transformed<V: WikiVisitor>(
    m: V::Model,
    text: Seq<char>,
    document: Document,
    skip_errors: bool,
) -> Result<Seq<char>, RewriteError> {
    if !skip_errors && !all_benign(document.warnings@) {
        Err(RewriteError::ParserWarning)
    } else {
        match collected::<V>(m, text, document.nodes@) {
            Ok(edits) => compose(text, edits),
            Err(e) => Err(e),
        }
    }
}

/// Rewrites one document: checks the parser's warnings, lets the visitor walk the tree,
/// and applies the edits it computed to the text. Where the warnings end the run the
/// visitor is left as it was; where the walk ends well the visitor is left as the walk
/// has made it.
pub fn transform_text<V: WikiVisitor>(
    existing_text: &str,
    document: &Document,
    visitor: &mut V,
    skip_errors: bool,
) -> (r: Result<String, RewriteError>)
    ensures
        match transformed::<V>(old(visitor).model(), existing_text@, *document, skip_errors) {
            Ok(text) => r is Ok && r.unwrap()@ == text,
            Err(e) => r == Err::<String, RewriteError>(e),
        },
        !skip_errors && !all_benign(document.warnings@) ==> final(visitor).model() == old(
            visitor,
        ).model(),
        skip_errors || all_benign(document.warnings@) ==> (walked::<V>(
            old(visitor).model(),
            existing_text@,
            document.nodes@,
        ) matches Ok(after) ==> final(visitor).model() == after),
{
    if !skip_errors && !only_benign(&document.warnings) {
        return Err(RewriteError::ParserWarning);
    }
    match visitor.set_base_text(existing_text) {
        Ok(()) => {},
        Err(e) => {
            return Err(e);
        },
    }
    match visit_nodes(visitor, &document.nodes) {
        Ok(()) => {},
        Err(e) => {
            return Err(e);
        },
    }
    match visitor.get_replacements() {
        Ok(edits) => apply_edits(existing_text, edits),
        Err(e) => Err(e),
    }
}

/// A visitor that computes no edits leaves the text as it is.
pub proof fn lemma_no_edits_no_change<V: WikiVisitor>(
    m: V::Model,
    text: Seq<char>,
    document: Document,
    skip_errors: bool,
)
    requires
        skip_errors || all_benign(document.warnings@),
        collected::<V>(m, text, document.nodes@) == Ok::<Seq<EditView>, RewriteError>(
            Seq::<EditView>::empty(),
        ),
    ensures
        transformed::<V>(m, text, document, skip_errors) == Ok::<Seq<char>, RewriteError>(text),
{
    lemma_no_edits(text);
}


/// Whether every hook of a visitor keeps a property of the model: where the property
/// holds before a hook that ends well, it holds after it.
pub open spec fn hooks_keep<V: WikiVisitor>(kept: spec_fn(V::Model) -> bool) -> bool {
    &&& forall|m: V::Model, node: Node|
        kept(m) ==> match #[trigger] V::after_template(m, node) {
            Ok(after) => kept(after),
            Err(_) => true,
        }
    &&& forall|m: V::Model, node: Node|
        kept(m) ==> match #[trigger] V::after_table_start(m, node) {
            Ok(after) => kept(after),
            Err(_) => true,
        }
    &&& forall|m: V::Model, row: TableRow|
        kept(m) ==> match #[trigger] V::after_table_row(m, row) {
            Ok(after) => kept(after),
            Err(_) => true,
        }
    &&& forall|m: V::Model, node: Node|
        kept(m) ==> match #[trigger] V::after_table_end(m, node) {
            Ok(after) => kept(after),
            Err(_) => true,
        }
    &&& forall|m: V::Model, node: Node|
        kept(m) ==> match #[trigger] V::after_start_tag(m, node) {
            Ok(after) => kept(after),
            Err(_) => true,
        }
    &&& forall|m: V::Model, node: Node|
        kept(m) ==> match #[trigger] V::after_heading(m, node) {
            Ok(after) => kept(after),
            Err(_) => true,
        }
}

/// Whether a property holds of the model that a walk has led to, if it has ended well.
pub open spec fn holds_after<M>(kept: spec_fn(M) -> bool, walked: Result<M, RewriteError>) -> bool {
    match walked {
        Ok(after) => kept(after),
        Err(_) => true,
    }
}

/// A property of the model that every hook keeps is kept by a whole walk.
pub proof fn lemma_walk_keeps<V: WikiVisitor>(
    kept: spec_fn(V::Model) -> bool,
    m: V::Model,
    nodes: Seq<Node>,
)
    requires
        hooks_keep::<V>(kept),
        kept(m),
    ensures
        holds_after(kept, walk_nodes::<V>(m, nodes)),
    decreases nodes, nodes.len(),
{
    if nodes.len() > 0 {
        lemma_node_keeps::<V>(kept, m, nodes[0]);
        match walk_node::<V>(m, nodes[0]) {
            Ok(m1) => {
                lemma_walk_keeps::<V>(kept, m1, nodes.drop_first());
            },
            Err(_) => {},
        }
    }
}

/// The same for the walk of one node.
proof fn lemma_node_keeps<V: WikiVisitor>(kept: spec_fn(V::Model) -> bool, m: V::Model, node: Node)
    requires
        hooks_keep::<V>(kept),
        kept(m),
    ensures
        holds_after(kept, walk_node::<V>(m, node)),
    decreases node, 0nat,
{
    match node {
        Node::Template { name, parameters, .. } => {
            if let Ok(m1) = V::after_template(m, node) {
                lemma_walk_keeps::<V>(kept, m1, name@);
                if let Ok(m2) = walk_nodes::<V>(m1, name@) {
                    lemma_parameters_keep::<V>(kept, m2, parameters@);
                }
            }
        },
        Node::Heading { nodes, .. } => {
            if let Ok(m1) = V::after_heading(m, node) {
                lemma_walk_keeps::<V>(kept, m1, nodes@);
            }
        },
        Node::Tag { nodes, .. } => {
            lemma_walk_keeps::<V>(kept, m, nodes@);
        },
        Node::Link { text, .. } => {
            lemma_walk_keeps::<V>(kept, m, text@);
        },
        Node::Preformatted { nodes, .. } => {
            lemma_walk_keeps::<V>(kept, m, nodes@);
        },
        Node::Table { attributes, captions, rows, .. } => {
            if let Ok(m1) = V::after_table_start(m, node) {
                lemma_walk_keeps::<V>(kept, m1, attributes@);
                if let Ok(m2) = walk_nodes::<V>(m1, attributes@) {
                    lemma_captions_keep::<V>(kept, m2, captions@);
                    if let Ok(m3) = walk_captions::<V>(m2, captions@) {
                        lemma_rows_keep::<V>(kept, m3, rows@);
                    }
                }
            }
        },
        Node::UnorderedList { items, .. } => {
            lemma_items_keep::<V>(kept, m, items@);
        },
        Node::OrderedList { items, .. } => {
            lemma_items_keep::<V>(kept, m, items@);
        },
        Node::DefinitionList { items, .. } => {
            lemma_definitions_keep::<V>(kept, m, items@);
        },
        Node::Parameter { name, default, .. } => {
            lemma_walk_keeps::<V>(kept, m, name@);
            if let Ok(m1) = walk_nodes::<V>(m, name@) {
                lemma_optional_keeps::<V>(kept, m1, default);
            }
        },
        _ => {},
    }
}

/// The same for the walk of a list of nodes, where there is one.
proof fn lemma_optional_keeps<V: WikiVisitor>(
    kept: spec_fn(V::Model) -> bool,
    m: V::Model,
    nodes: Option<Vec<Node>>,
)
    requires
        hooks_keep::<V>(kept),
        kept(m),
    ensures
        holds_after(kept, walk_optional::<V>(m, nodes)),
    decreases nodes, 0nat,
{
    match nodes {
        Some(ns) => {
            lemma_walk_keeps::<V>(kept, m, ns@);
        },
        None => {},
    }
}

/// The same for the walk of the parameters of a template.
proof fn lemma_parameters_keep<V: WikiVisitor>(
    kept: spec_fn(V::Model) -> bool,
    m: V::Model,
    parameters: Seq<Parameter>,
)
    requires
        hooks_keep::<V>(kept),
        kept(m),
    ensures
        holds_after(kept, walk_parameters::<V>(m, parameters)),
    decreases parameters, parameters.len(),
{
    if parameters.len() > 0 {
        lemma_optional_keeps::<V>(kept, m, parameters[0].name);
        if let Ok(m1) = walk_optional::<V>(m, parameters[0].name) {
            lemma_walk_keeps::<V>(kept, m1, parameters[0].value@);
            if let Ok(m2) = walk_nodes::<V>(m1, parameters[0].value@) {
                lemma_parameters_keep::<V>(kept, m2, parameters.drop_first());
            }
        }
    }
}

/// The same for the walk of the captions of a table.
proof fn lemma_captions_keep<V: WikiVisitor>(
    kept: spec_fn(V::Model) -> bool,
    m: V::Model,
    captions: Seq<TableCaption>,
)
    requires
        hooks_keep::<V>(kept),
        kept(m),
    ensures
        holds_after(kept, walk_captions::<V>(m, captions)),
    decreases captions, captions.len(),
{
    if captions.len() > 0 {
        lemma_optional_keeps::<V>(kept, m, captions[0].attributes);
        if let Ok(m1) = walk_optional::<V>(m, captions[0].attributes) {
            lemma_walk_keeps::<V>(kept, m1, captions[0].content@);
            if let Ok(m2) = walk_nodes::<V>(m1, captions[0].content@) {
                lemma_captions_keep::<V>(kept, m2, captions.drop_first());
            }
        }
    }
}

/// The same for the walk of the rows of a table.
proof fn lemma_rows_keep<V: WikiVisitor>(
    kept: spec_fn(V::Model) -> bool,
    m: V::Model,
    rows: Seq<TableRow>,
)
    requires
        hooks_keep::<V>(kept),
        kept(m),
    ensures
        holds_after(kept, walk_rows::<V>(m, rows)),
    decreases rows, rows.len(),
{
    if rows.len() > 0 {
        if let Ok(m1) = V::after_table_row(m, rows[0]) {
            lemma_walk_keeps::<V>(kept, m1, rows[0].attributes@);
            if let Ok(m2) = walk_nodes::<V>(m1, rows[0].attributes@) {
                lemma_cells_keep::<V>(kept, m2, rows[0].cells@);
                if let Ok(m3) = walk_cells::<V>(m2, rows[0].cells@) {
                    lemma_rows_keep::<V>(kept, m3, rows.drop_first());
                }
            }
        }
    }
}

/// The same for the walk of the cells of a row.
proof fn lemma_cells_keep<V: WikiVisitor>(
    kept: spec_fn(V::Model) -> bool,
    m: V::Model,
    cells: Seq<TableCell>,
)
    requires
        hooks_keep::<V>(kept),
        kept(m),
    ensures
        holds_after(kept, walk_cells::<V>(m, cells)),
    decreases cells, cells.len(),
{
    if cells.len() > 0 {
        lemma_optional_keeps::<V>(kept, m, cells[0].attributes);
        if let Ok(m1) = walk_optional::<V>(m, cells[0].attributes) {
            lemma_walk_keeps::<V>(kept, m1, cells[0].content@);
            if let Ok(m2) = walk_nodes::<V>(m1, cells[0].content@) {
                lemma_cells_keep::<V>(kept, m2, cells.drop_first());
            }
        }
    }
}

/// The same for the walk of the items of a list.
proof fn lemma_items_keep<V: WikiVisitor>(
    kept: spec_fn(V::Model) -> bool,
    m: V::Model,
    items: Seq<ListItem>,
)
    requires
        hooks_keep::<V>(kept),
        kept(m),
    ensures
        holds_after(kept, walk_items::<V>(m, items)),
    decreases items, items.len(),
{
    if items.len() > 0 {
        lemma_walk_keeps::<V>(kept, m, items[0].nodes@);
        if let Ok(m1) = walk_nodes::<V>(m, items[0].nodes@) {
            lemma_items_keep::<V>(kept, m1, items.drop_first());
        }
    }
}

/// The same for the walk of the items of a definition list.
proof fn lemma_definitions_keep<V: WikiVisitor>(
    kept: spec_fn(V::Model) -> bool,
    m: V::Model,
    items: Seq<DefinitionListItem>,
)
    requires
        hooks_keep::<V>(kept),
        kept(m),
    ensures
        holds_after(kept, walk_definitions::<V>(m, items)),
    decreases items, items.len(),
{
    if items.len() > 0 {
        lemma_walk_keeps::<V>(kept, m, items[0].nodes@);
        if let Ok(m1) = walk_nodes::<V>(m, items[0].nodes@) {
            lemma_definitions_keep::<V>(kept, m1, items.drop_first());
        }
    }
}

} // verus!
