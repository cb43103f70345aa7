use wiki_rewriter::error::RewriteError;
use wiki_rewriter::node::{Document, Node};
use wiki_rewriter::parse::{transform_text, WikiVisitor};
use wiki_rewriter::visitors::movecard::MoveCardVisitor;

const CONTAINER: &str = "<div class=\"attack-container\">";
const INFO: &str = "<div class=\"attack-info\">";
const HEADING: &str = "==== ====";
const CLOSE: &str = "{{CloseCard}}";

/// The nodes of a text that is made of the pieces: tags, headings and templates as what
/// they are, anything else as text.
fn document(pieces: &[&str]) -> (String, Document) {
    let mut text = String::new();
    let mut nodes = Vec::new();
    for piece in pieces {
        let start = text.len();
        text.push_str(piece);
        let end = text.len();
        nodes.push(if piece.starts_with("<div") {
            Node::StartTag { start, end }
        } else if piece.starts_with("</") {
            Node::EndTag { start, end }
        } else if piece.starts_with("==") {
            Node::Heading { start, end, nodes: vec![Node::Text { start: start + 4, end: end - 4 }] }
        } else if piece.starts_with("{{") {
            Node::Template {
                start,
                end,
                name: vec![Node::Text { start: start + 2, end: end - 2 }],
                parameters: vec![],
            }
        } else {
            Node::Text { start, end }
        });
    }
    (text, Document { nodes, warnings: vec![] })
}

fn run(pieces: &[&str]) -> (Result<String, RewriteError>, MoveCardVisitor) {
    let (text, document) = document(pieces);
    let mut visitor = MoveCardVisitor::new();
    let out = transform_text(&text, &document, &mut visitor, false);
    (out, visitor)
}

fn card(description: &str) -> String {
    format!("{{{{GGST Move Card\n|input=\n|description=\n{}\n}}}}", description)
}

#[test]
fn a_container_becomes_a_card() {
    let pieces =
        ["\n", CONTAINER, "\n", INFO, "\ndata\n", HEADING, "\nSome description.\n", CLOSE];
    let (text, _) = document(&pieces);
    let (out, visitor) = run(&pieces);
    assert_eq!(out, Ok(format!("\n{}", card("Some description."))));
    let edits = visitor.get_replacements().unwrap();
    assert_eq!(edits.len(), 1);
    assert_eq!((edits[0].start, edits[0].end), (1, text.len()));
    assert_eq!(edits[0].replacement, "{{GGST Move Card\n|input=\n|description=\nSome description.\n}}");
}

#[test]
fn a_card_may_stand_at_the_start_of_the_text() {
    let pieces = [CONTAINER, INFO, HEADING, "\nSome description.\n", CLOSE, "\nafter"];
    let (out, visitor) = run(&pieces);
    let edits = visitor.get_replacements().unwrap();
    assert_eq!(edits.len(), 1);
    assert_eq!(edits[0].start, 0);
    assert_eq!(out, Ok(format!("{}\nafter", card("Some description."))));
}

#[test]
fn the_description_reaches_up_to_the_marker() {
    let (out, visitor) = run(&[CONTAINER, INFO, HEADING, "\nSome description.", CLOSE]);
    assert_eq!(out, Ok(card("Some description.")));
    assert_eq!(
        visitor.get_replacements().unwrap()[0].replacement,
        "{{GGST Move Card\n|input=\n|description=\nSome description.\n}}"
    );
    let (out, _) = run(&[CONTAINER, INFO, HEADING, "abc", CLOSE]);
    assert_eq!(out, Ok(card("abc")));
    let (out, _) = run(&[CONTAINER, INFO, HEADING, CLOSE]);
    assert_eq!(out, Ok(card("")));
}

#[test]
fn the_text_around_a_container_stays() {
    let (out, _) = run(&[
        "before\n", CONTAINER, INFO, HEADING, "  The description\n\twith two lines. \n", CLOSE,
        "\nafter",
    ]);
    assert_eq!(
        out,
        Ok(format!("before\n{}\nafter", card("The description\n\twith two lines.")))
    );
}

#[test]
fn every_container_becomes_a_card() {
    let (out, visitor) = run(&[
        "\n", CONTAINER, INFO, HEADING, "\nfirst\n", CLOSE, "\n", CONTAINER, INFO, HEADING,
        "\nsecond\n", CLOSE,
    ]);
    assert_eq!(out, Ok(format!("\n{}\n{}", card("first"), card("second"))));
    assert_eq!(visitor.get_replacements().unwrap().len(), 2);
}

#[test]
fn other_templates_change_nothing() {
    let pieces = [CONTAINER, INFO, HEADING, "\ntext\n", "{{Other}}", "{{closecard}}"];
    let (text, _) = document(&pieces);
    let (out, visitor) = run(&pieces);
    assert_eq!(out, Ok(text));
    assert_eq!(visitor.get_replacements().unwrap().len(), 0);
}

#[test]
fn other_tags_and_headings_change_nothing() {
    let (out, _) = run(&[
        "\n", CONTAINER, "<div class=\"other\">", INFO, "==== Title ====", "== ==", HEADING,
        "\ntext\n", "<div>", CLOSE,
    ]);
    assert_eq!(out, Ok(format!("\n{}", card("text\n<div>"))));
}

#[test]
fn the_heading_counts_inside_an_info_block_only() {
    // without an info block the description starts where the last one started: at 0
    let pieces = ["x", CONTAINER, HEADING, "\ntext\n", CLOSE];
    let (out, _) = run(&pieces);
    assert_eq!(out, Ok(format!("x{}", card(&format!("x{}{}\ntext", CONTAINER, HEADING)))));
}

#[test]
fn the_first_heading_of_an_info_block_counts() {
    let (out, _) = run(&["\n", CONTAINER, INFO, HEADING, "\none\n", HEADING, "\ntwo\n", CLOSE]);
    assert_eq!(out, Ok(format!("\n{}", card(&format!("one\n{}\ntwo", HEADING)))));
}

#[test]
fn a_container_ends_an_info_block() {
    let (out, _) = run(&[INFO, CONTAINER, HEADING, "\ntext\n", CLOSE]);
    assert_eq!(out, Ok(format!("{}{}", INFO, card(&format!("{}{}{}\ntext", INFO, CONTAINER, HEADING)))));
}

#[test]
fn a_marker_without_a_container_ends_the_run() {
    let (out, _) = run(&["text\n", CLOSE]);
    assert_eq!(out, Err(RewriteError::MalformedNesting));
    let (out, _) = run(&[INFO, HEADING, "\ntext\n", CLOSE]);
    assert_eq!(out, Err(RewriteError::MalformedNesting));
}

#[test]
fn a_second_marker_needs_a_second_container() {
    let (out, _) = run(&["\n", CONTAINER, INFO, HEADING, "\ntext\n", CLOSE, "\n", CLOSE]);
    assert_eq!(out, Err(RewriteError::MalformedNesting));
}

#[test]
fn a_marker_at_the_start_of_the_text_may_close_a_later_container() {
    // the tree is shown out of order: the container behind the marker was shown first
    let mut visitor = MoveCardVisitor::new();
    visitor.set_base_text(&format!("{}{}", CLOSE, CONTAINER)).unwrap();
    let container = Node::StartTag { start: CLOSE.len(), end: CLOSE.len() + CONTAINER.len() };
    assert_eq!(visitor.visit_start_tag(&container), Ok(()));
    let close = Node::Template {
        start: 0,
        end: CLOSE.len(),
        name: vec![Node::Text { start: 2, end: CLOSE.len() - 2 }],
        parameters: vec![],
    };
    assert_eq!(visitor.visit_template(&close), Ok(()));
    let edits = visitor.get_replacements().unwrap();
    assert_eq!((edits[0].start, edits[0].end), (CLOSE.len(), CLOSE.len()));
    assert_eq!(edits[0].replacement, card(""));
}

#[test]
fn a_marker_before_the_description_ends_the_run() {
    // the sub-heading of the second container ends behind the marker that is shown
    let (text, document) = document(&[CONTAINER, CLOSE, INFO, HEADING]);
    let mut visitor = MoveCardVisitor::new();
    visitor.set_base_text(&text).unwrap();
    assert_eq!(visitor.visit_start_tag(&document.nodes[0]), Ok(()));
    assert_eq!(visitor.visit_start_tag(&document.nodes[2]), Ok(()));
    assert_eq!(visitor.visit_heading(&document.nodes[3]), Ok(()));
    assert_eq!(visitor.visit_template(&document.nodes[1]), Err(RewriteError::BadSpan));
}

#[test]
fn the_description_must_end_between_characters() {
    let (text, mut document) = document(&["\n", CONTAINER, INFO, HEADING, "\ntexté", CLOSE]);
    if let Some(Node::Template { start, .. }) = document.nodes.last_mut() {
        *start -= 1;
    }
    let mut visitor = MoveCardVisitor::new();
    assert_eq!(transform_text(&text, &document, &mut visitor, false), Err(RewriteError::BadSpan));
}

#[test]
fn a_card_template_without_a_name_ends_the_run() {
    let mut visitor = MoveCardVisitor::new();
    visitor.set_base_text("{{}}").unwrap();
    let node = Node::Template { start: 0, end: 4, name: vec![], parameters: vec![] };
    assert_eq!(visitor.visit_template(&node), Err(RewriteError::NoSpan));
}

#[test]
fn the_template_hook_passes_other_nodes_by() {
    let mut visitor = MoveCardVisitor::new();
    visitor.set_base_text("text").unwrap();
    assert_eq!(visitor.visit_template(&Node::Text { start: 0, end: 4 }), Ok(()));
}

#[test]
fn a_tag_with_a_bad_range_ends_the_run() {
    let mut visitor = MoveCardVisitor::new();
    visitor.set_base_text("<div>").unwrap();
    assert_eq!(
        visitor.visit_start_tag(&Node::StartTag { start: 0, end: 9 }),
        Err(RewriteError::BadSpan)
    );
    assert_eq!(
        visitor.visit_heading(&Node::Heading { start: 3, end: 2, nodes: vec![] }),
        Err(RewriteError::BadSpan)
    );
    assert_eq!(
        visitor.visit_start_tag(&Node::Italic { start: 0, end: 2 }),
        Err(RewriteError::NoSpan)
    );
}
