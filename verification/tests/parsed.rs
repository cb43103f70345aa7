use parse_wiki_text::Node as Parsed;
use parse_wiki_text::WarningMessage as M;
use wiki_rewriter::error::RewriteError;
use wiki_rewriter::node::{
    DefinitionListItem, Document, ListItem, Node, Parameter, TableCaption, TableCell,
    TableCellType, TableRow, Warning, WarningMessage,
};
use wiki_rewriter::parse::{transform_text, WikiVisitor};
use wiki_rewriter::visitors::combo::Column;
use wiki_rewriter::visitors::movecard::MoveCardVisitor;
use wiki_rewriter::visitors::{ColorConfig, ColorVisitor, ComboTableVisitor, FindReplaceConfig};
use wiki_rewriter::{find_n_replace, templatize_combo};

fn nodes(list: &[Parsed]) -> Vec<Node> {
    list.iter().map(node).collect()
}

fn optional(list: &Option<Vec<Parsed>>) -> Option<Vec<Node>> {
    list.as_ref().map(|l| nodes(l))
}

fn items(list: &[parse_wiki_text::ListItem]) -> Vec<ListItem> {
    list.iter().map(|i| ListItem { start: i.start, end: i.end, nodes: nodes(&i.nodes) }).collect()
}

fn node(n: &Parsed) -> Node {
    match n {
        Parsed::Bold { start, end } => Node::Bold { start: *start, end: *end },
        Parsed::BoldItalic { start, end } => Node::BoldItalic { start: *start, end: *end },
        Parsed::Category { start, end, ordinal, .. } => {
            Node::Category { start: *start, end: *end, ordinal: nodes(ordinal) }
        }
        Parsed::CharacterEntity { start, end, .. } => {
            Node::CharacterEntity { start: *start, end: *end }
        }
        Parsed::Comment { start, end } => Node::Comment { start: *start, end: *end },
        Parsed::DefinitionList { start, end, items } => Node::DefinitionList {
            start: *start,
            end: *end,
            items: items
                .iter()
                .map(|i| DefinitionListItem { start: i.start, end: i.end, nodes: nodes(&i.nodes) })
                .collect(),
        },
        Parsed::EndTag { start, end, .. } => Node::EndTag { start: *start, end: *end },
        Parsed::ExternalLink { start, end, nodes: inner } => {
            Node::ExternalLink { start: *start, end: *end, nodes: nodes(inner) }
        }
        Parsed::Heading { start, end, nodes: inner, .. } => {
            Node::Heading { start: *start, end: *end, nodes: nodes(inner) }
        }
        Parsed::HorizontalDivider { start, end } => {
            Node::HorizontalDivider { start: *start, end: *end }
        }
        Parsed::Image { start, end, text, .. } => {
            Node::Image { start: *start, end: *end, text: nodes(text) }
        }
        Parsed::Italic { start, end } => Node::Italic { start: *start, end: *end },
        Parsed::Link { start, end, text, .. } => {
            Node::Link { start: *start, end: *end, text: nodes(text) }
        }
        Parsed::MagicWord { start, end } => Node::MagicWord { start: *start, end: *end },
        Parsed::OrderedList { start, end, items: list } => {
            Node::OrderedList { start: *start, end: *end, items: items(list) }
        }
        Parsed::ParagraphBreak { start, end } => Node::ParagraphBreak { start: *start, end: *end },
        Parsed::Parameter { start, end, name, default } => Node::Parameter {
            start: *start,
            end: *end,
            name: nodes(name),
            default: optional(default),
        },
        Parsed::Preformatted { start, end, nodes: inner } => {
            Node::Preformatted { start: *start, end: *end, nodes: nodes(inner) }
        }
        Parsed::Redirect { start, end, .. } => Node::Redirect { start: *start, end: *end },
        Parsed::StartTag { start, end, .. } => Node::StartTag { start: *start, end: *end },
        Parsed::Table { start, end, attributes, captions, rows } => Node::Table {
            start: *start,
            end: *end,
            attributes: nodes(attributes),
            captions: captions
                .iter()
                .map(|c| TableCaption {
                    start: c.start,
                    end: c.end,
                    attributes: optional(&c.attributes),
                    content: nodes(&c.content),
                })
                .collect(),
            rows: rows
                .iter()
                .map(|r| TableRow {
                    start: r.start,
                    end: r.end,
                    attributes: nodes(&r.attributes),
                    cells: r
                        .cells
                        .iter()
                        .map(|c| TableCell {
                            start: c.start,
                            end: c.end,
                            type_: match c.type_ {
                                parse_wiki_text::TableCellType::Heading => TableCellType::Heading,
                                parse_wiki_text::TableCellType::Ordinary => TableCellType::Ordinary,
                            },
                            attributes: optional(&c.attributes),
                            content: nodes(&c.content),
                        })
                        .collect(),
                })
                .collect(),
        },
        Parsed::Tag { start, end, nodes: inner, .. } => {
            Node::Tag { start: *start, end: *end, nodes: nodes(inner) }
        }
        Parsed::Template { start, end, name, parameters } => Node::Template {
            start: *start,
            end: *end,
            name: nodes(name),
            parameters: parameters
                .iter()
                .map(|p| Parameter {
                    start: p.start,
                    end: p.end,
                    name: optional(&p.name),
                    value: nodes(&p.value),
                })
                .collect(),
        },
        Parsed::Text { start, end, .. } => Node::Text { start: *start, end: *end },
        Parsed::UnorderedList { start, end, items: list } => {
            Node::UnorderedList { start: *start, end: *end, items: items(list) }
        }
    }
}

fn message(m: parse_wiki_text::WarningMessage) -> WarningMessage {
    match m {
        M::DefinitionTermContinuation => WarningMessage::DefinitionTermContinuation,
        M::EndTagInComment => WarningMessage::EndTagInComment,
        M::InvalidCharacter => WarningMessage::InvalidCharacter,
        M::InvalidHeadingSyntaxRewinding => WarningMessage::InvalidHeadingSyntaxRewinding,
        M::InvalidLinkSyntax => WarningMessage::InvalidLinkSyntax,
        M::InvalidParameterSyntax => WarningMessage::InvalidParameterSyntax,
        M::InvalidTagSyntax => WarningMessage::InvalidTagSyntax,
        M::MissingEndTagRewinding => WarningMessage::MissingEndTagRewinding,
        M::RepeatedEmptyLine => WarningMessage::RepeatedEmptyLine,
        M::StrayTextInTable => WarningMessage::StrayTextInTable,
        M::TextAfterRedirect => WarningMessage::TextAfterRedirect,
        M::UnexpectedEndTagRewinding => WarningMessage::UnexpectedEndTagRewinding,
        M::UnexpectedEndTag => WarningMessage::UnexpectedEndTag,
        M::UnexpectedHeadingLevelCorrecting => WarningMessage::UnexpectedHeadingLevelCorrecting,
        M::UnrecognizedTagName => WarningMessage::UnrecognizedTagName,
        M::UselessTextInParameter => WarningMessage::UselessTextInParameter,
        M::UselessTextInRedirect => WarningMessage::UselessTextInRedirect,
    }
}

/// Parses a text as the pages of the wiki are parsed.
fn parse(text: &str) -> Document {
    let parsed = parse_wiki_text::Configuration::new(&parse_wiki_text::ConfigurationSource {
        link_trail: "/^([a-z]+)(.*)$/sD",
        category_namespaces: &["category"],
        extension_tags: &["big", "pre", "nowiki", "gallery", "ref", "tabber"],
        file_namespaces: &["file"],
        magic_words: &[],
        protocols: &["http://", "https://"],
        redirect_magic_words: &["redirect"],
    })
    .parse(text);
    Document {
        nodes: nodes(&parsed.nodes),
        warnings: parsed
            .warnings
            .iter()
            .map(|w| Warning { start: w.start, end: w.end, message: message(w.message) })
            .collect(),
    }
}

fn color_rules() -> ColorConfig {
    ColorConfig::new(
        vec![("P".to_string(), vec!["5p".to_string(), "2p".to_string()]), ("K".to_string(), vec![])],
        vec!["punch".to_string()],
        vec![],
    )
    .unwrap()
}

#[test]
fn colour_codes_of_a_parsed_page_are_rewritten() {
    let text = "===<big>{{clr|1|5P}}</big>===\n* {{clr|1|2P}} > {{clr|2|5K}}\n* {{clr|P|done}}, {{clr|1|Punch}}\n";
    let document = parse(text);
    let mut visitor = ColorVisitor::new(color_rules());
    assert_eq!(
        transform_text(text, &document, &mut visitor, false),
        Ok("===<big>{{clr|P|5P}}</big>===\n* {{clr|P|2P}} > {{clr|K|5K}}\n* {{clr|P|done}}, {{clr|1|Punch}}\n"
            .to_string())
    );
}

#[test]
fn a_refused_label_of_a_parsed_page_keeps_the_page_as_it_is() {
    let text = "{{clr|1|5P}} then {{clr|1|random text}}";
    let document = parse(text);
    let mut visitor = ColorVisitor::new(color_rules());
    assert_eq!(
        transform_text(text, &document, &mut visitor, false),
        Err(RewriteError::ValidationFailed)
    );
    assert_eq!(visitor.rejected().len(), 1);
    assert_eq!(visitor.rejected()[0].label, "random text");
    assert!(visitor.get_replacements().is_err());
}

#[test]
fn colour_templates_are_found_inside_tables_and_templates() {
    let text = "{|\n|-\n! {{clr|1|5P}}\n|-\n| {{outer|{{clr|1|2P}}|key={{clr|2|5K}}}}\n|}\n[[Page|{{clr|1|5P}}]]";
    let document = parse(text);
    let mut visitor = ColorVisitor::new(color_rules());
    assert_eq!(
        transform_text(text, &document, &mut visitor, false),
        Ok("{|\n|-\n! {{clr|P|5P}}\n|-\n| {{outer|{{clr|P|2P}}|key={{clr|K|5K}}}}\n|}\n[[Page|{{clr|P|5P}}]]"
            .to_string())
    );
}

const COMBO_TABLE: &str = "Intro\n{| class=\"wikitable\"\n|-\n! Combo !! Damage !! Position !! Notes\n|-\n| 5P > 5K || 30 || Anywhere || Easy\n|-\n| 2K > 2D || 45 || Corner || \n|}\nOutro";

#[test]
fn a_parsed_combo_table_is_rewritten() {
    let document = parse(COMBO_TABLE);
    assert_eq!(
        templatize_combo(COMBO_TABLE, &document).text,
        Ok([
            "Intro\n{| class=\"wikitable\"",
            "|-\n{{GGST-ComboTableHeader}}",
            "|-\n{{GGST-ComboTableRow",
            "|combo = 5P > 5K",
            "|position = Anywhere",
            "|damage = 30",
            "|notes = Easy",
            "|checkedVersion = ",
            "}}",
            "|-\n{{GGST-ComboTableRow",
            "|combo = 2K > 2D",
            "|position = Corner",
            "|damage = 45",
            "|notes = ",
            "|checkedVersion = ",
            "}}",
            "|}\nOutro",
        ]
        .join("\n"))
    );
}

#[test]
fn the_header_of_a_parsed_table_fixes_the_columns() {
    let document = parse(COMBO_TABLE);
    let mut visitor = ComboTableVisitor::new();
    assert!(transform_text(COMBO_TABLE, &document, &mut visitor, false).is_ok());
    assert_eq!(
        visitor.columns(),
        &Some(vec![Column::Combo, Column::Damage, Column::Position, Column::Notes])
    );
    assert_eq!(visitor.get_replacements().unwrap().len(), 3);
}

#[test]
fn a_short_row_of_a_parsed_table_keeps_the_page_as_it_is() {
    let text = "{|\n|-\n! Combo !! Damage !! Position !! Notes\n|-\n| 5P > 5K || 30 || Anywhere || Easy\n|-\n| 2K || 20 || Corner\n|}";
    let document = parse(text);
    let mut visitor = ComboTableVisitor::new();
    assert_eq!(
        transform_text(text, &document, &mut visitor, false),
        Err(RewriteError::ValidationFailed)
    );
    assert!(visitor.has_errors());
    assert_eq!(visitor.get_replacements().err(), Some(RewriteError::ValidationFailed));
    let done = templatize_combo(text, &document);
    assert_eq!(done.text, Err(RewriteError::ValidationFailed));
    assert_eq!(done.misfits.len(), 1);
    assert_eq!((done.misfits[0].cells, done.misfits[0].columns), (3, 4));
    assert_eq!(&text[done.misfits[0].start..done.misfits[0].end], "|-\n| 2K || 20 || Corner");
}

#[test]
fn a_parsed_move_card_is_extracted() {
    let text = "<div class=\"attack-container\">\n<div class=\"attack-info\">\n{{AttackData}}\n==== ====\nSome description.{{CloseCard}}\nafter";
    let document = parse(text);
    let mut visitor = MoveCardVisitor::new();
    let out = transform_text(text, &document, &mut visitor, true);
    assert_eq!(
        out,
        Ok("{{GGST Move Card\n|input=\n|description=\nSome description.\n}}\nafter".to_string())
    );
    let edits = visitor.get_replacements().unwrap();
    assert_eq!(edits.len(), 1);
    assert_eq!(edits[0].start, 0);
    assert_eq!(edits[0].end, text.find("\nafter").unwrap());
}

#[test]
fn substitutions_on_a_parsed_page() {
    let text = "See [[GGST/Sol]] and {{clr|1|5P}}.";
    let rules = FindReplaceConfig::new(
        vec!["GGST".to_string()],
        vec![(r"\{\{clr\|(\d)\|", "{{color|$1|".to_string())]
            .into_iter()
            .map(|(a, b)| (a.to_string(), b))
            .collect(),
        vec![("and".to_string(), "with".to_string())],
    );
    let document = parse(text);
    assert_eq!(
        find_n_replace(text, &document, &rules),
        Ok("See [[GGST/Sol]] with {{color|1|5P}}.".to_string())
    );
}

#[test]
fn a_parsed_page_with_an_image_has_no_rule() {
    let text = "[[File:Picture.png|thumb]] text";
    let document = parse(text);
    let mut visitor = MoveCardVisitor::new();
    assert_eq!(
        transform_text(text, &document, &mut visitor, false),
        Err(RewriteError::UnhandledNode)
    );
}
