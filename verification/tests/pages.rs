use wiki_rewriter::error::RewriteError;
use wiki_rewriter::lists::{as_pieces, clone_pairs, clone_strings, join, list_contains};
use wiki_rewriter::node::{Document, Node, Parameter, TableCell, TableCellType, TableRow, Warning, WarningMessage};
use wiki_rewriter::visitors::color::{Letter, Rejected};
use wiki_rewriter::visitors::{ColorConfig, FindReplaceConfig};
use wiki_rewriter::{color_config_file, colorize_page, find_n_replace, templatize_combo};

fn colour_page() -> (&'static str, Document) {
    let text = "x {{clr|1|5P}} y";
    let template = Node::Template {
        start: 2,
        end: 14,
        name: vec![Node::Text { start: 4, end: 7 }],
        parameters: vec![
            Parameter { start: 8, end: 9, name: None, value: vec![Node::Text { start: 8, end: 9 }] },
            Parameter { start: 10, end: 12, name: None, value: vec![Node::Text { start: 10, end: 12 }] },
        ],
    };
    let nodes = vec![Node::Text { start: 0, end: 2 }, template, Node::Text { start: 14, end: 16 }];
    (text, Document { nodes, warnings: vec![] })
}

fn colour_rules() -> ColorConfig {
    ColorConfig::new(vec![("P".to_string(), vec!["5P".to_string()])], vec![], vec![]).unwrap()
}

#[test]
fn the_rules_of_a_page_go_by_its_game() {
    assert_eq!(color_config_file("GGST/Sol Badguy"), Some("data/color/ggst.json5"));
    assert_eq!(color_config_file("GGST/"), Some("data/color/ggst.json5"));
    assert_eq!(color_config_file("GGACR/Venom/Combos"), Some("data/color/ggacr.json5"));
    assert_eq!(color_config_file("GGACR"), None);
    assert_eq!(color_config_file("BBCF/Ragna"), None);
    assert_eq!(color_config_file(" GGST/Sol"), None);
    assert_eq!(color_config_file("ggst/Sol"), None);
    assert_eq!(color_config_file(""), None);
}

#[test]
fn a_page_is_colorized() {
    let (text, document) = colour_page();
    let done = colorize_page("GGST/Sol", text, &document, colour_rules());
    assert_eq!(done.text, Ok("x {{clr|P|5P}} y".to_string()));
    assert_eq!(done.refused, vec![]);
    assert_eq!(done.miscounted, vec![]);
}

#[test]
fn a_colorized_page_reports_what_was_refused() {
    let (text, document) = colour_page();
    let rules = ColorConfig::new(vec![], vec!["x".to_string()], vec![]).unwrap();
    let text = text.replace("5P", "??");
    let done = colorize_page("GGST/Sol", &text, &document, rules);
    assert_eq!(done.text, Err(RewriteError::ValidationFailed));
    assert_eq!(done.refused, vec![Rejected { letter: Letter::P, label: "??".to_string() }]);
    assert_eq!(done.miscounted, vec![]);
}

#[test]
fn warnings_are_passed_over_on_one_page_only() {
    let (text, mut document) = colour_page();
    document.warnings.push(Warning { start: 0, end: 1, message: WarningMessage::InvalidTagSyntax });
    assert_eq!(
        colorize_page("GGACR/Venom", text, &document, colour_rules()).text,
        Err(RewriteError::ParserWarning)
    );
    assert_eq!(
        colorize_page("GGACR/Venom/Combos", text, &document, colour_rules()).text,
        Ok("x {{clr|P|5P}} y".to_string())
    );
}

#[test]
fn the_combo_tables_of_a_page_are_rewritten() {
    let text = ":a!b!c!d\n|1|2|3|4";
    let cell = |at: usize, type_: TableCellType| TableCell {
        start: at,
        end: at + 1,
        type_,
        attributes: None,
        content: vec![Node::Text { start: at, end: at + 1 }],
    };
    let mut document = Document {
        nodes: vec![Node::Table {
            start: 0,
            end: text.len(),
            attributes: vec![],
            captions: vec![],
            rows: vec![
                TableRow {
                    start: 1,
                    end: 8,
                    attributes: vec![],
                    cells: (0..4).map(|i| cell(1 + 2 * i, TableCellType::Heading)).collect(),
                },
                TableRow {
                    start: 9,
                    end: 17,
                    attributes: vec![],
                    cells: (0..4).map(|i| cell(10 + 2 * i, TableCellType::Ordinary)).collect(),
                },
            ],
        }],
        warnings: vec![],
    };
    assert_eq!(templatize_combo(text, &document).text, Err(RewriteError::UnknownCaption));
    let text = ":combo!damage!notes!video\n|1|2|3|4";
    if let Node::Table { rows, .. } = &mut document.nodes[0] {
        let mut at = 0;
        for (cell, caption) in rows[0].cells.iter_mut().zip(["combo", "damage", "notes", "video"]) {
            cell.content = vec![Node::Text { start: at + 1, end: at + 1 + caption.len() }];
            at += 1 + caption.len();
        }
        rows[0].end = at;
        rows[1].start = at + 1;
        rows[1].end = text.len();
        for (i, cell) in rows[1].cells.iter_mut().enumerate() {
            cell.content = vec![Node::Text { start: at + 2 + 2 * i, end: at + 3 + 2 * i }];
        }
    }
    assert_eq!(
        templatize_combo(text, &document).text,
        Ok(":|-\n{{GGST-ComboTableHeader}}\n|-\n{{GGST-ComboTableRow\n|combo = 1\n|damage = 2\n|notes = 3\n|video = 4\n|checkedVersion = \n}}".to_string())
    );
    document.warnings.push(Warning { start: 0, end: 1, message: WarningMessage::InvalidTagSyntax });
    assert_eq!(templatize_combo(text, &document).text, Err(RewriteError::ParserWarning));
}

#[test]
fn substitutions_do_not_pass_warnings_over() {
    let rules = FindReplaceConfig::new(vec![], vec![], vec![("a".to_string(), "b".to_string())]);
    let mut document = Document { nodes: vec![], warnings: vec![] };
    assert_eq!(find_n_replace("banana", &document, &rules), Ok("bbnana".to_string()));
    document.warnings.push(Warning { start: 0, end: 1, message: WarningMessage::InvalidCharacter });
    assert_eq!(find_n_replace("banana", &document, &rules), Err(RewriteError::ParserWarning));
}

#[test]
fn join_puts_the_separator_between_the_items() {
    assert_eq!(join(&vec![], ", "), "");
    assert_eq!(join(&vec!["a"], ", "), "a");
    assert_eq!(join(&vec!["a", "b", "c"], ", "), "a, b, c");
    assert_eq!(join(&vec!["", ""], "|"), "|");
    assert_eq!(join(&vec!["a", "b"], ""), "ab");
}

#[test]
fn lists_are_searched_and_copied() {
    let list = vec!["one".to_string(), "two".to_string()];
    assert!(list_contains(&list, "one"));
    assert!(list_contains(&list, "two"));
    assert!(!list_contains(&list, "One"));
    assert!(!list_contains(&list, ""));
    assert!(!list_contains(&vec![], "one"));
    assert_eq!(clone_strings(&list), list);
    assert_eq!(as_pieces(&list), vec!["one", "two"]);
    let pairs = vec![("a".to_string(), "b".to_string()), ("c".to_string(), "d".to_string())];
    assert_eq!(clone_pairs(&pairs), pairs);
}
