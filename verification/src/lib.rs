//! A rewriting engine for wiki markup: it walks the parsed tree of a page, lets a
//! visitor compute a sparse set of edits, and rebuilds the page from its text and
//! those edits, leaving every byte outside the edited ranges as it was.
//!
//! The page-level entry points stand here; the engine is in [`parse`] and [`edit`], the
//! rewrite strategies are in [`visitors`].

use crate::error::RewriteError;
use crate::node::Document;
use crate::parse::{all_benign, transform_text, transformed, walked};
use crate::text::{occurs_at, starts_with, str_eq};
use crate::visitors::color::{
    rejected_view, spans_view, ColorConfig, ColorRules, ColorVisitor, Letter, Rejected,
};
use crate::visitors::combo::{ComboTableVisitor, Misfit};
use crate::visitors::findnreplace::{FindReplaceConfig, FindReplaceVisitor};
use vstd::prelude::*;
use vstd::string::*;
use vstd::utf8::*;

pub mod api;
pub mod edit;
pub mod error;
pub mod lists;
pub mod node;
pub mod parse;
pub mod parse_ext_traits;
pub mod pattern;
pub mod text;
pub mod visitors;

verus! {

/// Whether a rewritten document is the expected one, or the failure is.
pub open spec fn delivered(
    expected: Result<Seq<char>, RewriteError>,
    r: Result<String, RewriteError>,
) -> bool {
    match expected {
        Ok(text) => r is Ok && r.unwrap()@ == text,
        Err(e) => r == Err::<String, RewriteError>(e),
    }
}

/// The file that holds the colour rules for a page, by the game that the title of the
/// page begins with.
pub open spec fn rules_file(title: Seq<char>) -> Option<Seq<char>> {
    if occurs_at(encode_utf8(title), encode_utf8("GGST/"@), 0) {
        Some("data/color/ggst.json5"@)
    } else if occurs_at(encode_utf8(title), encode_utf8("GGACR/"@), 0) {
        Some("data/color/ggacr.json5"@)
    } else {
        None
    }
}

/// The file that holds the colour rules for a page, or `None` for a page of no known
/// game.
pub fn color_config_file(title: &str) -> (r: Option<&'static str>)
    ensures
        match rules_file(title@) {
            Some(file) => r is Some && r.unwrap()@ == file,
            None => r is None,
        },
{
    if starts_with(title, "GGST/") {
        Some("data/color/ggst.json5")
    } else if starts_with(title, "GGACR/") {
        Some("data/color/ggacr.json5")
    } else {
        None
    }
}

/// Whether the parser's warnings are passed over for a page.
pub open spec fn warnings_waived(title: Seq<char>) -> bool {
    title == "GGACR/Venom/Combos"@
}

/// Whether the parser's warnings are passed over for a page.
pub fn waives_warnings(title: &str) -> (r: bool)
    ensures
        r == warnings_waived(title@),
{
    str_eq(title, "GGACR/Venom/Combos")
}

/// What a colour run has made of a page: the rewritten text or the failure, and what
/// the classifier has put on record on the way.
#[derive(Debug)]
pub struct Colorized {
    pub text: Result<String, RewriteError>,
    /// The labels that were refused, each once for its letter.
    pub refused: Vec<Rejected>,
    /// The ranges of the colour templates with more than a code and a label.
    pub miscounted: Vec<(usize, usize)>,
}

/// What the classifier has on record after a run: nothing where the warnings of the
/// parser ended the run, else what the walk has left, if it ended well.
pub open spec fn findings_of(
    rules: ColorRules,
    text: Seq<char>,
    document: Document,
    skip_errors: bool,
    refused: Seq<(Letter, Seq<char>)>,
    miscounted: Seq<(int, int)>,
) -> bool {
    if !skip_errors && !all_benign(document.warnings@) {
        refused.len() == 0 && miscounted.len() == 0
    } else {
        match walked::<ColorVisitor>(
            crate::visitors::color::started(rules),
            text,
            document.nodes@,
        ) {
            Ok(after) => refused == after.rejected && miscounted == after.miscounted,
            Err(_) => true,
        }
    }
}

/// Rewrites the colour templates of a page with the given rules, and reports every
/// label that was refused. On the one page that is known to parse with warnings, these
/// are passed over.
pub fn colorize_page(
    title: &str,
    existing_text: &str,
    document: &Document,
    config: ColorConfig,
) -> (r: Colorized)
    ensures
        delivered(
            transformed::<ColorVisitor>(
                crate::visitors::color::started(config@),
                existing_text@,
                *document,
                warnings_waived(title@),
            ),
            r.text,
        ),
        findings_of(
            config@,
            existing_text@,
            *document,
            warnings_waived(title@),
            rejected_view(r.refused@),
            spans_view(r.miscounted@),
        ),
{
    let mut visitor = ColorVisitor::new(config);
    let text = transform_text(existing_text, document, &mut visitor, waives_warnings(title));
    let (refused, miscounted) = visitor.into_findings();
    Colorized { text, refused, miscounted }
}

/// What a combo run has made of a page: the rewritten text or the failure, and the
/// rows that did not fit the header of their table.
#[derive(Debug)]
pub struct Reshaped {
    pub text: Result<String, RewriteError>,
    pub misfits: Vec<Misfit>,
}

/// Rewrites the combo tables of a page, and reports every row that did not fit.
pub fn templatize_combo(existing_text: &str, document: &Document) -> (r: Reshaped)
    ensures
        delivered(
            transformed::<ComboTableVisitor>(
                crate::visitors::combo::fresh(),
                existing_text@,
                *document,
                false,
            ),
            r.text,
        ),
        !all_benign(document.warnings@) ==> r.misfits@.len() == 0,
        all_benign(document.warnings@) ==> (walked::<ComboTableVisitor>(
            crate::visitors::combo::fresh(),
            existing_text@,
            document.nodes@,
        ) matches Ok(after) ==> r.misfits@ == after.misfits),
{
    let mut visitor = ComboTableVisitor::new();
    let text = transform_text(existing_text, document, &mut visitor, false);
    let misfits = visitor.into_misfits();
    Reshaped { text, misfits }
}

/// Applies the substitutions of the rules to a page.
pub fn find_n_replace(existing_text: &str, document: &Document, config: &FindReplaceConfig) -> (r:
    Result<String, RewriteError>)
    ensures
        delivered(
            transformed::<FindReplaceVisitor>(
                crate::visitors::findnreplace::started(config@),
                existing_text@,
                *document,
                false,
            ),
            r,
        ),
{
    let mut visitor = FindReplaceVisitor::new(config);
    transform_text(existing_text, document, &mut visitor, false)
}

} // verus!
