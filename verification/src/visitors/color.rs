//! The colour classifier: from numeric colour codes to letters, for labels that are
//! plausible moves of the colour.

use crate::edit::{edits_view, Edit, EditView};
use crate::error::RewriteError;
use crate::lists::{as_pieces, join, joined, list_contains, strings_view, texts_view};
use crate::node::{nodes_span, Node, Parameter, TableRow};
use crate::parse::{lemma_walk_keeps, reached, walk_nodes, WikiVisitor};
use crate::parse_ext_traits::{text_at, ParameterExt, VecNodeExt};
use crate::pattern::{matches_ignoring_case, pattern_match};
use crate::text::{lowercase, str_eq, to_lowercase};
use vstd::prelude::*;
use vstd::string::*;

verus! {

/// The canonical letter of a colour.
#[derive(Clone, Copy, Debug, PartialEq, Eq, Structural)]
pub enum Letter {
    P,
    K,
    S,
    H,
    D,
}

/// The letter as it is written in a document.
pub open spec fn letter_text(letter: Letter) -> Seq<char> {
    match letter {
        Letter::P => "P"@,
        Letter::K => "K"@,
        Letter::S => "S"@,
        Letter::H => "H"@,
        Letter::D => "D"@,
    }
}

/// What the first parameter of a colour template asks for.
#[derive(Clone, Copy, Debug, PartialEq, Eq, Structural)]
pub enum ColorCode {
    /// A number that stands for a letter: the template is to be checked and rewritten.
    Renumber(Letter),
    /// A letter, a number without a letter, or a keyword: the template is left alone.
    Keep,
    /// Anything else.
    Unknown,
}

/// What a colour code asks for: the numbers 1 to 5 stand for the letters P, K, S, H and
/// D; the letters themselves, the numbers 6 to 8 and the keywords of change logs and
/// plain colours are kept as they are.
pub open spec fn classify(code: Seq<char>) -> ColorCode {
    if code == "1"@ {
        ColorCode::Renumber(Letter::P)
    } else if code == "2"@ {
        ColorCode::Renumber(Letter::K)
    } else if code == "3"@ {
        ColorCode::Renumber(Letter::S)
    } else if code == "4"@ {
        ColorCode::Renumber(Letter::H)
    } else if code == "5"@ {
        ColorCode::Renumber(Letter::D)
    } else if code == "P"@ || code == "K"@ || code == "S"@ || code == "H"@ || code == "D"@ {
        ColorCode::Keep
    } else if code == "6"@ || code == "7"@ || code == "8"@ {
        ColorCode::Keep
    } else if code == "added"@ || code == "new"@ || code == "removed"@ || code == "reworked"@
        || code == "buff"@ || code == "nerf"@ {
        ColorCode::Keep
    } else if code == "green"@ || code == "purple"@ {
        ColorCode::Keep
    } else {
        ColorCode::Unknown
    }
}

/// What may stand between two alternatives of the label pattern.
pub open spec fn or_text() -> Seq<char> {
    r"\s*|\s*"@
}

/// What may stand before the letter in a move label: jump markers, numbers, stance
/// abbreviations, and the like.
pub open spec fn prefix_forms() -> Seq<Seq<char>> {
    seq![
        r"s?j\d?.?"@,
        r"\d+"@,
        r"\[\d\]"@,
        r"/"@,
        r"bt\."@,
        r"b\."@,
        r"dj\.?"@,
        r"ws\."@,
        r"hs\."@,
        r"c\."@,
        r"f\."@,
        r"w\."@,
        r"tj\."@,
        "c"@,
        "f"@,
        r"dl\."@,
        "delayed"@,
        "AA"@,
        "CH"@,
        "OTG"@,
    ]
}

/// What may stand behind the letter in a move label: repetition counts and trailing
/// decorations.
pub open spec fn suffix_forms() -> Seq<Seq<char>> {
    seq![
        r"x\d"@,
        r"\(\d\)"@,
        r"\&"@,
        r"\*"@,
        r"~"@,
        r"<sub>\d</sub>"@,
        "whiff"@,
        "(w)"@,
    ]
}

/// The forms in which the letter itself may stand in a move label: bare, and in
/// several decorations; `HS` too where the letter is `H`.
pub open spec fn letter_forms(letter: Letter) -> Seq<Seq<char>> {
    let l = letter_text(letter);
    let forms = seq![
        l,
        "~"@ + l,
        r"\[\d?"@ + l + r"\]"@,
        r"\]"@ + l + r"\["@,
        r"\("@ + l + r"\)"@,
        "-"@ + l + "-"@,
        "#"@ + l + "#"@,
        r"\{"@ + l + r"\}"@,
    ];
    if letter == Letter::H {
        forms.push("HS"@)
    } else {
        forms
    }
}

/// The pattern of a plausible move label for a letter: one or more groups, each of any
/// number of prefixes, at least one form of the letter, any number of suffixes and at
/// most one connective, with white space allowed around every part.
pub open spec fn pattern_text(letter: Letter) -> Seq<char> {
    r"^(\s*("@ + joined(prefix_forms(), or_text()) + r")*\s*("@ + joined(
        letter_forms(letter),
        or_text(),
    ) + r")+\s*("@ + joined(suffix_forms(), or_text()) + r")*\s*([|>~])?\s*)+$"@
}

/// The rules of a colour run as a mathematical value.
pub struct ColorRules {
    /// For a letter, the labels of the moves of that colour.
    pub moves: Seq<(Seq<char>, Seq<Seq<char>>)>,
    /// Labels that are no moves; templates with such a label are left alone.
    pub nonmoves: Seq<Seq<char>>,
    /// Labels that are accepted for the time being.
    pub skip: Seq<Seq<char>>,
}

/// The rules of a colour run.
pub struct ColorConfig {
    moves: Vec<(String, Vec<String>)>,
    nonmoves: Vec<String>,
    skip: Vec<String>,
}

/// The move lists as a mathematical value.
pub open spec fn moves_view(moves: Seq<(String, Vec<String>)>) -> Seq<(Seq<char>, Seq<Seq<char>>)> {
    moves.map_values(|e: (String, Vec<String>)| (e.0@, strings_view(e.1@)))
}

impl View for ColorConfig {
    type V = ColorRules;

    closed spec fn view(&self) -> ColorRules {
        ColorRules {
            moves: moves_view(self.moves@),
            nonmoves: strings_view(self.nonmoves@),
            skip: strings_view(self.skip@),
        }
    }
}

/// Whether the letter of the entry at `at` stands before it as well.
fn letter_repeated(moves: &Vec<(String, Vec<String>)>, at: usize) -> (r: bool)
    requires
        at < moves@.len(),
    ensures
        r == exists|i: int|
            0 <= i < at && moves_view(moves@)[i].0 == moves_view(moves@)[at as int].0,
{
    let mut i: usize = 0;
    while i < at
        invariant
            i <= at < moves@.len(),
            forall|k: int|
                0 <= k < i ==> moves_view(moves@)[k].0 != moves_view(moves@)[at as int].0,
        decreases at - i,
    {
        if str_eq(moves[i].0.as_str(), moves[at].0.as_str()) {
            assert(moves_view(moves@)[i as int].0 == moves_view(moves@)[at as int].0);
            return true;
        }
        i += 1;
    }
    false
}

impl ColorConfig {
    /// No letter has two move lists.
    #[verifier::type_invariant]
    closed spec fn well_formed(&self) -> bool {
        letters_once(moves_view(self.moves@))
    }

    /// Rules made of the move lists by letter, the labels that are no moves, and the
    /// labels to accept for the time being; `None` where a letter has two move lists.
    pub fn new(moves: Vec<(String, Vec<String>)>, nonmoves: Vec<String>, skip: Vec<String>) -> (r:
        Option<Self>)
        ensures
            r is Some <==> letters_once(moves_view(moves@)),
            r is Some ==> r.unwrap()@ == (ColorRules {
                moves: moves_view(moves@),
                nonmoves: strings_view(nonmoves@),
                skip: strings_view(skip@),
            }),
    {
        let mut at: usize = 0;
        while at < moves.len()
            invariant
                at <= moves@.len(),
                forall|i: int, j: int|
                    0 <= i < j < at ==> moves_view(moves@)[i].0 != moves_view(moves@)[j].0,
            decreases moves.len() - at,
        {
            if letter_repeated(&moves, at) {
                return None;
            }
            at += 1;
        }
        Some(ColorConfig { moves, nonmoves, skip })
    }

    /// The move lists by letter, of which no letter has two.
    pub fn moves(&self) -> (r: &Vec<(String, Vec<String>)>)
        ensures
            moves_view(r@) == self@.moves,
            letters_once(self@.moves),
    {
        proof {
            use_type_invariant(self);
        }
        &self.moves
    }

    /// The labels that are no moves.
    pub fn nonmoves(&self) -> (r: &Vec<String>)
        ensures
            strings_view(r@) == self@.nonmoves,
    {
        &self.nonmoves
    }

    /// The labels that are accepted for the time being.
    pub fn skip(&self) -> (r: &Vec<String>)
        ensures
            strings_view(r@) == self@.skip,
    {
        &self.skip
    }
}

/// The labels of a list in lower case.
pub open spec fn lowered_list(list: Seq<Seq<char>>) -> Seq<Seq<char>> {
    list.map_values(|s: Seq<char>| lowercase(s))
}

/// The rules with every label in lower case.
pub open spec fn lowered(rules: ColorRules) -> ColorRules {
    ColorRules {
        moves: rules.moves.map_values(
            |e: (Seq<char>, Seq<Seq<char>>)| (e.0, lowered_list(e.1)),
        ),
        nonmoves: lowered_list(rules.nonmoves),
        skip: lowered_list(rules.skip),
    }
}

/// Whether no letter has two move lists.
pub open spec fn letters_once(moves: Seq<(Seq<char>, Seq<Seq<char>>)>) -> bool {
    forall|i: int, j: int| 0 <= i < j < moves.len() ==> moves[i].0 != moves[j].0
}

/// The move list of a letter, where the rules hold one.
pub open spec fn moves_for(moves: Seq<(Seq<char>, Seq<Seq<char>>)>, letter: Seq<char>) -> Option<
    Seq<Seq<char>>,
>
    decreases moves.len(),
{
    if moves.len() == 0 {
        None
    } else if moves[0].0 == letter {
        Some(moves[0].1)
    } else {
        moves_for(moves.drop_first(), letter)
    }
}

/// What the classifier knows while it walks a document.
pub struct ColorState {
    pub text: Seq<char>,
    pub rules: ColorRules,
    pub edits: Seq<EditView>,
    /// Whether a template was met that cannot be accepted.
    pub failed: bool,
    /// The labels that were refused, each once for its letter.
    pub rejected: Seq<(Letter, Seq<char>)>,
    /// The ranges of the colour templates to renumber that have more than a code and a
    /// label.
    pub miscounted: Seq<(int, int)>,
}

/// The state after a label was accepted: the colour code is to be replaced by the
/// letter.
pub open spec fn accepted(m: ColorState, letter: Letter, start: int, end: int) -> ColorState {
    ColorState {
        edits: m.edits.push(EditView { replacement: letter_text(letter), start, end }),
        ..m
    }
}

/// The state after a label was refused: the run has failed, and the label is on record
/// for its letter, once.
pub open spec fn refused(m: ColorState, letter: Letter, label: Seq<char>) -> ColorState {
    ColorState {
        failed: true,
        rejected: if m.rejected.contains((letter, label)) {
            m.rejected
        } else {
            m.rejected.push((letter, label))
        },
        ..m
    }
}

/// The state after the pattern has given its verdict on a label that is on none of the
/// lists: a match accepts the label, no match refuses it, and a pattern that could not
/// be compiled ends the run.
pub open spec fn judged(
    m: ColorState,
    letter: Letter,
    label: Seq<char>,
    start: int,
    end: int,
    verdict: Option<bool>,
) -> Result<ColorState, RewriteError> {
    match verdict {
        None => Err(RewriteError::InvalidPattern),
        Some(true) => Ok(accepted(m, letter, start, end)),
        Some(false) => Ok(refused(m, letter, label)),
    }
}

/// Whether the label is on the move list of the letter; it is not where the rules hold
/// no such list.
pub open spec fn is_listed(rules: ColorRules, letter: Letter, label: Seq<char>) -> bool {
    match moves_for(rules.moves, letter_text(letter)) {
        Some(list) => list.contains(label),
        None => false,
    }
}

/// The state after a label, in lower case, was checked for a letter. In this order: a
/// label that is no move leaves the state as it is; a label on the letter's move list,
/// or on the list of labels to accept for the time being, is accepted; any other label
/// is judged by the pattern of the letter.
pub open spec fn checked(m: ColorState, letter: Letter, label: Seq<char>, start: int, end: int)
    -> Result<ColorState, RewriteError> {
    if m.rules.nonmoves.contains(label) {
        Ok(m)
    } else if is_listed(m.rules, letter, label) || m.rules.skip.contains(label) {
        Ok(accepted(m, letter, start, end))
    } else {
        judged(m, letter, label, start, end, pattern_match(pattern_text(letter), label))
    }
}

/// The text that a parameter covers.
pub open spec fn parameter_text(text: Seq<char>, parameter: Parameter) -> Result<
    Seq<char>,
    RewriteError,
> {
    text_at(text, Some((parameter.start as int, parameter.end as int)))
}

/// The state after the parameters of a colour template were read. The first parameter
/// is the colour code: an unknown code ends the run, a code to keep changes nothing. A
/// code to renumber needs the label in the second parameter, which is checked in lower
/// case; where the template has more than these two parameters the run has failed, the
/// range of the template is put on record, and the label is checked all the same.
pub open spec fn colored(m: ColorState, span: (int, int), parameters: Seq<Parameter>) -> Result<
    ColorState,
    RewriteError,
> {
    if parameters.len() == 0 {
        Err(RewriteError::MissingParameter)
    } else {
        match parameter_text(m.text, parameters[0]) {
            Err(e) => Err(e),
            Ok(code) => match classify(code) {
                ColorCode::Unknown => Err(RewriteError::UnknownColor),
                ColorCode::Keep => Ok(m),
                ColorCode::Renumber(letter) => if parameters.len() < 2 {
                    Err(RewriteError::MissingParameter)
                } else {
                    match parameter_text(m.text, parameters[1]) {
                        Err(e) => Err(e),
                        Ok(label) => checked(
                            if parameters.len() != 2 {
                                ColorState {
                                    failed: true,
                                    miscounted: m.miscounted.push(span),
                                    ..m
                                }
                            } else {
                                m
                            },
                            letter,
                            lowercase(label),
                            parameters[0].start as int,
                            parameters[0].end as int,
                        ),
                    }
                },
            },
        }
    }
}

/// The state after a template was shown: a template named `clr` or `color` is read as
/// a colour template, any other changes nothing.
pub open spec fn template_step(m: ColorState, node: Node) -> Result<ColorState, RewriteError> {
    match node {
        Node::Template { start, end, name, parameters } => match text_at(
            m.text,
            nodes_span(name@),
        ) {
            Err(e) => Err(e),
            Ok(called) => if called == "clr"@ || called == "color"@ {
                colored(m, (start as int, end as int), parameters@)
            } else {
                Ok(m)
            },
        },
        _ => Err(RewriteError::UnhandledNode),
    }
}

impl Letter {
    /// The letter as it is written in a document.
    pub fn as_str(self) -> (r: &'static str)
        ensures
            r@ == letter_text(self),
    {
        match self {
            Letter::P => "P",
            Letter::K => "K",
            Letter::S => "S",
            Letter::H => "H",
            Letter::D => "D",
        }
    }
}

/// What a colour code asks for.
pub fn classify_code(code: &str) -> (r: ColorCode)
    ensures
        r == classify(code@),
{
    if str_eq(code, "1") {
        ColorCode::Renumber(Letter::P)
    } else if str_eq(code, "2") {
        ColorCode::Renumber(Letter::K)
    } else if str_eq(code, "3") {
        ColorCode::Renumber(Letter::S)
    } else if str_eq(code, "4") {
        ColorCode::Renumber(Letter::H)
    } else if str_eq(code, "5") {
        ColorCode::Renumber(Letter::D)
    } else if str_eq(code, "P") || str_eq(code, "K") || str_eq(code, "S") || str_eq(code, "H")
        || str_eq(code, "D") {
        ColorCode::Keep
    } else if str_eq(code, "6") || str_eq(code, "7") || str_eq(code, "8") {
        ColorCode::Keep
    } else if str_eq(code, "added") || str_eq(code, "new") || str_eq(code, "removed") || str_eq(
        code,
        "reworked",
    ) || str_eq(code, "buff") || str_eq(code, "nerf") {
        ColorCode::Keep
    } else if str_eq(code, "green") || str_eq(code, "purple") {
        ColorCode::Keep
    } else {
        ColorCode::Unknown
    }
}

/// What may stand before the letter in a move label.
fn prefixes() -> (r: Vec<&'static str>)
    ensures
        texts_view(r@) == prefix_forms(),
{
    let r = vec![
        r"s?j\d?.?",
        r"\d+",
        r"\[\d\]",
        r"/",
        r"bt\.",
        r"b\.",
        r"dj\.?",
        r"ws\.",
        r"hs\.",
        r"c\.",
        r"f\.",
        r"w\.",
        r"tj\.",
        "c",
        "f",
        r"dl\.",
        "delayed",
        "AA",
        "CH",
        "OTG",
    ];
    assert(texts_view(r@) =~= prefix_forms());
    r
}

/// What may stand behind the letter in a move label.
fn suffixes() -> (r: Vec<&'static str>)
    ensures
        texts_view(r@) == suffix_forms(),
{
    let r = vec![r"x\d", r"\(\d\)", r"\&", r"\*", r"~", r"<sub>\d</sub>", "whiff", "(w)"];
    assert(texts_view(r@) =~= suffix_forms());
    r
}

/// The letter between two decorations.
fn decorated(before: &str, letter: Letter, after: &str) -> (r: String)
    ensures
        r@ == before@ + letter_text(letter) + after@,
{
    let mut form = String::from_str(before);
    form.append(letter.as_str());
    form.append(after);
    form
}

/// The forms in which the letter itself may stand in a move label.
fn letters(letter: Letter) -> (r: Vec<String>)
    ensures
        strings_view(r@) == letter_forms(letter),
{
    proof {
        reveal_strlit("");
        assert(""@ =~= Seq::<char>::empty());
    }
    let mut forms: Vec<String> = Vec::new();
    forms.push(decorated("", letter, ""));
    forms.push(decorated("~", letter, ""));
    forms.push(decorated(r"\[\d?", letter, r"\]"));
    forms.push(decorated(r"\]", letter, r"\["));
    forms.push(decorated(r"\(", letter, r"\)"));
    forms.push(decorated("-", letter, "-"));
    forms.push(decorated("#", letter, "#"));
    forms.push(decorated(r"\{", letter, r"\}"));
    match letter {
        Letter::H => {
            forms.push(String::from_str("HS"));
        },
        _ => {},
    }
    proof {
        let l = letter_text(letter);
        assert(forms@[0]@ =~= l);
        assert(forms@[1]@ =~= "~"@ + l);
        assert(strings_view(forms@) =~= letter_forms(letter));
    }
    forms
}

/// Writes the pattern of a plausible move label for a letter.
pub fn make_regex(letter: Letter) -> (pattern: String)
    ensures
        pattern@ == pattern_text(letter),
{
    let forms = letters(letter);
    let mut pattern = String::from_str(r"^(\s*(");
    pattern.append(join(&prefixes(), r"\s*|\s*").as_str());
    pattern.append(r")*\s*(");
    pattern.append(join(&as_pieces(&forms), r"\s*|\s*").as_str());
    pattern.append(r")+\s*(");
    pattern.append(join(&suffixes(), r"\s*|\s*").as_str());
    pattern.append(r")*\s*([|>~])?\s*)+$");
    pattern
}

/// The labels of a list in lower case.
fn lower_strings(list: &Vec<String>) -> (r: Vec<String>)
    ensures
        strings_view(r@) == lowered_list(strings_view(list@)),
{
    let mut out: Vec<String> = Vec::new();
    let mut i: usize = 0;
    while i < list.len()
        invariant
            i <= list.len(),
            out@.len() == i,
            forall|k: int| 0 <= k < i ==> out@[k]@ == lowercase(list@[k]@),
        decreases list.len() - i,
    {
        out.push(to_lowercase(list[i].as_str()));
        i += 1;
    }
    assert(strings_view(out@) =~= lowered_list(strings_view(list@)));
    out
}

/// The move list of a letter.
fn find_moves<'a>(moves: &'a Vec<(String, Vec<String>)>, letter: &str) -> (r: Option<
    &'a Vec<String>,
>)
    ensures
        match moves_for(moves_view(moves@), letter@) {
            Some(list) => r is Some && strings_view(r.unwrap()@) == list,
            None => r is None,
        },
{
    let ghost all = moves_view(moves@);
    let mut i: usize = 0;
    assert(all.skip(0) =~= all);
    while i < moves.len()
        invariant
            i <= moves.len(),
            all == moves_view(moves@),
            moves_for(all, letter@) == moves_for(all.skip(i as int), letter@),
        decreases moves.len() - i,
    {
        assert(all.skip(i as int).drop_first() =~= all.skip(i + 1));
        assert(all.skip(i as int)[0] == all[i as int]);
        if str_eq(moves[i].0.as_str(), letter) {
            return Some(&moves[i].1);
        }
        i += 1;
    }
    None
}

/// A label that was refused for a letter.
#[derive(Debug, PartialEq, Eq)]
pub struct Rejected {
    pub letter: Letter,
    pub label: String,
}

/// The refused labels as a mathematical value.
pub open spec fn rejected_view(list: Seq<Rejected>) -> Seq<(Letter, Seq<char>)> {
    list.map_values(|r: Rejected| (r.letter, r.label@))
}

/// The classifier of colour templates: it replaces the numeric colour code of a
/// template by its letter, where the label of the template is a plausible move of that
/// colour, and records every label that is not.
pub struct ColorVisitor {
    config: ColorConfig,
    base_text: String,
    replacements: Vec<Edit>,
    errors: bool,
    seen: Vec<Rejected>,
    miscounted: Vec<(usize, usize)>,
}

/// Ranges as mathematical values.
pub open spec fn spans_view(spans: Seq<(usize, usize)>) -> Seq<(int, int)> {
    spans.map_values(|s: (usize, usize)| (s.0 as int, s.1 as int))
}

/// What a classifier with the given rules knows before it has seen anything: the
/// rules with every label in lower case, and nothing else.
pub open spec fn started(rules: ColorRules) -> ColorState {
    ColorState {
        text: Seq::empty(),
        rules: lowered(rules),
        edits: Seq::empty(),
        failed: false,
        rejected: Seq::empty(),
        miscounted: Seq::empty(),
    }
}

impl ColorVisitor {
    /// A classifier with the given rules, every label of which is taken in lower case.
    pub fn new(config: ColorConfig) -> (r: Self)
        ensures
            r.model() == started(config@),
            letters_once(r.model().rules.moves),
    {
        proof {
            use_type_invariant(&config);
        }
        let mut moves: Vec<(String, Vec<String>)> = Vec::new();
        let mut i: usize = 0;
        while i < config.moves.len()
            invariant
                i <= config.moves.len(),
                moves@.len() == i,
                forall|k: int|
                    0 <= k < i ==> moves@[k].0@ == config.moves@[k].0@ && strings_view(
                        moves@[k].1@,
                    ) == lowered_list(strings_view(config.moves@[k].1@)),
            decreases config.moves.len() - i,
        {
            moves.push((config.moves[i].0.clone(), lower_strings(&config.moves[i].1)));
            i += 1;
        }
        let nonmoves = lower_strings(&config.nonmoves);
        let skip = lower_strings(&config.skip);
        proof {
            assert forall|i: int, j: int| 0 <= i < j < moves@.len() implies moves_view(
                moves@,
            )[i].0 != moves_view(moves@)[j].0 by {
                assert(moves_view(config.moves@)[i].0 != moves_view(config.moves@)[j].0);
            }
        }
        let r = ColorVisitor {
            config: ColorConfig { moves, nonmoves, skip },
            base_text: String::new(),
            replacements: Vec::new(),
            errors: false,
            seen: Vec::new(),
            miscounted: Vec::new(),
        };
        proof {
            assert(edits_view(r.replacements@) =~= Seq::<EditView>::empty());
            assert(rejected_view(r.seen@) =~= Seq::<(Letter, Seq<char>)>::empty());
            assert(spans_view(r.miscounted@) =~= Seq::<(int, int)>::empty());
            assert(moves_view(r.config.moves@) =~= lowered(config@).moves);
        }
        r
    }

    /// Whether a template was met that cannot be accepted.
    pub fn has_errors(&self) -> (r: bool)
        ensures
            r == self.model().failed,
    {
        self.errors
    }

    /// The labels that were refused, each once for its letter.
    pub fn rejected(&self) -> (r: &Vec<Rejected>)
        ensures
            rejected_view(r@) == self.model().rejected,
    {
        &self.seen
    }

    /// What is on record, handed over for good: the refused labels, and the ranges of
    /// the templates with more than a code and a label.
    pub fn into_findings(self) -> (r: (Vec<Rejected>, Vec<(usize, usize)>))
        ensures
            rejected_view(r.0@) == self.model().rejected,
            spans_view(r.1@) == self.model().miscounted,
    {
        (self.seen, self.miscounted)
    }

    /// The ranges of the colour templates to renumber that have more than a code and a
    /// label.
    pub fn miscounted(&self) -> (r: &Vec<(usize, usize)>)
        ensures
            spans_view(r@) == self.model().miscounted,
    {
        &self.miscounted
    }

    /// Whether the label is on record for the letter.
    fn on_record(&self, letter: Letter, label: &str) -> (r: bool)
        ensures
            r == rejected_view(self.seen@).contains((letter, label@)),
    {
        let mut i: usize = 0;
        while i < self.seen.len()
            invariant
                i <= self.seen.len(),
                forall|k: int| 0 <= k < i ==> rejected_view(self.seen@)[k] != (letter, label@),
            decreases self.seen.len() - i,
        {
            if self.seen[i].letter == letter && str_eq(self.seen[i].label.as_str(), label) {
                assert(rejected_view(self.seen@)[i as int] == (letter, label@));
                return true;
            }
            i += 1;
        }
        false
    }

    /// Accepts a label: the colour code in `[start, end)` is to be replaced by the
    /// letter.
    fn accept(&mut self, letter: Letter, start: usize, end: usize)
        ensures
            final(self).model() == accepted(old(self).model(), letter, start as int, end as int),
    {
        let ghost before = self.replacements@;
        let edit = Edit::new(String::from_str(letter.as_str()), start, end);
        self.replacements.push(edit);
        assert(edits_view(self.replacements@) =~= edits_view(before).push(edit@));
    }

    /// Settles a label that is on none of the lists, by the verdict of the letter's
    /// pattern on it.
    pub fn judge(
        &mut self,
        letter: Letter,
        label: &str,
        start: usize,
        end: usize,
        verdict: Option<bool>,
    ) -> (r: Result<(), RewriteError>)
        ensures
            reached(
                judged(old(self).model(), letter, label@, start as int, end as int, verdict),
                final(self).model(),
                r,
            ),
    {
        match verdict {
            None => Err(RewriteError::InvalidPattern),
            Some(true) => {
                self.accept(letter, start, end);
                Ok(())
            },
            Some(false) => {
                self.errors = true;
                if !self.on_record(letter, label) {
                    let ghost before = self.seen@;
                    let entry = Rejected { letter, label: String::from_str(label) };
                    self.seen.push(entry);
                    assert(rejected_view(self.seen@) =~= rejected_view(before).push(
                        (letter, label@),
                    ));
                }
                Ok(())
            },
        }
    }

    /// Checks a label, given in lower case, for a letter, and accepts or refuses it.
    pub fn check_label(&mut self, letter: Letter, label: &str, start: usize, end: usize) -> (r:
        Result<(), RewriteError>)
        ensures
            reached(
                checked(old(self).model(), letter, label@, start as int, end as int),
                final(self).model(),
                r,
            ),
    {
        if list_contains(&self.config.nonmoves, label) {
            return Ok(());
        }
        let listed = match find_moves(&self.config.moves, letter.as_str()) {
            Some(list) => list_contains(list, label),
            None => false,
        };
        if listed || list_contains(&self.config.skip, label) {
            self.accept(letter, start, end);
            return Ok(());
        }
        let pattern = make_regex(letter);
        let verdict = matches_ignoring_case(pattern.as_str(), label);
        self.judge(letter, label, start, end, verdict)
    }

    /// Reads the parameters of a colour template.
    fn visit_color(&mut self, start: usize, end: usize, parameters: &Vec<Parameter>) -> (r:
        Result<(), RewriteError>)
        ensures
            reached(
                colored(old(self).model(), (start as int, end as int), parameters@),
                final(self).model(),
                r,
            ),
    {
        if parameters.len() == 0 {
            return Err(RewriteError::MissingParameter);
        }
        let code = parameters[0].as_str(self.base_text.as_str())?;
        let letter = match classify_code(code) {
            ColorCode::Unknown => {
                return Err(RewriteError::UnknownColor);
            },
            ColorCode::Keep => {
                return Ok(());
            },
            ColorCode::Renumber(letter) => letter,
        };
        if parameters.len() < 2 {
            return Err(RewriteError::MissingParameter);
        }
        let label = to_lowercase(parameters[1].as_str(self.base_text.as_str())?);
        if parameters.len() != 2 {
            let ghost before = self.miscounted@;
            self.errors = true;
            self.miscounted.push((start, end));
            assert(spans_view(self.miscounted@) =~= spans_view(before).push(
                (start as int, end as int),
            ));
        }
        self.check_label(letter, label.as_str(), parameters[0].start, parameters[0].end)
    }
}

impl WikiVisitor for ColorVisitor {
    type Model = ColorState;

    closed spec fn model(&self) -> ColorState {
        ColorState {
            text: self.base_text@,
            rules: self.config@,
            edits: edits_view(self.replacements@),
            failed: self.errors,
            rejected: rejected_view(self.seen@),
            miscounted: spans_view(self.miscounted@),
        }
    }

    open spec fn with_text(m: ColorState, text: Seq<char>) -> Result<ColorState, RewriteError> {
        Ok(ColorState { text, ..m })
    }

    /// The edits are handed over only where no template was refused.
    open spec fn edits_of(m: ColorState) -> Result<Seq<EditView>, RewriteError> {
        if m.failed {
            Err(RewriteError::ValidationFailed)
        } else {
            Ok(m.edits)
        }
    }

    open spec fn after_template(m: ColorState, node: Node) -> Result<ColorState, RewriteError> {
        template_step(m, node)
    }

    open spec fn after_table_start(m: ColorState, node: Node) -> Result<ColorState, RewriteError> {
        Ok(m)
    }

    open spec fn after_table_row(m: ColorState, row: TableRow) -> Result<ColorState, RewriteError> {
        Ok(m)
    }

    open spec fn after_table_end(m: ColorState, node: Node) -> Result<ColorState, RewriteError> {
        Ok(m)
    }

    open spec fn after_start_tag(m: ColorState, node: Node) -> Result<ColorState, RewriteError> {
        Ok(m)
    }

    open spec fn after_heading(m: ColorState, node: Node) -> Result<ColorState, RewriteError> {
        Ok(m)
    }

    fn set_base_text(&mut self, base_text: &str) -> (r: Result<(), RewriteError>) {
        self.base_text = String::from_str(base_text);
        Ok(())
    }

    fn get_replacements(&self) -> (r: Result<&Vec<Edit>, RewriteError>) {
        if self.errors {
            return Err(RewriteError::ValidationFailed);
        }
        Ok(&self.replacements)
    }

    fn visit_template(&mut self, node: &Node) -> (r: Result<(), RewriteError>) {
        match node {
            Node::Template { start, end, name, parameters } => {
                let called = name.as_str(self.base_text.as_str())?;
                if str_eq(called, "clr") || str_eq(called, "color") {
                    self.visit_color(*start, *end, parameters)
                } else {
                    Ok(())
                }
            },
            _ => Err(RewriteError::UnhandledNode),
        }
    }

    fn visit_table_start(&mut self, node: &Node) -> (r: Result<(), RewriteError>) {
        Ok(())
    }

    fn visit_table_row(&mut self, row: &TableRow) -> (r: Result<(), RewriteError>) {
        Ok(())
    }

    fn visit_table_end(&mut self, node: &Node) -> (r: Result<(), RewriteError>) {
        Ok(())
    }

    fn visit_start_tag(&mut self, node: &Node) -> (r: Result<(), RewriteError>) {
        Ok(())
    }

    fn visit_heading(&mut self, node: &Node) -> (r: Result<(), RewriteError>) {
        Ok(())
    }
}

/// Once a template was refused, the classifier hands over no edits, whatever it is
/// shown afterwards.
pub proof fn lemma_failure_keeps_edits_back(m: ColorState, nodes: Seq<Node>)
    requires
        m.failed,
    ensures
        walk_nodes::<ColorVisitor>(m, nodes) matches Ok(after) ==> ColorVisitor::edits_of(after)
            == Err::<Seq<EditView>, RewriteError>(RewriteError::ValidationFailed),
{
    lemma_walk_keeps::<ColorVisitor>(|m: ColorState| m.failed, m, nodes);
}

/// No label is on record twice for one letter, whatever the classifier is shown.
pub proof fn lemma_labels_recorded_once(m: ColorState, nodes: Seq<Node>)
    requires
        m.rejected.no_duplicates(),
    ensures
        walk_nodes::<ColorVisitor>(m, nodes) matches Ok(after) ==> after.rejected.no_duplicates(),
{
    lemma_walk_keeps::<ColorVisitor>(|m: ColorState| m.rejected.no_duplicates(), m, nodes);
}

} // verus!
