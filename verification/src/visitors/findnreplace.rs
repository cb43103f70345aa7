//! The substitution engine: pattern and literal replacements behind a guard of
//! required texts.

use crate::edit::{edits_view, lemma_no_edits, Edit, EditView};
use crate::error::RewriteError;
use crate::lists::{clone_pairs, clone_strings, pairs_view, strings_view};
use crate::node::{Document, Node, TableRow};
use crate::parse::{collected, lemma_walk_keeps, transformed, WikiVisitor};
use crate::pattern::{pattern_rewrites, rewrites, rewrites_view};
use crate::text::{contains, find, first_occurrence};
use vstd::prelude::*;
use vstd::string::*;
use vstd::utf8::*;

verus! {

/// The rules of a substitution run.
pub struct FindReplaceConfig {
    /// Texts that must all stand in a document for anything in it to be changed.
    predicates: Vec<String>,
    /// Regular expressions, each with the template that replaces its matches.
    re_patterns: Vec<(String, String)>,
    /// Literal texts, each with the text that replaces its first occurrence.
    plain_patterns: Vec<(String, String)>,
}

/// The rules of a substitution run as a mathematical value.
pub struct FindReplaceRules {
    pub predicates: Seq<Seq<char>>,
    pub re_patterns: Seq<(Seq<char>, Seq<char>)>,
    pub plain_patterns: Seq<(Seq<char>, Seq<char>)>,
}

impl View for FindReplaceConfig {
    type V = FindReplaceRules;

    closed spec fn view(&self) -> FindReplaceRules {
        FindReplaceRules {
            predicates: strings_view(self.predicates@),
            re_patterns: pairs_view(self.re_patterns@),
            plain_patterns: pairs_view(self.plain_patterns@),
        }
    }
}

impl FindReplaceConfig {
    /// Rules made of required texts, pattern substitutions and literal substitutions.
    pub fn new(
        predicates: Vec<String>,
        re_patterns: Vec<(String, String)>,
        plain_patterns: Vec<(String, String)>,
    ) -> (r: Self)
        ensures
            r@ == (FindReplaceRules {
                predicates: strings_view(predicates@),
                re_patterns: pairs_view(re_patterns@),
                plain_patterns: pairs_view(plain_patterns@),
            }),
    {
        FindReplaceConfig { predicates, re_patterns, plain_patterns }
    }

    /// The texts that must all stand in a document.
    pub fn predicates(&self) -> (r: &Vec<String>)
        ensures
            strings_view(r@) == self@.predicates,
    {
        &self.predicates
    }

    /// The pattern substitutions.
    pub fn re_patterns(&self) -> (r: &Vec<(String, String)>)
        ensures
            pairs_view(r@) == self@.re_patterns,
    {
        &self.re_patterns
    }

    /// The literal substitutions.
    pub fn plain_patterns(&self) -> (r: &Vec<(String, String)>)
        ensures
            pairs_view(r@) == self@.plain_patterns,
    {
        &self.plain_patterns
    }

    /// A copy of the rules.
    pub fn duplicate(&self) -> (r: Self)
        ensures
            r@ == self@,
    {
        FindReplaceConfig {
            predicates: clone_strings(&self.predicates),
            re_patterns: clone_pairs(&self.re_patterns),
            plain_patterns: clone_pairs(&self.plain_patterns),
        }
    }
}

/// Whether every required text stands in the document.
pub open spec fn guard_holds(text: Seq<char>, predicates: Seq<Seq<char>>) -> bool {
    forall|i: int|
        0 <= i < predicates.len() ==> first_occurrence(
            encode_utf8(text),
            encode_utf8(#[trigger] predicates[i]),
        ) is Some
}

/// The edits that stand for a list of rewrites.
pub open spec fn as_edits(found: Seq<(Seq<char>, int, int)>) -> Seq<EditView> {
    found.map_values(
        |f: (Seq<char>, int, int)| EditView { replacement: f.0, start: f.1, end: f.2 },
    )
}

/// The edits after the pattern substitutions were worked off, one after the other: each
/// adds one edit for every match of its pattern; a pattern that is no regular
/// expression ends the run.
pub open spec fn with_pattern_edits(
    text: Seq<char>,
    patterns: Seq<(Seq<char>, Seq<char>)>,
    edits: Seq<EditView>,
) -> Result<Seq<EditView>, RewriteError>
    decreases patterns.len(),
{
    if patterns.len() == 0 {
        Ok(edits)
    } else {
        match pattern_rewrites(patterns[0].0, patterns[0].1, text) {
            Some(found) => with_pattern_edits(text, patterns.drop_first(), edits + as_edits(found)),
            None => Err(RewriteError::InvalidPattern),
        }
    }
}

/// The edits after the literal substitutions were worked off, one after the other: each
/// adds one edit at the first place where its text stands in the document, and none
/// where it does not.
pub open spec fn with_plain_edits(
    text: Seq<char>,
    patterns: Seq<(Seq<char>, Seq<char>)>,
    edits: Seq<EditView>,
) -> Seq<EditView>
    decreases patterns.len(),
{
    if patterns.len() == 0 {
        edits
    } else {
        let sought = encode_utf8(patterns[0].0);
        let longer = match first_occurrence(encode_utf8(text), sought) {
            Some(at) => edits.push(
                EditView { replacement: patterns[0].1, start: at, end: at + sought.len() },
            ),
            None => edits,
        };
        with_plain_edits(text, patterns.drop_first(), longer)
    }
}

/// What the substitution engine knows.
pub struct FindReplaceState {
    pub text: Seq<char>,
    pub rules: FindReplaceRules,
    pub edits: Seq<EditView>,
}

/// The state after the engine was told the text: where a required text is missing,
/// nothing but the text has changed; else the edits of the pattern substitutions and
/// then those of the literal substitutions have been added.
pub open spec fn told(m: FindReplaceState, text: Seq<char>) -> Result<
    FindReplaceState,
    RewriteError,
> {
    if !guard_holds(text, m.rules.predicates) {
        Ok(FindReplaceState { text, ..m })
    } else {
        match with_pattern_edits(text, m.rules.re_patterns, m.edits) {
            Ok(edits) => Ok(
                FindReplaceState {
                    text,
                    edits: with_plain_edits(text, m.rules.plain_patterns, edits),
                    ..m
                },
            ),
            Err(e) => Err(e),
        }
    }
}

/// The substitution engine: it computes its edits from the text alone, as soon as it is
/// told the text, and takes no note of the tree.
pub struct FindReplaceVisitor {
    base_text: String,
    config: FindReplaceConfig,
    replacements: Vec<Edit>,
}

/// Whether every required text stands in the document.
fn guard_passes(text: &str, predicates: &Vec<String>) -> (r: bool)
    ensures
        r == guard_holds(text@, strings_view(predicates@)),
{
    let mut i: usize = 0;
    while i < predicates.len()
        invariant
            i <= predicates.len(),
            forall|k: int|
                0 <= k < i ==> first_occurrence(
                    encode_utf8(text@),
                    encode_utf8(#[trigger] strings_view(predicates@)[k]),
                ) is Some,
        decreases predicates.len() - i,
    {
        if !contains(text, predicates[i].as_str()) {
            assert(strings_view(predicates@)[i as int] == predicates@[i as int]@);
            return false;
        }
        i += 1;
    }
    true
}

/// Adds the edits that stand for a list of rewrites, where the pattern could be
/// compiled.
pub fn push_rewrites(edits: &mut Vec<Edit>, found: &Option<Vec<(String, usize, usize)>>) -> (r:
    Result<(), RewriteError>)
    ensures
        match found {
            Some(list) => r is Ok && edits_view(final(edits)@) == edits_view(old(edits)@)
                + as_edits(rewrites_view(list@)),
            None => r == Err::<(), RewriteError>(RewriteError::InvalidPattern) && final(edits)@
                == old(edits)@,
        },
{
    match found {
        None => Err(RewriteError::InvalidPattern),
        Some(list) => {
            let ghost before = edits_view(edits@);
            let mut i: usize = 0;
            assert(as_edits(rewrites_view(list@).take(0)) =~= Seq::<EditView>::empty());
            assert(before + Seq::<EditView>::empty() =~= before);
            while i < list.len()
                invariant
                    i <= list.len(),
                    edits_view(edits@) == before + as_edits(rewrites_view(list@).take(i as int)),
                decreases list.len() - i,
            {
                let ghost so_far = edits_view(edits@);
                let edit = Edit::new(list[i].0.clone(), list[i].1, list[i].2);
                edits.push(edit);
                proof {
                    assert(edits_view(edits@) =~= so_far.push(edit@));
                    assert(as_edits(rewrites_view(list@).take(i + 1)) =~= as_edits(
                        rewrites_view(list@).take(i as int),
                    ).push(edit@));
                    assert(edits_view(edits@) =~= before + as_edits(
                        rewrites_view(list@).take(i + 1),
                    ));
                }
                i += 1;
            }
            assert(rewrites_view(list@).take(i as int) =~= rewrites_view(list@));
            Ok(())
        },
    }
}

/// What an engine with the given rules knows before it is told a text.
pub open spec fn started(rules: FindReplaceRules) -> FindReplaceState {
    FindReplaceState { text: Seq::empty(), rules, edits: Seq::empty() }
}

impl FindReplaceVisitor {
    /// An engine with a copy of the rules and no edits.
    pub fn new(config: &FindReplaceConfig) -> (r: Self)
        ensures
            r.model() == started(config@),
    {
        let r = FindReplaceVisitor {
            config: config.duplicate(),
            base_text: String::new(),
            replacements: Vec::new(),
        };
        assert(edits_view(r.replacements@) =~= Seq::<EditView>::empty());
        r
    }

    /// Computes the edits for the text that the engine holds, and adds them to those it
    /// has. Where a required text is missing from the text, nothing is added, whatever
    /// the patterns would match.
    pub fn gen_replacements(&mut self) -> (r: Result<(), RewriteError>)
        ensures
            match told(old(self).model(), old(self).model().text) {
                Ok(m) => r is Ok && final(self).model() == m,
                Err(e) => r == Err::<(), RewriteError>(e),
            },
            !guard_holds(old(self).model().text, old(self).model().rules.predicates) ==> r is Ok
                && final(self).model() == old(self).model(),
    {
        if !guard_passes(self.base_text.as_str(), &self.config.predicates) {
            return Ok(());
        }
        let ghost text = self.base_text@;
        let ghost start = edits_view(self.replacements@);
        let ghost regexes = pairs_view(self.config.re_patterns@);
        let mut i: usize = 0;
        assert(regexes.skip(0) =~= regexes);
        while i < self.config.re_patterns.len()
            invariant
                i <= self.config.re_patterns.len(),
                self.base_text == old(self).base_text,
                self.config == old(self).config,
                text == self.base_text@,
                regexes == pairs_view(self.config.re_patterns@),
                start == edits_view(old(self).replacements@),
                guard_holds(text, strings_view(self.config.predicates@)),
                with_pattern_edits(text, regexes, start) == with_pattern_edits(
                    text,
                    regexes.skip(i as int),
                    edits_view(self.replacements@),
                ),
            decreases self.config.re_patterns.len() - i,
        {
            assert(regexes.skip(i as int).drop_first() =~= regexes.skip(i + 1));
            assert(regexes.skip(i as int)[0] == regexes[i as int]);
            let found = rewrites(
                self.config.re_patterns[i].0.as_str(),
                self.config.re_patterns[i].1.as_str(),
                self.base_text.as_str(),
            );
            push_rewrites(&mut self.replacements, &found)?;
            i += 1;
        }
        let ghost middle = edits_view(self.replacements@);
        let ghost plains = pairs_view(self.config.plain_patterns@);
        let mut j: usize = 0;
        assert(plains.skip(0) =~= plains);
        while j < self.config.plain_patterns.len()
            invariant
                j <= self.config.plain_patterns.len(),
                self.base_text == old(self).base_text,
                self.config == old(self).config,
                text == self.base_text@,
                plains == pairs_view(self.config.plain_patterns@),
                start == edits_view(old(self).replacements@),
                guard_holds(text, strings_view(self.config.predicates@)),
                with_pattern_edits(text, pairs_view(self.config.re_patterns@), start) == Ok::<
                    Seq<EditView>,
                    RewriteError,
                >(middle),
                with_plain_edits(text, plains, middle) == with_plain_edits(
                    text,
                    plains.skip(j as int),
                    edits_view(self.replacements@),
                ),
            decreases self.config.plain_patterns.len() - j,
        {
            assert(plains.skip(j as int).drop_first() =~= plains.skip(j + 1));
            assert(plains.skip(j as int)[0] == plains[j as int]);
            let sought = self.config.plain_patterns[j].0.as_str();
            match find(self.base_text.as_str(), sought) {
                Some(at) => {
                    let ghost so_far = edits_view(self.replacements@);
                    let edit = Edit::new(
                        self.config.plain_patterns[j].1.clone(),
                        at,
                        at + sought.as_bytes().len(),
                    );
                    self.replacements.push(edit);
                    assert(edits_view(self.replacements@) =~= so_far.push(edit@));
                },
                None => {},
            }
            j += 1;
        }
        Ok(())
    }
}

impl WikiVisitor for FindReplaceVisitor {
    type Model = FindReplaceState;

    closed spec fn model(&self) -> FindReplaceState {
        FindReplaceState {
            text: self.base_text@,
            rules: self.config@,
            edits: edits_view(self.replacements@),
        }
    }

    open spec fn with_text(m: FindReplaceState, text: Seq<char>) -> Result<
        FindReplaceState,
        RewriteError,
    > {
        told(m, text)
    }

    open spec fn edits_of(m: FindReplaceState) -> Result<Seq<EditView>, RewriteError> {
        Ok(m.edits)
    }

    open spec fn after_template(m: FindReplaceState, node: Node) -> Result<
        FindReplaceState,
        RewriteError,
    > {
        Ok(m)
    }

    open spec fn after_table_start(m: FindReplaceState, node: Node) -> Result<
        FindReplaceState,
        RewriteError,
    > {
        Ok(m)
    }

    open spec fn after_table_row(m: FindReplaceState, row: TableRow) -> Result<
        FindReplaceState,
        RewriteError,
    > {
        Ok(m)
    }

    open spec fn after_table_end(m: FindReplaceState, node: Node) -> Result<
        FindReplaceState,
        RewriteError,
    > {
        Ok(m)
    }

    open spec fn after_start_tag(m: FindReplaceState, node: Node) -> Result<
        FindReplaceState,
        RewriteError,
    > {
        Ok(m)
    }

    open spec fn after_heading(m: FindReplaceState, node: Node) -> Result<
        FindReplaceState,
        RewriteError,
    > {
        Ok(m)
    }

    fn set_base_text(&mut self, base_text: &str) -> (r: Result<(), RewriteError>) {
        self.base_text = String::from_str(base_text);
        self.gen_replacements()
    }

    fn get_replacements(&self) -> (r: Result<&Vec<Edit>, RewriteError>) {
        Ok(&self.replacements)
    }

    fn visit_template(&mut self, node: &Node) -> (r: Result<(), RewriteError>) {
        Ok(())
    }

    fn visit_table_start(&mut self, node: &Node) -> (r: Result<(), RewriteError>) {
        Ok(())
    }

    fn visit_table_row(&mut self, row: &TableRow) -> (r: Result<(), RewriteError>) {
        Ok(())
    }

    fn visit_table_end(&mut self, node: &Node) -> (r: Result<(), RewriteError>) {
        Ok(())
    }

    fn visit_start_tag(&mut self, node: &Node) -> (r: Result<(), RewriteError>) {
        Ok(())
    }

    fn visit_heading(&mut self, node: &Node) -> (r: Result<(), RewriteError>) {
        Ok(())
    }
}


/// Where a required text is missing from the text that an engine is told, its edits
/// stay as they are, whatever its patterns would match.
pub proof fn lemma_guard_keeps_edits(m: FindReplaceState, text: Seq<char>)
    requires
        !guard_holds(text, m.rules.predicates),
    ensures
        told(m, text) == Ok::<FindReplaceState, RewriteError>(FindReplaceState { text, ..m }),
{
}

/// Where a required text is missing from a document, the engine makes no edit of it,
/// whatever its patterns would match: a run that ends well hands the document back as
/// it was.
pub proof fn lemma_guard_blocks_edits(
    rules: FindReplaceRules,
    text: Seq<char>,
    document: Document,
    skip_errors: bool,
)
    requires
        !guard_holds(text, rules.predicates),
    ensures
        told(started(rules), text) == Ok::<FindReplaceState, RewriteError>(
            FindReplaceState { text, ..started(rules) },
        ),
        collected::<FindReplaceVisitor>(started(rules), text, document.nodes@) matches Ok(edits)
            ==> edits.len() == 0,
        transformed::<FindReplaceVisitor>(started(rules), text, document, skip_errors) matches Ok(
            rewritten,
        ) ==> rewritten == text,
{
    let told_state = FindReplaceState { text, ..started(rules) };
    lemma_walk_keeps::<FindReplaceVisitor>(
        |m: FindReplaceState| m.edits.len() == 0,
        told_state,
        document.nodes@,
    );
    match collected::<FindReplaceVisitor>(started(rules), text, document.nodes@) {
        Ok(edits) => {
            assert(edits =~= Seq::<EditView>::empty());
            lemma_no_edits(text);
        },
        Err(_) => {},
    }
}

} // verus!
