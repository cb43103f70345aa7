//! Edits and their composition: how a list of localized rewrites makes a new document
//! of a text, and what holds of the result.

use crate::error::RewriteError;
use crate::text::{cut, lemma_encode_concat, lemma_span_valid, span_ok};
use vstd::prelude::*;
use vstd::string::*;
use vstd::utf8::*;

verus! {

/// One localized rewrite: the bytes `[start, end)` of the source text are to be replaced
/// by `replacement`.
#[derive(Debug, PartialEq, Eq)]
pub struct Edit {
    pub replacement: String,
    pub start: usize,
    pub end: usize,
}

/// An edit as a mathematical value.
pub struct EditView {
    pub replacement: Seq<char>,
    pub start: int,
    pub end: int,
}

impl View for Edit {
    type V = EditView;

    open spec fn view(&self) -> EditView {
        EditView { replacement: self.replacement@, start: self.start as int, end: self.end as int }
    }
}

impl Edit {
    /// An edit that puts `replacement` in place of the bytes `[start, end)`.
    pub fn new(replacement: String, start: usize, end: usize) -> (r: Edit)
        ensures
            r@ == (EditView { replacement: replacement@, start: start as int, end: end as int }),
    {
        Edit { replacement, start, end }
    }
}

/// The edits of a list as mathematical values.
pub open spec fn edits_view(edits: Seq<Edit>) -> Seq<EditView> {
    edits.map_values(|e: Edit| e@)
}

/// Whether `a` comes behind `b` in the order of the edits: it starts later, or starts
/// at the same offset and ends later.
pub open spec fn comes_after(a: EditView, b: EditView) -> bool {
    a.start > b.start || (a.start == b.start && a.end > b.end)
}

/// `sorted` with `e` put behind every edit that does not come after it.
pub open spec fn insert_by_start(sorted: Seq<EditView>, e: EditView) -> Seq<EditView>
    decreases sorted.len(),
{
    if sorted.len() > 0 && comes_after(sorted.last(), e) {
        insert_by_start(sorted.drop_last(), e).push(sorted.last())
    } else {
        sorted.push(e)
    }
}

/// The edits in the order of their start offsets, and of their end offsets where two
/// start at the same offset; edits with the same range keep the order in which they
/// were given.
pub open spec fn sort_by_start(edits: Seq<EditView>) -> Seq<EditView>
    decreases edits.len(),
{
    if edits.len() == 0 {
        Seq::empty()
    } else {
        insert_by_start(sort_by_start(edits.drop_last()), edits.last())
    }
}

/// Whether no edit comes after a later one.
pub open spec fn ascending(edits: Seq<EditView>) -> bool {
    forall|i: int, j: int| 0 <= i < j < edits.len() ==> !comes_after(edits[i], edits[j])
}

/// Whether every edit's range is a span of the text.
pub open spec fn all_fit(bytes: Seq<u8>, edits: Seq<EditView>) -> bool {
    forall|i: int|
        0 <= i < edits.len() ==> span_ok(bytes, (#[trigger] edits[i]).start, edits[i].end)
}

/// Whether `next` starts where `first` ends or behind it, and the two do not have the
/// same range.
pub open spec fn keeps_apart(first: EditView, next: EditView) -> bool {
    first.end <= next.start && !(first.start == next.start && first.end == next.end)
}

/// Whether the ranges are distinct and do not overlap: each edit keeps apart from the
/// one behind it.
pub open spec fn separate(sorted: Seq<EditView>) -> bool {
    forall|i: int| 0 <= i < sorted.len() - 1 ==> #[trigger] keeps_apart(sorted[i], sorted[i + 1])
}

/// The text from `cursor` on, with each edit's range replaced by its replacement.
pub open spec fn splice_from(bytes: Seq<u8>, sorted: Seq<EditView>, cursor: int) -> Seq<u8>
    decreases sorted.len(),
{
    if sorted.len() == 0 {
        bytes.subrange(cursor, bytes.len() as int)
    } else {
        bytes.subrange(cursor, sorted[0].start) + encode_utf8(sorted[0].replacement) + splice_from(
            bytes,
            sorted.drop_first(),
            sorted[0].end,
        )
    }
}

/// The document that the edits make of `text`: `BadSpan` where the range of some edit is
/// no span of the text; `OverlappingEdits` where, in the order of their ranges, an edit
/// starts before the end of the one before it, or two edits have the same range; else
/// the text with every edit's range replaced, and every byte outside those ranges as it
/// was. Edits may touch, and an edit may start where the text starts.
pub open spec fn compose(text: Seq<char>, edits: Seq<EditView>) -> Result<Seq<char>, RewriteError> {
    let bytes = encode_utf8(text);
    let sorted = sort_by_start(edits);
    if !all_fit(bytes, edits) {
        Err(RewriteError::BadSpan)
    } else if !separate(sorted) {
        Err(RewriteError::OverlappingEdits)
    } else {
        Ok(decode_utf8(splice_from(bytes, sorted, 0)))
    }
}

/// The edits that `refs` point to, as mathematical values.
pub open spec fn refs_view(refs: Seq<&Edit>) -> Seq<EditView> {
    refs.map_values(|e: &Edit| e@)
}

/// Putting `e` in by its range is putting it at the place `at`, where `at` parts the
/// edits that come after `e` from the others.
proof fn lemma_insert_at(sorted: Seq<EditView>, e: EditView, at: int)
    requires
        0 <= at <= sorted.len(),
        forall|k: int| at <= k < sorted.len() ==> comes_after(sorted[k], e),
        at == 0 || !comes_after(sorted[at - 1], e),
    ensures
        insert_by_start(sorted, e) == sorted.insert(at, e),
    decreases sorted.len(),
{
    if at < sorted.len() {
        lemma_insert_at(sorted.drop_last(), e, at);
        assert(sorted.drop_last().insert(at, e).push(sorted.last()) =~= sorted.insert(at, e));
    } else {
        assert(sorted.push(e) =~= sorted.insert(at, e));
    }
}

/// Whether each range is a span of the text.
fn check_spans(text: &str, edits: &Vec<Edit>) -> (r: bool)
    ensures
        r == all_fit(text.spec_bytes(), edits_view(edits@)),
{
    let length = text.as_bytes().len();
    let mut i: usize = 0;
    while i < edits.len()
        invariant
            i <= edits.len(),
            length == text.spec_bytes().len(),
            forall|k: int|
                0 <= k < i ==> span_ok(
                    text.spec_bytes(),
                    (#[trigger] edits_view(edits@)[k]).start,
                    edits_view(edits@)[k].end,
                ),
        decreases edits.len() - i,
    {
        let e = &edits[i];
        if !(e.start <= e.end && e.end <= length && text.is_char_boundary(e.start)
            && text.is_char_boundary(e.end)) {
            assert(!span_ok(
                text.spec_bytes(),
                edits_view(edits@)[i as int].start,
                edits_view(edits@)[i as int].end,
            ));
            return false;
        }
        i += 1;
    }
    true
}

/// Whether `a` comes behind `b` in the order of the edits.
fn is_after(a: &Edit, b: &Edit) -> (r: bool)
    ensures
        r == comes_after(a@, b@),
{
    a.start > b.start || (a.start == b.start && a.end > b.end)
}

/// The edits in the order of their ranges.
fn sorted_refs<'a>(edits: &'a Vec<Edit>) -> (sorted: Vec<&'a Edit>)
    ensures
        refs_view(sorted@) == sort_by_start(edits_view(edits@)),
{
    let mut sorted: Vec<&Edit> = Vec::new();
    let mut i: usize = 0;
    assert(edits_view(edits@).take(0) =~= Seq::<EditView>::empty());
    assert(refs_view(sorted@) =~= Seq::<EditView>::empty());
    while i < edits.len()
        invariant
            i <= edits.len(),
            refs_view(sorted@) == sort_by_start(edits_view(edits@).take(i as int)),
            sorted@.len() == i,
        decreases edits.len() - i,
    {
        let e = &edits[i];
        let mut at: usize = sorted.len();
        while at > 0 && is_after(sorted[at - 1], e)
            invariant
                at <= sorted@.len(),
                forall|k: int| at <= k < sorted@.len() ==> comes_after(refs_view(sorted@)[k], e@),
            decreases at,
        {
            at -= 1;
        }
        proof {
            let before = refs_view(sorted@);
            lemma_insert_at(before, e@, at as int);
            let prefix = edits_view(edits@).take(i + 1);
            assert(prefix.drop_last() =~= edits_view(edits@).take(i as int));
            assert(prefix.last() == e@);
            assert(refs_view(sorted@.insert(at as int, e)) =~= before.insert(at as int, e@));
        }
        sorted.insert(at, e);
        i += 1;
    }
    assert(edits_view(edits@).take(i as int) =~= edits_view(edits@));
    sorted
}

/// Whether the ranges are distinct and do not overlap.
fn check_separate(sorted: &Vec<&Edit>) -> (r: bool)
    ensures
        r == separate(refs_view(sorted@)),
{
    if sorted.len() < 2 {
        return true;
    }
    let mut i: usize = 0;
    while i < sorted.len() - 1
        invariant
            sorted@.len() >= 2,
            i <= sorted@.len() - 1,
            forall|k: int|
                0 <= k < i ==> #[trigger] keeps_apart(
                    refs_view(sorted@)[k],
                    refs_view(sorted@)[k + 1],
                ),
        decreases sorted.len() - i,
    {
        let first = sorted[i];
        let next = sorted[i + 1];
        if first.end > next.start || (first.start == next.start && first.end == next.end) {
            assert(!keeps_apart(refs_view(sorted@)[i as int], refs_view(sorted@)[i + 1]));
            return false;
        }
        i += 1;
    }
    true
}

/// The text with the range of every edit replaced, for edits that come in the order of
/// their ranges, fit the text and keep apart.
fn rebuild(text: &str, sorted: &Vec<&Edit>) -> (out: String)
    requires
        all_fit(text.spec_bytes(), refs_view(sorted@)),
        separate(refs_view(sorted@)),
    ensures
        encode_utf8(out@) == splice_from(text.spec_bytes(), refs_view(sorted@), 0),
{
    let ghost bytes = text.spec_bytes();
    let ghost plan = refs_view(sorted@);
    proof {
        encode_utf8_valid_utf8(text@);
        is_char_boundary_start_end_of_seq(bytes);
        assert(plan.skip(0) =~= plan);
    }
    let length = text.as_bytes().len();
    let mut out = String::new();
    let mut cursor: usize = 0;
    let mut i: usize = 0;
    assert(encode_utf8(out@) =~= Seq::<u8>::empty());
    assert(encode_utf8(out@) + splice_from(bytes, plan, 0) =~= splice_from(bytes, plan, 0));
    while i < sorted.len()
        invariant
            i <= sorted@.len(),
            bytes == text.spec_bytes(),
            length == bytes.len(),
            plan == refs_view(sorted@),
            all_fit(bytes, plan),
            separate(plan),
            cursor <= length,
            is_char_boundary(bytes, cursor as int),
            i < plan.len() ==> cursor <= plan[i as int].start,
            encode_utf8(out@) + splice_from(bytes, plan.skip(i as int), cursor as int)
                == splice_from(bytes, plan, 0),
        decreases sorted.len() - i,
    {
        let e = sorted[i];
        let ghost rest = plan.skip(i as int);
        let ghost before = out@;
        proof {
            assert(rest[0] == plan[i as int]);
            assert(plan[i as int] == e@);
            assert(span_ok(bytes, plan[i as int].start, plan[i as int].end));
            assert(rest.drop_first() =~= plan.skip(i + 1));
            assert(span_ok(bytes, cursor as int, e.start as int));
            if i + 1 < plan.len() {
                assert(keeps_apart(plan[i as int], plan[i + 1]));
            }
        }
        let kept = cut(text, cursor, e.start);
        out.append(kept);
        out.append(e.replacement.as_str());
        proof {
            lemma_encode_concat(before, kept@);
            lemma_encode_concat(before + kept@, e.replacement@);
            lemma_splice_step(bytes, rest, cursor as int);
            assert(encode_utf8(out@) + splice_from(bytes, plan.skip(i + 1), e.end as int)
                =~= encode_utf8(before) + splice_from(bytes, rest, cursor as int));
        }
        cursor = e.end;
        i += 1;
    }
    let ghost before = out@;
    proof {
        assert(plan.skip(i as int).len() == 0);
        assert(span_ok(bytes, cursor as int, length as int));
    }
    let tail = cut(text, cursor, length);
    out.append(tail);
    proof {
        lemma_encode_concat(before, tail@);
    }
    out
}

/// One step of `splice_from`, written out.
proof fn lemma_splice_step(bytes: Seq<u8>, sorted: Seq<EditView>, cursor: int)
    requires
        sorted.len() > 0,
    ensures
        splice_from(bytes, sorted, cursor) == bytes.subrange(cursor, sorted[0].start)
            + encode_utf8(sorted[0].replacement) + splice_from(
            bytes,
            sorted.drop_first(),
            sorted[0].end,
        ),
{
}

/// Applies the edits to the text: checks that they fit the text, sorts them by their
/// ranges, checks that they keep apart, and rebuilds the document around them.
pub fn apply_edits(text: &str, edits: &Vec<Edit>) -> (r: Result<String, RewriteError>)
    ensures
        match compose(text@, edits_view(edits@)) {
            Ok(document) => r is Ok && r.unwrap()@ == document,
            Err(e) => r == Err::<String, RewriteError>(e),
        },
        edits@.len() == 0 ==> r is Ok && r.unwrap()@ == text@,
{
    proof {
        lemma_no_edits(text@);
        if edits@.len() == 0 {
            assert(edits_view(edits@) =~= Seq::<EditView>::empty());
        }
    }
    if !check_spans(text, edits) {
        return Err(RewriteError::BadSpan);
    }
    let sorted = sorted_refs(edits);
    if !check_separate(&sorted) {
        return Err(RewriteError::OverlappingEdits);
    }
    proof {
        lemma_sort_permutes(edits_view(edits@));
        lemma_all_fit_same_edits(text.spec_bytes(), edits_view(edits@), refs_view(sorted@));
    }
    let out = rebuild(text, &sorted);
    proof {
        encode_utf8_decode_utf8(out@);
    }
    Ok(out)
}

/// With no edits the document is the text.
pub proof fn lemma_no_edits(text: Seq<char>)
    ensures
        compose(text, Seq::<EditView>::empty()) == Ok::<Seq<char>, RewriteError>(text),
{
    let bytes = encode_utf8(text);
    assert(sort_by_start(Seq::<EditView>::empty()) =~= Seq::<EditView>::empty());
    assert(bytes.subrange(0, bytes.len() as int) =~= bytes);
    encode_utf8_decode_utf8(text);
}

/// Putting an edit in by its start adds that edit and changes nothing else.
pub proof fn lemma_insert_permutes(sorted: Seq<EditView>, e: EditView)
    ensures
        insert_by_start(sorted, e).to_multiset() == sorted.to_multiset().insert(e),
    decreases sorted.len(),
{
    broadcast use vstd::seq_lib::group_to_multiset_ensures;

    if sorted.len() > 0 && comes_after(sorted.last(), e) {
        let front = sorted.drop_last();
        lemma_insert_permutes(front, e);
        assert(front.push(sorted.last()) =~= sorted);
        assert(insert_by_start(sorted, e).to_multiset() =~= sorted.to_multiset().insert(e));
    } else {
    }
}

/// Sorting changes the order of the edits and nothing else.
pub proof fn lemma_sort_permutes(edits: Seq<EditView>)
    ensures
        sort_by_start(edits).to_multiset() == edits.to_multiset(),
        sort_by_start(edits).len() == edits.len(),
    decreases edits.len(),
{
    broadcast use vstd::seq_lib::group_to_multiset_ensures;

    if edits.len() == 0 {
        assert(sort_by_start(edits) =~= edits);
    } else {
        lemma_sort_permutes(edits.drop_last());
        lemma_insert_permutes(sort_by_start(edits.drop_last()), edits.last());
        assert(edits.drop_last().push(edits.last()) =~= edits);
    }
    sort_by_start(edits).to_multiset_ensures();
    edits.to_multiset_ensures();
}

/// Two lists of the same edits fit the same texts.
pub proof fn lemma_all_fit_same_edits(bytes: Seq<u8>, a: Seq<EditView>, b: Seq<EditView>)
    requires
        a.to_multiset() == b.to_multiset(),
    ensures
        all_fit(bytes, a) == all_fit(bytes, b),
{
    if all_fit(bytes, a) {
        lemma_all_fit_taken(bytes, a, b);
    }
    if all_fit(bytes, b) {
        lemma_all_fit_taken(bytes, b, a);
    }
}

/// Edits that are all among edits that fit a text fit it too.
proof fn lemma_all_fit_taken(bytes: Seq<u8>, a: Seq<EditView>, b: Seq<EditView>)
    requires
        a.to_multiset() == b.to_multiset(),
        all_fit(bytes, a),
    ensures
        all_fit(bytes, b),
{
    assert forall|i: int| 0 <= i < b.len() implies span_ok(
        bytes,
        (#[trigger] b[i]).start,
        b[i].end,
    ) by {
        let k = lemma_shared(b, a, i);
        assert(span_ok(bytes, a[k].start, a[k].end));
    }
}

/// The place where `insert_by_start` puts `e`.
pub open spec fn rank(sorted: Seq<EditView>, e: EditView) -> int
    decreases sorted.len(),
{
    if sorted.len() > 0 && comes_after(sorted.last(), e) {
        rank(sorted.drop_last(), e)
    } else {
        sorted.len() as int
    }
}

/// The place where an edit is put parts the edits that come after it from the others.
proof fn lemma_rank(sorted: Seq<EditView>, e: EditView)
    ensures
        0 <= rank(sorted, e) <= sorted.len(),
        forall|k: int| rank(sorted, e) <= k < sorted.len() ==> comes_after(sorted[k], e),
        rank(sorted, e) == 0 || !comes_after(sorted[rank(sorted, e) - 1], e),
        insert_by_start(sorted, e) == sorted.insert(rank(sorted, e), e),
    decreases sorted.len(),
{
    if sorted.len() > 0 && comes_after(sorted.last(), e) {
        lemma_rank(sorted.drop_last(), e);
    }
    let at = rank(sorted, e);
    if sorted.len() > 0 && comes_after(sorted.last(), e) {
        assert forall|k: int| at <= k < sorted.len() implies comes_after(sorted[k], e) by {
            if k < sorted.len() - 1 {
                assert(sorted.drop_last()[k] == sorted[k]);
            }
        }
        if at > 0 {
            assert(sorted.drop_last()[at - 1] == sorted[at - 1]);
        }
    }
    lemma_insert_at(sorted, e, at);
}

/// Sorting leaves no edit that comes after a later one.
pub proof fn lemma_sort_ascending(edits: Seq<EditView>)
    ensures
        ascending(sort_by_start(edits)),
    decreases edits.len(),
{
    if edits.len() > 0 {
        let front = sort_by_start(edits.drop_last());
        let e = edits.last();
        lemma_sort_ascending(edits.drop_last());
        lemma_rank(front, e);
        let at = rank(front, e);
        let all = front.insert(at, e);
        assert forall|i: int, j: int| 0 <= i < j < all.len() implies !comes_after(
            all[i],
            all[j],
        ) by {
            if at > 0 && i < at {
                assert(!comes_after(front[i], front[at - 1]));
            }
        }
    }
}

/// Of edits that fit a text and keep apart, each ends before any later one starts or
/// where it starts, and comes before it in the order of the edits.
proof fn lemma_ends_before(bytes: Seq<u8>, sorted: Seq<EditView>, i: int, j: int)
    requires
        all_fit(bytes, sorted),
        separate(sorted),
        0 <= i < j < sorted.len(),
    ensures
        sorted[i].end <= sorted[j].start,
        comes_after(sorted[j], sorted[i]),
    decreases j - i,
{
    let before = j - 1;
    assert(keeps_apart(sorted[before], sorted[before + 1]));
    assert(span_ok(bytes, sorted[before].start, sorted[before].end));
    assert(span_ok(bytes, sorted[i].start, sorted[i].end));
    assert(span_ok(bytes, sorted[j].start, sorted[j].end));
    if i < before {
        lemma_ends_before(bytes, sorted, i, before);
    }
}

/// Of edits that fit a text and keep apart, those behind the first do so too.
proof fn lemma_rest(bytes: Seq<u8>, sorted: Seq<EditView>)
    requires
        all_fit(bytes, sorted),
        separate(sorted),
        sorted.len() > 0,
    ensures
        all_fit(bytes, sorted.drop_first()),
        separate(sorted.drop_first()),
        sorted.len() > 1 ==> sorted[0].end <= sorted.drop_first()[0].start,
{
    let rest = sorted.drop_first();
    assert forall|i: int| 0 <= i < rest.len() implies span_ok(
        bytes,
        (#[trigger] rest[i]).start,
        rest[i].end,
    ) by {
        assert(rest[i] == sorted[i + 1]);
    }
    assert forall|i: int| 0 <= i < rest.len() - 1 implies #[trigger] keeps_apart(
        rest[i],
        rest[i + 1],
    ) by {
        let at = i + 1;
        assert(keeps_apart(sorted[at], sorted[at + 1]));
    }
    if sorted.len() > 1 {
        assert(keeps_apart(sorted[0], sorted[0int + 1]));
    }
}

/// An edit of the one list stands in the other.
proof fn lemma_shared(s: Seq<EditView>, t: Seq<EditView>, i: int) -> (k: int)
    requires
        s.to_multiset() == t.to_multiset(),
        0 <= i < s.len(),
    ensures
        0 <= k < t.len(),
        t[k] == s[i],
{
    s.to_multiset_ensures();
    t.to_multiset_ensures();
    assert(s.contains(s[i]));
    assert(s.to_multiset().count(s[i]) > 0);
    assert(t.to_multiset().count(s[i]) > 0);
    assert(t.contains(s[i]));
    choose|k: int| 0 <= k < t.len() && t[k] == s[i]
}

/// Two lists of the same edits, without their first edits, where these are the same.
proof fn lemma_same_rest(s: Seq<EditView>, t: Seq<EditView>)
    requires
        s.to_multiset() == t.to_multiset(),
        s.len() > 0,
        t.len() > 0,
        s[0] == t[0],
    ensures
        s.drop_first().to_multiset() == t.drop_first().to_multiset(),
        s.len() == t.len(),
{
    s.to_multiset_ensures();
    t.to_multiset_ensures();
    assert(s.remove(0) =~= s.drop_first());
    assert(t.remove(0) =~= t.drop_first());
}

/// There is one way only to put edits that keep apart in ascending order.
proof fn lemma_one_order(bytes: Seq<u8>, s: Seq<EditView>, t: Seq<EditView>)
    requires
        s.to_multiset() == t.to_multiset(),
        all_fit(bytes, s),
        separate(s),
        ascending(t),
    ensures
        s == t,
    decreases s.len(),
{
    assert(s.len() == t.len()) by {
        s.to_multiset_ensures();
        t.to_multiset_ensures();
    }
    if s.len() == 0 {
        assert(s =~= t);
    } else {
        let k = lemma_shared(s, t, 0);
        let m = lemma_shared(t, s, 0);
        assert(!comes_after(t[0], s[0])) by {
            if k > 0 {
                assert(!comes_after(t[0], t[k]));
            }
        }
        assert(m == 0) by {
            if m > 0 {
                lemma_ends_before(bytes, s, 0, m);
            }
        }
        let s1 = s.drop_first();
        let t1 = t.drop_first();
        lemma_same_rest(s, t);
        lemma_rest(bytes, s);
        assert(ascending(t1)) by {
            assert forall|i: int, j: int| 0 <= i < j < t1.len() implies !comes_after(
                t1[i],
                t1[j],
            ) by {
                assert(t1[i] == t[i + 1]);
                assert(t1[j] == t[j + 1]);
            }
        }
        lemma_one_order(bytes, s1, t1);
        assert(s =~= t) by {
            assert forall|i: int| 0 <= i < s.len() implies s[i] == t[i] by {
                if i > 0 {
                    assert(s1[i - 1] == s[i]);
                    assert(t1[i - 1] == t[i]);
                }
            }
        }
    }
}

/// The order in which the edits are handed over does not matter: two lists of the same
/// edits make the same document of a text, or fail in the same way.
pub proof fn lemma_order_independent(text: Seq<char>, a: Seq<EditView>, b: Seq<EditView>)
    requires
        a.to_multiset() == b.to_multiset(),
    ensures
        compose(text, a) == compose(text, b),
{
    let bytes = encode_utf8(text);
    lemma_all_fit_same_edits(bytes, a, b);
    lemma_sort_permutes(a);
    lemma_sort_permutes(b);
    lemma_sort_ascending(a);
    lemma_sort_ascending(b);
    lemma_all_fit_same_edits(bytes, a, sort_by_start(a));
    lemma_all_fit_same_edits(bytes, b, sort_by_start(b));
    if all_fit(bytes, a) {
        if separate(sort_by_start(a)) {
            lemma_one_order(bytes, sort_by_start(a), sort_by_start(b));
        } else if separate(sort_by_start(b)) {
            lemma_one_order(bytes, sort_by_start(b), sort_by_start(a));
        }
    }
}

/// Two different places of a list hold two different places of the sorted list.
proof fn lemma_two_places(bytes: Seq<u8>, edits: Seq<EditView>, i: int, j: int) -> (at: (int, int))
    requires
        0 <= i < edits.len(),
        0 <= j < edits.len(),
        i != j,
        all_fit(bytes, sort_by_start(edits)),
        separate(sort_by_start(edits)),
    ensures
        0 <= at.0 < sort_by_start(edits).len(),
        0 <= at.1 < sort_by_start(edits).len(),
        at.0 != at.1,
        sort_by_start(edits)[at.0] == edits[i],
        sort_by_start(edits)[at.1] == edits[j],
{
    let sorted = sort_by_start(edits);
    lemma_sort_permutes(edits);
    assert(sorted.no_duplicates()) by {
        assert forall|p: int, q: int| 0 <= p < sorted.len() && 0 <= q < sorted.len() && p
            != q implies sorted[p] != sorted[q] by {
            if p < q {
                lemma_ends_before(bytes, sorted, p, q);
            } else {
                lemma_ends_before(bytes, sorted, q, p);
            }
        }
    }
    sorted.lemma_multiset_has_no_duplicates();
    edits.lemma_multiset_has_no_duplicates_conv();
    assert(edits[i] != edits[j]);
    let p = lemma_shared(edits, sorted, i);
    let q = lemma_shared(edits, sorted, j);
    (p, q)
}

/// A list that holds two edits whose ranges share a byte is refused, whatever the text
/// and whatever else the list holds.
pub proof fn lemma_overlap_refused(text: Seq<char>, edits: Seq<EditView>, i: int, j: int)
    requires
        0 <= i < edits.len(),
        0 <= j < edits.len(),
        i != j,
        edits[i].start < edits[j].end,
        edits[j].start < edits[i].end,
    ensures
        compose(text, edits) is Err,
{
    let bytes = encode_utf8(text);
    let sorted = sort_by_start(edits);
    lemma_sort_permutes(edits);
    lemma_all_fit_same_edits(bytes, edits, sorted);
    if all_fit(bytes, edits) && separate(sorted) {
        let at = lemma_two_places(bytes, edits, i, j);
        if at.0 < at.1 {
            lemma_ends_before(bytes, sorted, at.0, at.1);
        } else {
            lemma_ends_before(bytes, sorted, at.1, at.0);
        }
    }
}

/// Two edits with the same range are refused.
pub proof fn lemma_same_range_refused(text: Seq<char>, edits: Seq<EditView>, i: int, j: int)
    requires
        0 <= i < edits.len(),
        0 <= j < edits.len(),
        i != j,
        edits[i].start == edits[j].start,
        edits[i].end == edits[j].end,
    ensures
        compose(text, edits) is Err,
{
    let bytes = encode_utf8(text);
    let sorted = sort_by_start(edits);
    lemma_sort_permutes(edits);
    lemma_all_fit_same_edits(bytes, edits, sorted);
    if all_fit(bytes, edits) && separate(sorted) {
        let at = lemma_two_places(bytes, edits, i, j);
        if at.0 < at.1 {
            lemma_ends_before(bytes, sorted, at.0, at.1);
        } else {
            lemma_ends_before(bytes, sorted, at.1, at.0);
        }
    }
}

/// Edits that come in the order of their ranges are composed as they stand.
pub proof fn lemma_sorted_input(edits: Seq<EditView>)
    requires
        ascending(edits),
    ensures
        sort_by_start(edits) == edits,
    decreases edits.len(),
{
    if edits.len() == 0 {
        assert(sort_by_start(edits) =~= edits);
    } else {
        let front = edits.drop_last();
        assert forall|i: int, j: int| 0 <= i < j < front.len() implies !comes_after(
            front[i],
            front[j],
        ) by {
            assert(front[i] == edits[i]);
            assert(front[j] == edits[j]);
        }
        lemma_sorted_input(front);
        if front.len() > 0 {
            assert(front.last() == edits[edits.len() - 2]);
            assert(!comes_after(edits[edits.len() - 2], edits[edits.len() - 1]));
        }
        assert(front.push(edits.last()) =~= edits);
    }
}

/// A lone edit that fits the text is applied, wherever it stands, at the start of the
/// text too: the document is the text before the range, the replacement, and the text
/// behind the range.
pub proof fn lemma_single_edit(text: Seq<char>, e: EditView)
    requires
        span_ok(encode_utf8(text), e.start, e.end),
    ensures
        compose(text, seq![e]) is Ok,
        encode_utf8(compose(text, seq![e]).unwrap()) == encode_utf8(text).subrange(0, e.start)
            + encode_utf8(e.replacement) + encode_utf8(text).subrange(
            e.end,
            encode_utf8(text).len() as int,
        ),
{
    let bytes = encode_utf8(text);
    let edits = seq![e];
    assert(ascending(edits));
    lemma_sorted_input(edits);
    assert(all_fit(bytes, edits));
    assert(separate(edits));
    assert(edits.drop_first() =~= Seq::<EditView>::empty());
    assert(splice_from(bytes, edits.drop_first(), e.end) == bytes.subrange(
        e.end,
        bytes.len() as int,
    ));
    lemma_splice_step(bytes, edits, 0);
    let whole = splice_from(bytes, edits, 0);
    assert(whole =~= bytes.subrange(0, e.start) + encode_utf8(e.replacement) + bytes.subrange(
        e.end,
        bytes.len() as int,
    ));
    encode_utf8_valid_utf8(text);
    is_char_boundary_start_end_of_seq(bytes);
    lemma_splice_valid(bytes, edits, 0);
    decode_utf8_encode_utf8(whole);
}

/// Two edits that fit the text, the second starting where the first ends, and not both
/// empty, are applied, in whichever order they are given, and nothing stands between
/// their replacements: the document is the text before the first range, the two
/// replacements, and the text behind the second range.
pub proof fn lemma_touching_applied(text: Seq<char>, a: EditView, b: EditView)
    requires
        span_ok(encode_utf8(text), a.start, a.end),
        span_ok(encode_utf8(text), b.start, b.end),
        a.end == b.start,
        a.start < a.end || b.start < b.end,
    ensures
        compose(text, seq![a, b]) is Ok,
        compose(text, seq![b, a]) == compose(text, seq![a, b]),
        encode_utf8(compose(text, seq![a, b]).unwrap()) == encode_utf8(text).subrange(0, a.start)
            + encode_utf8(a.replacement) + encode_utf8(b.replacement) + encode_utf8(text).subrange(
            b.end,
            encode_utf8(text).len() as int,
        ),
{
    let bytes = encode_utf8(text);
    let edits = seq![a, b];
    assert(ascending(edits));
    lemma_sorted_input(edits);
    assert(separate(edits)) by {
        assert(keeps_apart(edits[0], edits[0int + 1]));
    }
    assert(all_fit(bytes, edits));
    encode_utf8_valid_utf8(text);
    is_char_boundary_start_end_of_seq(bytes);
    let tail = edits.drop_first();
    assert(tail =~= seq![b]);
    assert(tail.drop_first() =~= Seq::<EditView>::empty());
    assert(splice_from(bytes, tail.drop_first(), b.end) == bytes.subrange(
        b.end,
        bytes.len() as int,
    ));
    assert(bytes.subrange(a.end, b.start) =~= Seq::<u8>::empty());
    assert(splice_from(bytes, tail, a.end) =~= encode_utf8(b.replacement) + bytes.subrange(
        b.end,
        bytes.len() as int,
    ));
    let whole = splice_from(bytes, edits, 0);
    assert(whole =~= bytes.subrange(0, a.start) + encode_utf8(a.replacement) + encode_utf8(
        b.replacement,
    ) + bytes.subrange(b.end, bytes.len() as int));
    lemma_splice_valid(bytes, edits, 0);
    decode_utf8_encode_utf8(whole);
    assert(seq![b, a].to_multiset() =~= seq![a, b].to_multiset()) by {
        broadcast use vstd::seq_lib::group_to_multiset_ensures;

        assert(seq![b, a] =~= seq![b].push(a));
        assert(seq![a, b] =~= seq![a].push(b));
        assert(seq![a] =~= Seq::<EditView>::empty().push(a));
        assert(seq![b] =~= Seq::<EditView>::empty().push(b));
    }
    lemma_order_independent(text, seq![b, a], seq![a, b]);
}

/// What the edits make of a text is text again: the bytes are valid UTF-8.
pub proof fn lemma_splice_valid(bytes: Seq<u8>, sorted: Seq<EditView>, cursor: int)
    requires
        valid_utf8(bytes),
        all_fit(bytes, sorted),
        separate(sorted),
        0 <= cursor <= bytes.len(),
        is_char_boundary(bytes, cursor),
        sorted.len() > 0 ==> cursor <= sorted[0].start,
    ensures
        valid_utf8(splice_from(bytes, sorted, cursor)),
    decreases sorted.len(),
{
    if sorted.len() == 0 {
        valid_utf8_split(bytes, cursor);
    } else {
        let e = sorted[0];
        let rest = sorted.drop_first();
        assert(span_ok(bytes, e.start, e.end));
        lemma_rest(bytes, sorted);
        lemma_splice_valid(bytes, rest, e.end);
        lemma_span_valid(bytes, cursor, e.start);
        encode_utf8_valid_utf8(e.replacement);
        valid_utf8_concat(bytes.subrange(cursor, e.start), encode_utf8(e.replacement));
        valid_utf8_concat(
            bytes.subrange(cursor, e.start) + encode_utf8(e.replacement),
            splice_from(bytes, rest, e.end),
        );
    }
}


/// By how many bytes the first `count` edits move what stands behind them.
pub open spec fn shift(sorted: Seq<EditView>, count: int) -> int
    decreases count,
{
    if count <= 0 || sorted.len() == 0 {
        0
    } else {
        encode_utf8(sorted[0].replacement).len() - (sorted[0].end - sorted[0].start) + shift(
            sorted.drop_first(),
            count - 1,
        )
    }
}

/// Whether the offset `at` lies behind the first `count` edits and before the others,
/// at or behind `cursor`.
pub open spec fn between(
    bytes: Seq<u8>,
    sorted: Seq<EditView>,
    cursor: int,
    count: int,
    at: int,
) -> bool {
    &&& 0 <= count <= sorted.len()
    &&& cursor <= at
    &&& count > 0 ==> sorted[count - 1].end <= at
    &&& count < sorted.len() ==> at < sorted[count].start
    &&& at < bytes.len()
}

/// A byte outside the ranges stands in what is spliced from `cursor` on, moved by as
/// much as the edits before it have made the text longer or shorter.
proof fn lemma_spliced_byte(bytes: Seq<u8>, sorted: Seq<EditView>, cursor: int, count: int, at: int)
    requires
        all_fit(bytes, sorted),
        separate(sorted),
        0 <= cursor,
        sorted.len() > 0 ==> cursor <= sorted[0].start,
        between(bytes, sorted, cursor, count, at),
    ensures
        0 <= at - cursor + shift(sorted, count) < splice_from(bytes, sorted, cursor).len(),
        splice_from(bytes, sorted, cursor)[at - cursor + shift(sorted, count)] == bytes[at],
    decreases sorted.len(),
{
    if sorted.len() == 0 {
    } else {
        let first = sorted[0];
        let rest = sorted.drop_first();
        let kept = bytes.subrange(cursor, first.start);
        let put = encode_utf8(first.replacement);
        assert(span_ok(bytes, first.start, first.end));
        lemma_splice_step(bytes, sorted, cursor);
        if count == 0 {
            assert(splice_from(bytes, sorted, cursor)[at - cursor] == kept[at - cursor]);
        } else {
            lemma_rest(bytes, sorted);
            if count - 1 > 0 {
                assert(rest[count - 2] == sorted[count - 1]);
                lemma_ends_before(bytes, sorted, 0, count - 1);
                assert(span_ok(bytes, sorted[count - 1].start, sorted[count - 1].end));
            } else {
                assert(sorted[count - 1] == first);
            }
            if count - 1 < rest.len() {
                assert(rest[count - 1] == sorted[count]);
            }
            lemma_spliced_byte(bytes, rest, first.end, count - 1, at);
            let behind = splice_from(bytes, rest, first.end);
            let index = at - first.end + shift(rest, count - 1);
            assert((kept + put + behind)[kept.len() + put.len() + index] == behind[index]);
        }
    }
}

/// What lies outside the ranges of the edits stays as it is: a byte of the text behind
/// `count` of the edits, in the order of their starts, and before the others stands in
/// the document, moved by as much as those edits have made the text longer or shorter.
pub proof fn lemma_outside_bytes_stay(text: Seq<char>, edits: Seq<EditView>, count: int, at: int)
    requires
        compose(text, edits) is Ok,
        between(encode_utf8(text), sort_by_start(edits), 0, count, at),
    ensures
        0 <= at + shift(sort_by_start(edits), count) < encode_utf8(
            compose(text, edits).unwrap(),
        ).len(),
        encode_utf8(compose(text, edits).unwrap())[at + shift(sort_by_start(edits), count)]
            == encode_utf8(text)[at],
{
    let bytes = encode_utf8(text);
    let sorted = sort_by_start(edits);
    lemma_sort_permutes(edits);
    lemma_all_fit_same_edits(bytes, edits, sorted);
    if sorted.len() > 0 {
        assert(span_ok(bytes, sorted[0].start, sorted[0].end));
    }
    lemma_spliced_byte(bytes, sorted, 0, count, at);
    encode_utf8_valid_utf8(text);
    is_char_boundary_start_end_of_seq(bytes);
    lemma_splice_valid(bytes, sorted, 0);
    decode_utf8_encode_utf8(splice_from(bytes, sorted, 0));
}

} // verus!
