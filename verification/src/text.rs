//! Text by byte offsets: spans, comparison, search and trimming.

use vstd::prelude::*;
use vstd::std_specs::iter::IteratorSpec;
use vstd::string::*;
use vstd::utf8::*;

verus! {

/// Whether `[start, end)` can be cut out of a UTF-8 byte sequence as text of its own:
/// the range lies inside the sequence and both ends fall between characters.
pub open spec fn span_ok(bytes: Seq<u8>, start: int, end: int) -> bool {
    &&& 0 <= start <= end <= bytes.len()
    &&& is_char_boundary(bytes, start)
    &&& is_char_boundary(bytes, end)
}

/// The characters that the bytes `[start, end)` of `text` spell, where that range is a
/// span of the text.
pub open spec fn span_text(text: Seq<char>, start: int, end: int) -> Option<Seq<char>> {
    if span_ok(encode_utf8(text), start, end) {
        Some(decode_utf8(encode_utf8(text).subrange(start, end)))
    } else {
        None
    }
}

/// Encoding distributes over concatenation.
pub proof fn lemma_encode_concat(a: Seq<char>, b: Seq<char>)
    ensures
        encode_utf8(a + b) == encode_utf8(a) + encode_utf8(b),
    decreases a.len(),
{
    if a.len() == 0 {
        assert(a + b =~= b);
        assert(encode_utf8(a) + encode_utf8(b) =~= encode_utf8(b));
    } else {
        assert((a + b).drop_first() =~= a.drop_first() + b);
        lemma_encode_concat(a.drop_first(), b);
        assert((a + b)[0] == a[0]);
        assert(encode_utf8(a + b) =~= encode_utf8(a) + encode_utf8(b));
    }
}

/// Two texts with the same encoding are the same text.
pub proof fn lemma_encode_injective(a: Seq<char>, b: Seq<char>)
    requires
        encode_utf8(a) == encode_utf8(b),
    ensures
        a == b,
{
    encode_utf8_decode_utf8(a);
    encode_utf8_decode_utf8(b);
}

/// A boundary of the whole text is a boundary of any prefix that reaches it.
proof fn lemma_boundary_in_prefix(bytes: Seq<u8>, start: int, end: int)
    requires
        valid_utf8(bytes),
        span_ok(bytes, start, end),
    ensures
        valid_utf8(bytes.subrange(0, end)),
        is_char_boundary(bytes.subrange(0, end), start),
{
    valid_utf8_split(bytes, end);
    let head = bytes.subrange(0, end);
    if start == end {
        is_char_boundary_start_end_of_seq(head);
    } else if start == 0 {
    } else {
        is_char_boundary_iff_not_is_continuation_byte(bytes, start);
        is_char_boundary_iff_not_is_continuation_byte(head, start);
    }
}

/// The bytes of a span are text of their own.
pub proof fn lemma_span_valid(bytes: Seq<u8>, start: int, end: int)
    requires
        valid_utf8(bytes),
        span_ok(bytes, start, end),
    ensures
        valid_utf8(bytes.subrange(start, end)),
{
    lemma_boundary_in_prefix(bytes, start, end);
    let head = bytes.subrange(0, end);
    valid_utf8_split(head, start);
    assert(head.subrange(start, head.len() as int) =~= bytes.subrange(start, end));
}

/// The part of `text` between the byte offsets `start` and `end` of a span.
pub(crate) fn cut<'a>(text: &'a str, start: usize, end: usize) -> (r: &'a str)
    requires
        span_ok(text.spec_bytes(), start as int, end as int),
    ensures
        r.spec_bytes() == text.spec_bytes().subrange(start as int, end as int),
        span_text(text@, start as int, end as int) == Some(r@),
{
    proof {
        encode_utf8_valid_utf8(text@);
        lemma_boundary_in_prefix(text.spec_bytes(), start as int, end as int);
    }
    let (head, _) = text.split_at(end);
    let (_, mid) = head.split_at(start);
    proof {
        assert(mid.spec_bytes() =~= text.spec_bytes().subrange(start as int, end as int));
        encode_utf8_decode_utf8(mid@);
    }
    mid
}

/// The part of `text` between the byte offsets `start` and `end`, or `None` where that
/// range is no span of the text.
pub fn substr<'a>(text: &'a str, start: usize, end: usize) -> (r: Option<&'a str>)
    ensures
        match span_text(text@, start as int, end as int) {
            Some(s) => r is Some && r.unwrap()@ == s,
            None => r is None,
        },
        r is Some ==> r.unwrap().spec_bytes() == text.spec_bytes().subrange(
            start as int,
            end as int,
        ),
{
    if start <= end && end <= text.as_bytes().len() && text.is_char_boundary(start)
        && text.is_char_boundary(end) {
        Some(cut(text, start, end))
    } else {
        None
    }
}

/// Whether two texts hold the same characters.
pub fn str_eq(a: &str, b: &str) -> (r: bool)
    ensures
        r == (a@ == b@),
{
    let x = a.as_bytes();
    let y = b.as_bytes();
    if x.len() != y.len() {
        return false;
    }
    let mut i: usize = 0;
    while i < x.len()
        invariant
            i <= x.len(),
            x.len() == y.len(),
            x@ == a.spec_bytes(),
            y@ == b.spec_bytes(),
            forall|j: int| 0 <= j < i ==> x@[j] == y@[j],
        decreases x.len() - i,
    {
        if x[i] != y[i] {
            return false;
        }
        i += 1;
    }
    proof {
        assert(x@ =~= y@);
        lemma_encode_injective(a@, b@);
    }
    true
}


/// Whether `needle` stands in `hay` at the offset `at`.
pub open spec fn occurs_at(hay: Seq<u8>, needle: Seq<u8>, at: int) -> bool {
    &&& 0 <= at
    &&& at + needle.len() <= hay.len()
    &&& hay.subrange(at, at + needle.len()) == needle
}

/// The first offset at or after `from` where `needle` stands in `hay`.
pub open spec fn search_from(hay: Seq<u8>, needle: Seq<u8>, from: int) -> Option<int>
    decreases hay.len() - from,
{
    if from < 0 || from + needle.len() > hay.len() {
        None
    } else if occurs_at(hay, needle, from) {
        Some(from)
    } else if from == hay.len() {
        None
    } else {
        search_from(hay, needle, from + 1)
    }
}

/// The first offset where `needle` stands in `hay`.
pub open spec fn first_occurrence(hay: Seq<u8>, needle: Seq<u8>) -> Option<int> {
    search_from(hay, needle, 0)
}

/// What `search_from` finds is an occurrence with none between `from` and it; where it
/// finds nothing there is none at or after `from`.
proof fn lemma_search_from(hay: Seq<u8>, needle: Seq<u8>, from: int)
    requires
        0 <= from,
    ensures
        match search_from(hay, needle, from) {
            Some(at) => from <= at && occurs_at(hay, needle, at) && forall|j: int|
                from <= j < at ==> !occurs_at(hay, needle, j),
            None => forall|j: int| from <= j ==> !occurs_at(hay, needle, j),
        },
    decreases hay.len() - from,
{
    if from + needle.len() > hay.len() {
    } else if occurs_at(hay, needle, from) {
    } else if from == hay.len() {
    } else {
        lemma_search_from(hay, needle, from + 1);
    }
}

/// The first occurrence is an occurrence, and there is none before it; where there is
/// no first occurrence there is none at all.
pub proof fn lemma_first_occurrence(hay: Seq<u8>, needle: Seq<u8>)
    ensures
        match first_occurrence(hay, needle) {
            Some(at) => occurs_at(hay, needle, at) && forall|j: int|
                j < at ==> !occurs_at(hay, needle, j),
            None => forall|j: int| !occurs_at(hay, needle, j),
        },
{
    lemma_search_from(hay, needle, 0);
}

/// Whether `needle` stands at the offset `at` of `hay`.
fn matches_at(hay: &[u8], needle: &[u8], at: usize) -> (r: bool)
    requires
        at + needle@.len() <= hay@.len(),
    ensures
        r == occurs_at(hay@, needle@, at as int),
{
    let length = hay.len();
    let mut k: usize = 0;
    while k < needle.len()
        invariant
            k <= needle@.len(),
            at + needle@.len() <= hay@.len(),
            hay@.len() == length,
            forall|j: int| 0 <= j < k ==> hay@[at + j] == needle@[j],
        decreases needle.len() - k,
    {
        if hay[at + k] != needle[k] {
            assert(hay@.subrange(at as int, at + needle@.len())[k as int] != needle@[k as int]);
            return false;
        }
        k += 1;
    }
    assert(hay@.subrange(at as int, at + needle@.len()) =~= needle@);
    true
}

/// The byte offset of the first place where `pattern` stands in `text`.
pub fn find(text: &str, pattern: &str) -> (r: Option<usize>)
    ensures
        r matches Some(at) ==> first_occurrence(text.spec_bytes(), pattern.spec_bytes()) == Some(
            at as int,
        ) && at + pattern.spec_bytes().len() <= usize::MAX,
        r is None ==> first_occurrence(text.spec_bytes(), pattern.spec_bytes()) is None,
{
    let hay = text.as_bytes();
    let needle = pattern.as_bytes();
    if needle.len() > hay.len() {
        return None;
    }
    let last: usize = hay.len() - needle.len();
    let mut from: usize = 0;
    loop
        invariant
            hay@ == text.spec_bytes(),
            needle@ == pattern.spec_bytes(),
            last + needle@.len() == hay@.len(),
            hay@.len() <= usize::MAX,
            from <= last,
            first_occurrence(hay@, needle@) == search_from(hay@, needle@, from as int),
        decreases last - from,
    {
        if matches_at(hay, needle, from) {
            return Some(from);
        }
        if from == last {
            assert(search_from(hay@, needle@, from + 1) is None);
            return None;
        }
        from += 1;
    }
}

/// Whether `pattern` stands somewhere in `text`.
pub fn contains(text: &str, pattern: &str) -> (r: bool)
    ensures
        r == first_occurrence(text.spec_bytes(), pattern.spec_bytes()).is_some(),
{
    find(text, pattern).is_some()
}

/// Whether `text` begins with `prefix`.
pub fn starts_with(text: &str, prefix: &str) -> (r: bool)
    ensures
        r == occurs_at(text.spec_bytes(), prefix.spec_bytes(), 0),
{
    let hay = text.as_bytes();
    let needle = prefix.as_bytes();
    if needle.len() > hay.len() {
        return false;
    }
    matches_at(hay, needle, 0)
}

/// Whether a character counts as white space: the characters with the Unicode
/// property `White_Space`, which are the controls from tab to carriage return, the
/// space, next line, the no-break space, the Ogham space mark, the spaces from en quad
/// to hair space, the line and the paragraph separator, the narrow no-break space, the
/// medium mathematical space and the ideographic space.
pub open spec fn white_space(c: char) -> bool {
    let code = c as u32;
    (0x09 <= code <= 0x0d) || code == 0x20 || code == 0x85 || code == 0xa0 || code == 0x1680 || (
    0x2000 <= code <= 0x200a) || code == 0x2028 || code == 0x2029 || code == 0x202f || code
        == 0x205f || code == 0x3000
}

/// Whether a character counts as white space.
pub fn is_white_space(c: char) -> (r: bool)
    ensures
        r == white_space(c),
{
    let code = c as u32;
    (0x09 <= code && code <= 0x0d) || code == 0x20 || code == 0x85 || code == 0xa0 || code
        == 0x1680 || (0x2000 <= code && code <= 0x200a) || code == 0x2028 || code == 0x2029
        || code == 0x202f || code == 0x205f || code == 0x3000
}

/// The text in lower case.
pub uninterp spec fn lowercase(s: Seq<char>) -> Seq<char>;

/// `str::to_lowercase` of std: the lower-case equivalent of the text, as a new `String`.
/// The result depends on the characters alone; the contract gives it the name
/// `lowercase`.
#[verifier::external_body]
pub(crate) fn to_lowercase(s: &str) -> (r: String)
    ensures
        r@ == lowercase(s@),
{
    s.to_lowercase()
}

/// The text without the white space it begins with.
pub open spec fn trim_start(s: Seq<char>) -> Seq<char>
    decreases s.len(),
{
    if s.len() > 0 && white_space(s[0]) {
        trim_start(s.drop_first())
    } else {
        s
    }
}

/// The text without the white space it ends with.
pub open spec fn trim_end(s: Seq<char>) -> Seq<char>
    decreases s.len(),
{
    if s.len() > 0 && white_space(s.last()) {
        trim_end(s.drop_last())
    } else {
        s
    }
}

/// The text without the white space around it.
pub open spec fn trimmed(s: Seq<char>) -> Seq<char> {
    trim_end(trim_start(s))
}

/// Where the white space at the start of a text ends, the text without it begins.
proof fn lemma_trim_start(s: Seq<char>, lead: int)
    requires
        0 <= lead <= s.len(),
        forall|i: int| 0 <= i < lead ==> white_space(s[i]),
        lead == s.len() || !white_space(s[lead]),
    ensures
        trim_start(s) == s.skip(lead),
    decreases s.len(),
{
    if lead == 0 {
        assert(s.skip(0) =~= s);
    } else {
        assert(white_space(s[0]));
        let rest = s.drop_first();
        assert forall|i: int| 0 <= i < lead - 1 implies white_space(rest[i]) by {
            assert(rest[i] == s[i + 1]);
        }
        lemma_trim_start(rest, lead - 1);
        assert(rest.skip(lead - 1) =~= s.skip(lead));
    }
}

/// Where the white space at the end of a text begins, the text without it ends.
proof fn lemma_trim_end(s: Seq<char>, keep: int)
    requires
        0 <= keep <= s.len(),
        forall|i: int| keep <= i < s.len() ==> white_space(s[i]),
        keep == 0 || !white_space(s[keep - 1]),
    ensures
        trim_end(s) == s.take(keep),
    decreases s.len(),
{
    if keep == s.len() {
        assert(s.take(keep) =~= s);
    } else {
        assert(white_space(s.last()));
        let rest = s.drop_last();
        lemma_trim_end(rest, keep);
        assert(rest.take(keep) =~= s.take(keep));
    }
}

/// The text without the white space around it.
pub fn trim<'a>(s: &'a str) -> (r: &'a str)
    ensures
        r@ == trimmed(s@),
{
    let n = s.unicode_len();
    let mut lead: usize = 0;
    let mut keep: usize = 0;
    let mut at: usize = 0;
    for c in it: s.chars()
        invariant
            n == s@.len(),
            it.seq() == s@,
            at == it.index(),
            at <= n,
            lead <= keep <= at,
            forall|i: int| 0 <= i < lead ==> white_space(s@[i]),
            lead < at ==> !white_space(s@[lead as int]),
            lead < at ==> keep > lead,
            forall|i: int| keep <= i < at ==> white_space(s@[i]),
            keep > lead ==> !white_space(s@[keep - 1]),
    {
        if is_white_space(c) {
            if lead == at {
                lead = at + 1;
                keep = at + 1;
            }
        } else {
            keep = at + 1;
        }
        at += 1;
    }
    proof {
        lemma_trim_start(s@, lead as int);
        let t = s@.skip(lead as int);
        assert forall|i: int| keep - lead <= i < t.len() implies white_space(t[i]) by {
            assert(t[i] == s@[i + lead]);
        }
        lemma_trim_end(t, keep - lead);
        assert(t.take(keep - lead) =~= s@.subrange(lead as int, keep as int));
    }
    s.substring_char(lead, keep)
}

} // verus!
