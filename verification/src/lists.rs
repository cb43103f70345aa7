//! Lists of texts: membership, copies, and joining.

use crate::text::str_eq;
use vstd::prelude::*;
use vstd::string::*;

verus! {

/// A list of texts as a mathematical value.
pub open spec fn strings_view(list: Seq<String>) -> Seq<Seq<char>> {
    list.map_values(|s: String| s@)
}

/// The texts that a list of pieces holds.
pub open spec fn texts_view(pieces: Seq<&str>) -> Seq<Seq<char>> {
    pieces.map_values(|s: &str| s@)
}

/// The items of a list, written one after the other with a separator between each two.
pub open spec fn joined(items: Seq<Seq<char>>, separator: Seq<char>) -> Seq<char>
    decreases items.len(),
{
    if items.len() == 0 {
        Seq::empty()
    } else if items.len() == 1 {
        items[0]
    } else {
        joined(items.drop_last(), separator) + separator + items.last()
    }
}

/// A list of pairs of texts as a mathematical value.
pub open spec fn pairs_view(list: Seq<(String, String)>) -> Seq<(Seq<char>, Seq<char>)> {
    list.map_values(|p: (String, String)| (p.0@, p.1@))
}

/// Whether the list holds the text.
pub fn list_contains(list: &Vec<String>, item: &str) -> (r: bool)
    ensures
        r == strings_view(list@).contains(item@),
{
    let mut i: usize = 0;
    while i < list.len()
        invariant
            i <= list.len(),
            forall|k: int| 0 <= k < i ==> strings_view(list@)[k] != item@,
        decreases list.len() - i,
    {
        if str_eq(list[i].as_str(), item) {
            assert(strings_view(list@)[i as int] == item@);
            return true;
        }
        i += 1;
    }
    false
}

/// A copy of a list of texts.
pub fn clone_strings(list: &Vec<String>) -> (r: Vec<String>)
    ensures
        strings_view(r@) == strings_view(list@),
{
    let mut copy: Vec<String> = Vec::new();
    let mut i: usize = 0;
    while i < list.len()
        invariant
            i <= list.len(),
            copy@.len() == i,
            forall|k: int| 0 <= k < i ==> copy@[k]@ == list@[k]@,
        decreases list.len() - i,
    {
        copy.push(list[i].clone());
        i += 1;
    }
    assert(strings_view(copy@) =~= strings_view(list@));
    copy
}

/// A copy of a list of pairs of texts.
pub fn clone_pairs(list: &Vec<(String, String)>) -> (r: Vec<(String, String)>)
    ensures
        pairs_view(r@) == pairs_view(list@),
{
    let mut copy: Vec<(String, String)> = Vec::new();
    let mut i: usize = 0;
    while i < list.len()
        invariant
            i <= list.len(),
            copy@.len() == i,
            forall|k: int| 0 <= k < i ==> copy@[k].0@ == list@[k].0@ && copy@[k].1@ == list@[k].1@,
        decreases list.len() - i,
    {
        copy.push((list[i].0.clone(), list[i].1.clone()));
        i += 1;
    }
    assert(pairs_view(copy@) =~= pairs_view(list@));
    copy
}

/// The pieces of a list of texts.
pub fn as_pieces<'a>(list: &'a Vec<String>) -> (r: Vec<&'a str>)
    ensures
        texts_view(r@) == strings_view(list@),
{
    let mut pieces: Vec<&str> = Vec::new();
    let mut i: usize = 0;
    while i < list.len()
        invariant
            i <= list.len(),
            pieces@.len() == i,
            forall|k: int| 0 <= k < i ==> pieces@[k]@ == list@[k]@,
        decreases list.len() - i,
    {
        pieces.push(list[i].as_str());
        i += 1;
    }
    assert(texts_view(pieces@) =~= strings_view(list@));
    pieces
}

/// Writes the items one after the other, with the separator between each two.
pub fn join(items: &Vec<&str>, separator: &str) -> (out: String)
    ensures
        out@ == joined(texts_view(items@), separator@),
{
    let mut out = String::new();
    if items.len() == 0 {
        return out;
    }
    out.append(items[0]);
    let ghost texts = texts_view(items@);
    let mut i: usize = 1;
    assert(texts.take(1).len() == 1);
    assert(out@ =~= joined(texts.take(1), separator@));
    while i < items.len()
        invariant
            1 <= i <= items.len(),
            texts == texts_view(items@),
            out@ == joined(texts.take(i as int), separator@),
        decreases items.len() - i,
    {
        out.append(separator);
        out.append(items[i]);
        proof {
            let longer = texts.take(i + 1);
            assert(longer.drop_last() =~= texts.take(i as int));
            assert(longer.last() == items@[i as int]@);
        }
        i += 1;
    }
    assert(texts.take(i as int) =~= texts);
    out
}

} // verus!
