//! What the answers of the wiki mean: the page that was fetched, a page of a listing,
//! and whether a rewritten page is to be saved. The calls themselves are made elsewhere.

use crate::error::RewriteError;
use crate::lists::strings_view;
use crate::text::str_eq;
use vstd::prelude::*;

verus! {

/// The number of a page.
#[derive(Clone, Copy, Debug, PartialEq, Eq, Structural)]
pub struct PageId(pub i64);

/// The number of a revision of a page.
#[derive(Clone, Copy, Debug, PartialEq, Eq, Structural)]
pub struct RevId(pub i64);

/// A page as it was fetched: its title, and the revision that its text belongs to.
#[derive(Debug)]
pub struct PageMeta {
    pub title: String,
    pub revid: RevId,
    pub pageid: PageId,
}

/// What the answer to a request for a page means, by the error code it carries, if any:
/// without a code the page is there, with the code for a missing title it is not, and
/// any other code is a failure.
pub open spec fn page_found(error_code: Option<Seq<char>>) -> Result<bool, RewriteError> {
    match error_code {
        None => Ok(true),
        Some(code) => if code == "missingtitle"@ {
            Ok(false)
        } else {
            Err(RewriteError::RemoteError)
        },
    }
}

/// The error code as a mathematical value.
pub open spec fn code_view(error_code: Option<&str>) -> Option<Seq<char>> {
    match error_code {
        Some(code) => Some(code@),
        None => None,
    }
}

/// Whether the page that was asked for is there.
pub fn page_response(error_code: Option<&str>) -> (r: Result<bool, RewriteError>)
    ensures
        r == page_found(code_view(error_code)),
{
    match error_code {
        None => Ok(true),
        Some(code) => if str_eq(code, "missingtitle") {
            Ok(false)
        } else {
            Err(RewriteError::RemoteError)
        },
    }
}

/// Takes one page of a listing: a failed request ends the listing with `RemoteError` and
/// leaves the titles as they are; else the titles of the page are added to those
/// gathered so far, and the result says where the listing goes on, if it does.
pub fn take_listing(
    pages: &mut Vec<String>,
    failed: bool,
    titles: Vec<String>,
    next: Option<String>,
) -> (r: Result<Option<String>, RewriteError>)
    ensures
        failed ==> r == Err::<Option<String>, RewriteError>(RewriteError::RemoteError)
            && final(pages)@ == old(pages)@,
        !failed ==> r == Ok::<Option<String>, RewriteError>(next) && strings_view(final(pages)@)
            == strings_view(old(pages)@) + strings_view(titles@),
{
    if failed {
        return Err(RewriteError::RemoteError);
    }
    let ghost before = pages@;
    let mut titles = titles;
    let ghost added = titles@;
    pages.append(&mut titles);
    assert(strings_view(pages@) =~= strings_view(before) + strings_view(added));
    Ok(next)
}

/// Whether a rewritten page is to be saved, and as a minor edit or not: `Ok(None)` where
/// the page has not changed or saving was not asked for; else the rules must allow
/// saving, give a comment, and say whether the edit is minor.
pub open spec fn submitted(
    changed: bool,
    apply_flag: bool,
    config_apply: bool,
    comment: Seq<char>,
    isminor: Option<bool>,
) -> Result<Option<bool>, RewriteError> {
    if !(changed && apply_flag) {
        Ok(None)
    } else if !config_apply {
        Err(RewriteError::ApplyNotAllowed)
    } else if comment.len() == 0 {
        Err(RewriteError::NoComment)
    } else {
        match isminor {
            Some(minor) => Ok(Some(minor)),
            None => Err(RewriteError::NoMinorFlag),
        }
    }
}

/// Whether a rewritten page is to be saved, and as a minor edit or not.
pub fn submission(
    changed: bool,
    apply_flag: bool,
    config_apply: bool,
    comment: &str,
    isminor: Option<bool>,
) -> (r: Result<Option<bool>, RewriteError>)
    ensures
        r == submitted(changed, apply_flag, config_apply, comment@, isminor),
{
    if !(changed && apply_flag) {
        Ok(None)
    } else if !config_apply {
        Err(RewriteError::ApplyNotAllowed)
    } else if comment.is_empty() {
        Err(RewriteError::NoComment)
    } else {
        match isminor {
            Some(minor) => Ok(Some(minor)),
            None => Err(RewriteError::NoMinorFlag),
        }
    }
}

} // verus!
