use wiki_rewriter::api::{page_response, submission, take_listing, PageId, PageMeta, RevId};
use wiki_rewriter::error::RewriteError;

#[test]
fn a_page_is_there_unless_the_answer_says_otherwise() {
    assert_eq!(page_response(None), Ok(true));
    assert_eq!(page_response(Some("missingtitle")), Ok(false));
    assert_eq!(page_response(Some("permissiondenied")), Err(RewriteError::RemoteError));
    assert_eq!(page_response(Some("")), Err(RewriteError::RemoteError));
    assert_eq!(page_response(Some("MissingTitle")), Err(RewriteError::RemoteError));
}

#[test]
fn a_listing_is_gathered_page_by_page() {
    let mut pages = vec!["A".to_string()];
    let next = take_listing(
        &mut pages,
        false,
        vec!["B".to_string(), "C".to_string()],
        Some("D".to_string()),
    );
    assert_eq!(next, Ok(Some("D".to_string())));
    assert_eq!(pages, vec!["A", "B", "C"]);
    assert_eq!(take_listing(&mut pages, false, vec!["D".to_string()], None), Ok(None));
    assert_eq!(pages, vec!["A", "B", "C", "D"]);
    assert_eq!(take_listing(&mut pages, false, vec![], None), Ok(None));
    assert_eq!(pages, vec!["A", "B", "C", "D"]);
}

#[test]
fn a_failed_request_ends_a_listing() {
    let mut pages = vec!["A".to_string()];
    let next = take_listing(&mut pages, true, vec!["B".to_string()], Some("C".to_string()));
    assert_eq!(next, Err(RewriteError::RemoteError));
    assert_eq!(pages, vec!["A"]);
}

#[test]
fn a_page_is_saved_where_it_has_changed_and_saving_was_asked_for() {
    assert_eq!(submission(true, true, true, "why", Some(true)), Ok(Some(true)));
    assert_eq!(submission(true, true, true, "why", Some(false)), Ok(Some(false)));
    for (changed, apply) in [(false, false), (false, true), (true, false)] {
        assert_eq!(submission(changed, apply, true, "why", Some(true)), Ok(None));
        assert_eq!(submission(changed, apply, false, "", None), Ok(None));
    }
}

#[test]
fn saving_needs_leave_a_comment_and_the_kind_of_edit() {
    assert_eq!(submission(true, true, false, "why", Some(true)), Err(RewriteError::ApplyNotAllowed));
    assert_eq!(submission(true, true, false, "", None), Err(RewriteError::ApplyNotAllowed));
    assert_eq!(submission(true, true, true, "", Some(true)), Err(RewriteError::NoComment));
    assert_eq!(submission(true, true, true, "", None), Err(RewriteError::NoComment));
    assert_eq!(submission(true, true, true, "why", None), Err(RewriteError::NoMinorFlag));
}

#[test]
fn a_page_carries_its_title_and_numbers() {
    let page = PageMeta { title: "GGST/Sol".to_string(), revid: RevId(7), pageid: PageId(3) };
    assert_eq!(page.title, "GGST/Sol");
    assert_eq!(page.revid, RevId(7));
    assert_eq!(page.pageid.0, 3);
}
