//! The write path: sanitizing and validating a submitted comment, then the
//! checks on origin and URL scope that come before the page is fetched, and
//! the checks after it.

use vstd::prelude::*;
use crate::comment::Comment;
use crate::fault::Fault;
use crate::page::{check_page, PageData};
use crate::tenant::{in_scope_of, TenantRegistry};
use crate::text::{opt_view, replace_all, replace_text};

verus! {

/// What the sanitizer, with its default rules, makes of `s`; `None` where it
/// fails.
pub uninterp spec fn sanitized_of(s: Seq<char>) -> Option<Seq<char>>;

/// Whether the email validator accepts `s`.
pub uninterp spec fn valid_email_of(s: Seq<char>) -> bool;

/// Relies on `sanitize_html::sanitize_str` with the `DEFAULT` rules: the
/// result depends on the input alone; its error becomes `None`.
#[verifier::external_body]
fn sanitize(s: &str) -> (r: Option<String>)
    ensures
        opt_view(r) == sanitized_of(s@),
{
    match sanitize_html::sanitize_str(&sanitize_html::rules::predefined::DEFAULT, s) {
        Ok(t) => Some(t),
        Err(_) => None,
    }
}

/// Relies on `validator::ValidateEmail::validate_email` for `&str`: it
/// refuses an empty string and one without `@`.
#[verifier::external_body]
fn email_is_valid(s: &str) -> (r: bool)
    ensures
        r == valid_email_of(s@),
        s@.len() == 0 ==> !r,
        !s@.contains('@') ==> !r,
{
    validator::ValidateEmail::validate_email(&s)
}

/// The stored text made of submitted text `t`: sanitized, with the escaped
/// `>` of quote markup turned back into `>`.
pub open spec fn clean_text(t: Seq<char>) -> Option<Seq<char>> {
    match sanitized_of(t) {
        Some(x) => Some(replace_all(x, "&gt;"@, ">"@)),
        None => None,
    }
}

/// The stored author made of a submitted author.
pub open spec fn clean_author(a: Option<String>) -> Option<Seq<char>> {
    match a {
        Some(s) => sanitized_of(s@),
        None => None,
    }
}

/// The sanitizer succeeds on the text and, where there is one, the author.
pub open spec fn sanitizes(c: Comment) -> bool {
    &&& clean_text(c.text@) is Some
    &&& (c.author is Some ==> clean_author(c.author) is Some)
}

/// `d` is `c` with its text and author sanitized and everything else kept.
pub open spec fn is_sanitized_form(d: Comment, c: Comment) -> bool {
    &&& clean_text(c.text@) == Some(d.text@)
    &&& opt_view(d.author) == clean_author(c.author)
    &&& d.id == c.id
    &&& opt_view(d.email) == opt_view(c.email)
    &&& d.timestamp == c.timestamp
    &&& d.content_id@ == c.content_id@
    &&& d.parent == c.parent
    &&& d.replies == c.replies
}

/// The field rules: the text is not empty and an email, if given, is valid.
pub open spec fn fields_valid(c: Comment) -> bool {
    &&& c.text@.len() >= 1
    &&& match c.email {
        Some(e) => valid_email_of(e@),
        None => true,
    }
}

/// The field rules, applied to the sanitized form of `c`.
pub open spec fn valid_once_clean(c: Comment) -> bool {
    &&& match clean_text(c.text@) {
        Some(t) => t.len() >= 1,
        None => false,
    }
    &&& match c.email {
        Some(e) => valid_email_of(e@),
        None => true,
    }
}

/// The comment with its text and author sanitized.
pub fn sanitize_comment(comment: Comment) -> (r: Result<Comment, Fault>)
    ensures
        r is Ok <==> sanitizes(comment),
        match r {
            Ok(d) => is_sanitized_form(d, comment),
            Err(e) => e == Fault::SanitizeFailed,
        },
{
    let ghost c0 = comment;
    proof {
        reveal_strlit("&gt;");
    }
    let text = match sanitize(comment.text.as_str()) {
        Some(t) => replace_text(t.as_str(), "&gt;", ">"),
        None => return Err(Fault::SanitizeFailed),
    };
    let author = match &comment.author {
        Some(a) => match sanitize(a.as_str()) {
            Some(s) => Some(s),
            None => return Err(Fault::SanitizeFailed),
        },
        None => None,
    };
    let Comment { id, author: _, email, text: _, timestamp, content_id, parent, replies } = comment;
    let d = Comment { id, author, email, text, timestamp, content_id, parent, replies };
    assert(is_sanitized_form(d, c0));
    Ok(d)
}

/// Whether the comment's fields meet the field rules.
pub fn validate(c: &Comment) -> (r: bool)
    ensures
        r == fields_valid(*c),
{
    if c.text.unicode_len() == 0 {
        return false;
    }
    match &c.email {
        Some(e) => email_is_valid(e.as_str()),
        None => true,
    }
}

/// The checks on a submission before its page is fetched, in order:
/// sanitizing, the field rules, the origin (present and naming a tenant),
/// and the URL scope. On success, the comment to store.
pub fn check_submission(
    registry: &TenantRegistry,
    origin: Option<&str>,
    url: &str,
    comment: Comment,
) -> (r: Result<Comment, Fault>)
    ensures
        !sanitizes(comment) ==> r == Err::<Comment, Fault>(Fault::SanitizeFailed),
        sanitizes(comment) && !valid_once_clean(comment) ==> r == Err::<Comment, Fault>(
            Fault::InvalidField,
        ),
        sanitizes(comment) && valid_once_clean(comment) && origin is None ==> r == Err::<
            Comment,
            Fault,
        >(Fault::BadOrigin),
        sanitizes(comment) && valid_once_clean(comment) && origin is Some && !registry@.contains(
            origin->Some_0@,
        ) ==> r == Err::<Comment, Fault>(Fault::BadOrigin),
        sanitizes(comment) && valid_once_clean(comment) && origin is Some && registry@.contains(
            origin->Some_0@,
        ) ==> match r {
            Ok(d) => in_scope_of(registry@, origin->Some_0@, url@) && is_sanitized_form(d, comment),
            Err(e) => !in_scope_of(registry@, origin->Some_0@, url@) && e == Fault::OutOfScope,
        },
{
    let d = match sanitize_comment(comment) {
        Ok(d) => d,
        Err(e) => return Err(e),
    };
    if !validate(&d) {
        return Err(Fault::InvalidField);
    }
    let o = match origin {
        Some(o) => o,
        None => return Err(Fault::BadOrigin),
    };
    match registry.resolve(Some(o)) {
        Ok(_) => {},
        Err(e) => return Err(e),
    }
    if !registry.in_scope(o, url) {
        return Err(Fault::OutOfScope);
    }
    Ok(d)
}

/// The checks after the page fetch: the page verdict, then the tenant that
/// `origin` names. On success, the index of the tenant's store.
pub fn check_page_and_tenant(
    registry: &TenantRegistry,
    origin: &str,
    fetched: &Result<Option<PageData>, ()>,
    content_id: &str,
) -> (r: Result<usize, Fault>)
    ensures
        match fetched {
            Err(_) => r == Err::<usize, Fault>(Fault::FetchFailed),
            Ok(None) => r == Err::<usize, Fault>(Fault::InvalidUrl),
            Ok(Some(p)) => if p.content_id@ != content_id@ {
                r == Err::<usize, Fault>(Fault::ContentMismatch)
            } else {
                match r {
                    Ok(i) => i < registry@.len() && registry@[i as int] == origin@,
                    Err(e) => e == Fault::BadOrigin && !registry@.contains(origin@),
                }
            },
        },
{
    match check_page(fetched, content_id) {
        Ok(()) => {},
        Err(e) => return Err(e),
    }
    registry.resolve(Some(origin))
}

} // verus!
