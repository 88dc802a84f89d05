use soudan::comment::Comment;
use soudan::fault::Fault;
use soudan::page::PageData;
use soudan::submit::{check_page_and_tenant, check_submission, sanitize_comment, validate};
use soudan::tenant::TenantRegistry;

fn registry() -> TenantRegistry {
    TenantRegistry::new(vec!["https://blog.example".to_string(), "https://shop.example".to_string()]).unwrap()
}

fn comment(text: &str, email: Option<&str>) -> Comment {
    Comment {
        id: None,
        author: Some("Ann".to_string()),
        email: email.map(|e| e.to_string()),
        text: text.to_string(),
        timestamp: None,
        content_id: "post".to_string(),
        parent: None,
        replies: Vec::new(),
    }
}

#[test]
fn valid_submission_passes_first_checks() {
    let reg = registry();
    let r = check_submission(&reg, Some("https://blog.example"), "https://blog.example/p/1", comment("Hi there", Some("a@b.com")));
    let c = r.unwrap();
    assert_eq!(c.text, "Hi there");
    assert_eq!(c.author, Some("Ann".to_string()));
    assert_eq!(c.email, Some("a@b.com".to_string()));
    assert_eq!(c.content_id, "post");
}

#[test]
fn script_markup_is_removed() {
    let c = sanitize_comment(comment("<script>alert(1)</script>Hello", None)).unwrap();
    assert!(!c.text.contains("<script"));
    assert!(!c.text.contains("</script>"));
    assert!(c.text.contains("Hello"));
}

#[test]
fn quote_marker_survives_sanitizing() {
    let c = sanitize_comment(comment("> quoted", None)).unwrap();
    assert_eq!(c.text, "> quoted");
}

#[test]
fn author_is_sanitized() {
    let mut raw = comment("text", None);
    raw.author = Some("<script>x</script>Bob".to_string());
    let c = sanitize_comment(raw).unwrap();
    let author = c.author.unwrap();
    assert!(!author.contains("<script"));
    assert!(author.contains("Bob"));
}

#[test]
fn empty_text_is_invalid_field() {
    let reg = registry();
    let r = check_submission(&reg, Some("https://blog.example"), "https://blog.example/p", comment("", None));
    assert_eq!(r.err(), Some(Fault::InvalidField));
    let r = check_submission(&reg, Some("https://blog.example"), "https://blog.example/p", comment("<script>x</script>", None));
    assert_eq!(r.err(), Some(Fault::InvalidField));
}

#[test]
fn bad_email_is_invalid_field() {
    let reg = registry();
    let r = check_submission(&reg, Some("https://blog.example"), "https://blog.example/p", comment("hi", Some("not-an-email")));
    assert_eq!(r.err(), Some(Fault::InvalidField));
    assert!(!validate(&comment("hi", Some(""))));
    assert!(validate(&comment("hi", Some("user@example.com"))));
    assert!(validate(&comment("hi", None)));
}

#[test]
fn write_without_origin_is_bad_origin() {
    let reg = registry();
    let r = check_submission(&reg, None, "https://blog.example/p", comment("hi", None));
    assert_eq!(r.err(), Some(Fault::BadOrigin));
}

#[test]
fn url_outside_tenants_is_out_of_scope() {
    let reg = registry();
    let r = check_submission(&reg, Some("https://blog.example"), "http://169.254.169.254/latest", comment("hi", None));
    assert_eq!(r.err(), Some(Fault::OutOfScope));
    let r = check_submission(&reg, Some("https://blog.example"), "https://shop.example/item", comment("hi", None));
    assert_eq!(r.err(), Some(Fault::OutOfScope));
}

#[test]
fn after_fetch_checks() {
    let reg = registry();
    let page: Result<Option<PageData>, ()> = Ok(Some(PageData { content_id: "post".to_string() }));
    assert_eq!(check_page_and_tenant(&reg, "https://shop.example", &page, "post"), Ok(1));
    assert_eq!(check_page_and_tenant(&reg, "https://shop.example", &page, "else"), Err(Fault::ContentMismatch));
    assert_eq!(check_page_and_tenant(&reg, "https://shop", &page, "post"), Err(Fault::BadOrigin));
    assert_eq!(check_page_and_tenant(&reg, "https://shop.example", &Ok(None), "post"), Err(Fault::InvalidUrl));
    assert_eq!(check_page_and_tenant(&reg, "https://shop.example", &Err(()), "post"), Err(Fault::FetchFailed));
}

#[test]
fn write_with_unknown_origin_is_bad_origin() {
    let reg = registry();
    let r = check_submission(&reg, Some("https://evil.example"), "https://blog.example/p", comment("hi", None));
    assert_eq!(r.err(), Some(Fault::BadOrigin));
    let r = check_submission(&reg, Some("https://shop"), "https://shop.example/item", comment("hi", None));
    assert_eq!(r.err(), Some(Fault::BadOrigin));
}
