use soudan::comment::{gravatar, to_public_all, Comment};
use soudan::fault::Fault;
use soudan::thread::{check_comment_parent, check_insert, check_parent, get_threaded, list_replies, StoredRow};

fn row(id: i64, text: &str, ts: i64, content_id: &str, parent: Option<i64>) -> StoredRow {
    StoredRow {
        id,
        author: None,
        email: None,
        text: text.to_string(),
        timestamp: Some(ts),
        content_id: content_id.to_string(),
        parent,
    }
}

fn comment(text: &str, content_id: &str, parent: Option<i64>) -> Comment {
    Comment {
        id: None,
        author: None,
        email: None,
        text: text.to_string(),
        timestamp: None,
        content_id: content_id.to_string(),
        parent,
        replies: Vec::new(),
    }
}

#[test]
fn empty_table_reads_nothing() {
    let rows: Vec<StoredRow> = Vec::new();
    assert!(get_threaded(&rows, "post").is_empty());
}

#[test]
fn top_level_comments_newest_first() {
    let rows = vec![
        row(1, "first", 100, "post", None),
        row(2, "other page", 150, "elsewhere", None),
        row(3, "second", 200, "post", None),
    ];
    let out = get_threaded(&rows, "post");
    assert_eq!(out.len(), 2);
    assert_eq!(out[0].id, Some(3));
    assert_eq!(out[0].text, "second");
    assert_eq!(out[1].id, Some(1));
    assert!(out.iter().all(|c| c.parent.is_none()));
}

#[test]
fn new_top_level_comment_is_one_new_entry() {
    let mut rows = vec![row(1, "a", 100, "post", None), row(2, "b", 110, "post", Some(1))];
    let before = get_threaded(&rows, "post");
    rows.push(row(3, "c", 120, "post", None));
    let after = get_threaded(&rows, "post");
    assert_eq!(after.len(), before.len() + 1);
    assert_eq!(after[0].id, Some(3));
    assert_eq!(after[0].parent, None);
    assert!(after[0].replies.is_empty());
    assert_eq!(after[1].id, Some(1));
    assert_eq!(after[1].replies.len(), 1);
}

#[test]
fn reply_is_nested_under_its_parent() {
    let mut rows = vec![row(1, "a", 100, "post", None), row(2, "b", 110, "post", None)];
    rows.push(row(3, "reply", 120, "post", Some(1)));
    let out = get_threaded(&rows, "post");
    assert_eq!(out.len(), 2);
    assert!(out.iter().all(|c| c.id != Some(3)));
    assert_eq!(out[1].id, Some(1));
    assert_eq!(out[1].replies.len(), 1);
    assert_eq!(out[1].replies[0].id, Some(3));
    assert_eq!(out[1].replies[0].parent, Some(1));
    assert!(out[1].replies[0].replies.is_empty());
    assert!(out[0].replies.is_empty());
}

#[test]
fn two_replies_to_one_parent_both_kept_once() {
    let mut rows = vec![row(1, "a", 100, "post", None)];
    rows.push(row(2, "r1", 110, "post", Some(1)));
    rows.push(row(3, "r2", 111, "post", Some(1)));
    let out = get_threaded(&rows, "post");
    assert_eq!(out.len(), 1);
    let ids: Vec<Option<i64>> = out[0].replies.iter().map(|c| c.id).collect();
    assert_eq!(ids, vec![Some(2), Some(3)]);
}

#[test]
fn replies_listed_in_table_order() {
    let rows = vec![
        row(1, "a", 100, "post", None),
        row(2, "r1", 110, "post", Some(1)),
        row(3, "x", 111, "post", None),
        row(4, "r2", 112, "post", Some(1)),
    ];
    let replies = list_replies(&rows, 1);
    assert_eq!(replies.len(), 2);
    assert_eq!(replies[0].text, "r1");
    assert_eq!(replies[1].text, "r2");
    assert!(list_replies(&rows, 3).is_empty());
}

#[test]
fn parent_check_accepts_top_level() {
    let rows = vec![row(1, "a", 100, "post", None), row(2, "r", 110, "post", Some(1))];
    let thread = get_threaded(&rows, "post");
    assert_eq!(check_parent(&thread, 1), Ok(()));
}

#[test]
fn reply_to_reply_is_invalid_parent() {
    let rows = vec![row(1, "a", 100, "post", None), row(2, "r", 110, "post", Some(1))];
    let thread = get_threaded(&rows, "post");
    assert_eq!(check_parent(&thread, 2), Err(Fault::InvalidParent));
    let other = get_threaded(&rows, "elsewhere");
    assert_eq!(check_parent(&other, 2), Err(Fault::InvalidParent));
}

#[test]
fn missing_parent_is_invalid_parent() {
    let rows = vec![row(1, "a", 100, "post", None)];
    let thread = get_threaded(&rows, "post");
    assert_eq!(check_parent(&thread, 9), Err(Fault::InvalidParent));
}

#[test]
fn store_refuses_empty_text() {
    assert_eq!(check_insert(&comment("", "post", None)), Err(Fault::WriteFailed));
    assert_eq!(check_insert(&comment("hi", "post", None)), Ok(()));
}

#[test]
fn parent_rule_of_a_submission() {
    let rows = vec![row(1, "a", 100, "post", None), row(2, "r", 110, "post", Some(1))];
    let thread = get_threaded(&rows, "post");
    assert_eq!(check_comment_parent(&comment("top", "post", None), &Vec::new()), Ok(()));
    assert_eq!(check_comment_parent(&comment("re", "post", Some(1)), &thread), Ok(()));
    assert_eq!(check_comment_parent(&comment("re", "post", Some(2)), &thread), Err(Fault::InvalidParent));
}

#[test]
fn gravatar_is_lowercase_md5() {
    let g = gravatar(&Some("user@example.com".to_string()));
    assert_eq!(g, Some("b58996c504c5638798eb6b511e6f49af".to_string()));
    assert_eq!(gravatar(&None), None);
    let g = gravatar(&Some("Someone.Else@Example.org".to_string())).unwrap();
    assert_eq!(g.len(), 32);
    assert!(g.chars().all(|c| c.is_ascii_digit() || ('a'..='f').contains(&c)));
}

#[test]
fn gravatar_ignores_email_case() {
    let a = gravatar(&Some("USER@Example.COM".to_string()));
    let b = gravatar(&Some("user@example.com".to_string()));
    assert_eq!(a, b);
    assert_ne!(a, Some("USER@Example.COM".to_string()));
}

#[test]
fn public_form_hides_email_and_keeps_replies() {
    let mut top = row(1, "a", 100, "post", None);
    top.email = Some("user@example.com".to_string());
    top.author = Some("Ann".to_string());
    let rows = vec![top, row(2, "r", 110, "post", Some(1))];
    let out = to_public_all(&get_threaded(&rows, "post"));
    assert_eq!(out.len(), 1);
    assert_eq!(out[0].id, Some(1));
    assert_eq!(out[0].author, Some("Ann".to_string()));
    assert_eq!(out[0].gravatar, Some("b58996c504c5638798eb6b511e6f49af".to_string()));
    assert_eq!(out[0].text, "a");
    assert_eq!(out[0].timestamp, Some(100));
    assert_eq!(out[0].replies.len(), 1);
    assert_eq!(out[0].replies[0].id, Some(2));
    assert_eq!(out[0].replies[0].gravatar, None);
}
