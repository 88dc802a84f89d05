//! The two-level read model: a tenant's table of rows, assembled into
//! top-level comments (newest first) that carry their direct replies.

use vstd::prelude::*;
use crate::comment::{clone_opt, Comment};
use crate::fault::Fault;
use crate::text::{opt_view, same_text};

verus! {

/// One row of a tenant's comment table.
pub struct StoredRow {
    pub id: i64,
    pub author: Option<String>,
    pub email: Option<String>,
    pub text: String,
    pub timestamp: Option<i64>,
    pub content_id: String,
    pub parent: Option<i64>,
}

/// `r` is a top-level comment on `content_id`.
pub open spec fn is_top_of(r: StoredRow, content_id: Seq<char>) -> bool {
    r.parent is None && r.content_id@ == content_id
}

/// The top-level rows on `content_id`, the latest row of the table first.
pub open spec fn tops(rows: Seq<StoredRow>, content_id: Seq<char>) -> Seq<StoredRow>
    decreases rows.len(),
{
    if rows.len() == 0 {
        seq![]
    } else {
        let rest = tops(rows.drop_last(), content_id);
        if is_top_of(rows.last(), content_id) {
            seq![rows.last()] + rest
        } else {
            rest
        }
    }
}

/// The rows whose parent is `parent`, in table order.
pub open spec fn replies_to(rows: Seq<StoredRow>, parent: i64) -> Seq<StoredRow>
    decreases rows.len(),
{
    if rows.len() == 0 {
        seq![]
    } else {
        let rest = replies_to(rows.drop_last(), parent);
        if rows.last().parent == Some(parent) {
            rest.push(rows.last())
        } else {
            rest
        }
    }
}

/// No two rows of the table share an id.
pub open spec fn ids_unique(rows: Seq<StoredRow>) -> bool {
    forall|i: int, j: int|
        0 <= i < rows.len() && 0 <= j < rows.len() && rows[i].id == rows[j].id ==> i == j
}

/// No row of the table has id `id`.
pub open spec fn id_fresh(rows: Seq<StoredRow>, id: i64) -> bool {
    forall|i: int| 0 <= i < rows.len() ==> (#[trigger] rows[i]).id != id
}

/// `c` holds the fields of row `r`.
pub open spec fn holds_row(c: Comment, r: StoredRow) -> bool {
    &&& c.id == Some(r.id)
    &&& opt_view(c.author) == opt_view(r.author)
    &&& opt_view(c.email) == opt_view(r.email)
    &&& c.text@ == r.text@
    &&& c.timestamp == r.timestamp
    &&& c.content_id@ == r.content_id@
    &&& c.parent == r.parent
}

/// `c` holds row `r` and carries no replies.
pub open spec fn is_reply_entry(c: Comment, r: StoredRow) -> bool {
    holds_row(c, r) && c.replies@.len() == 0
}

/// `c` holds top-level row `r` with, in order, the replies to it in `rows`.
pub open spec fn is_thread_entry(c: Comment, r: StoredRow, rows: Seq<StoredRow>) -> bool {
    &&& holds_row(c, r)
    &&& c.replies@.len() == replies_to(rows, r.id).len()
    &&& forall|j: int|
        0 <= j < c.replies@.len() ==> is_reply_entry(
            #[trigger] c.replies@[j],
            replies_to(rows, r.id)[j],
        )
}

/// `out` is the threaded read of `content_id` over the table `rows`.
pub open spec fn is_thread_of(out: Seq<Comment>, rows: Seq<StoredRow>, content_id: Seq<char>) -> bool {
    &&& out.len() == tops(rows, content_id).len()
    &&& forall|i: int|
        0 <= i < out.len() ==> is_thread_entry(#[trigger] out[i], tops(rows, content_id)[i], rows)
}

/// Some top-level entry of a read has id `parent`.
pub open spec fn has_top_level(thread: Seq<Comment>, parent: i64) -> bool {
    exists|i: int|
        0 <= i < thread.len() && (#[trigger] thread[i]).id == Some(parent) && thread[i].parent is None
}

fn entry_of(r: &StoredRow, replies: Vec<Comment>) -> (c: Comment)
    ensures
        holds_row(c, *r),
        c.replies == replies,
{
    Comment {
        id: Some(r.id),
        author: clone_opt(&r.author),
        email: clone_opt(&r.email),
        text: r.text.clone(),
        timestamp: r.timestamp,
        content_id: r.content_id.clone(),
        parent: r.parent,
        replies,
    }
}

/// The direct replies to `parent`, in table order.
pub fn list_replies(rows: &Vec<StoredRow>, parent: i64) -> (r: Vec<Comment>)
    ensures
        r@.len() == replies_to(rows@, parent).len(),
        forall|j: int| 0 <= j < r@.len() ==> is_reply_entry(#[trigger] r@[j], replies_to(rows@, parent)[j]),
{
    let mut out: Vec<Comment> = Vec::new();
    let mut i: usize = 0;
    while i < rows.len()
        invariant
            i <= rows@.len(),
            out@.len() == replies_to(rows@.subrange(0, i as int), parent).len(),
            forall|j: int|
                0 <= j < out@.len() ==> is_reply_entry(
                    #[trigger] out@[j],
                    replies_to(rows@.subrange(0, i as int), parent)[j],
                ),
        decreases rows@.len() - i,
    {
        assert(rows@.subrange(0, i + 1).drop_last() =~= rows@.subrange(0, i as int));
        if rows[i].parent == Some(parent) {
            let c = entry_of(&rows[i], Vec::new());
            out.push(c);
        }
        i = i + 1;
    }
    assert(rows@.subrange(0, rows@.len() as int) =~= rows@);
    out
}

/// The threaded read of `content_id`: its top-level comments, the latest row
/// of the table first, each with its direct replies in table order.
pub fn get_threaded(rows: &Vec<StoredRow>, content_id: &str) -> (r: Vec<Comment>)
    ensures
        is_thread_of(r@, rows@, content_id@),
{
    let mut out: Vec<Comment> = Vec::new();
    let mut i: usize = 0;
    while i < rows.len()
        invariant
            i <= rows@.len(),
            out@.len() == tops(rows@.subrange(0, i as int), content_id@).len(),
            forall|k: int|
                0 <= k < out@.len() ==> is_thread_entry(
                    #[trigger] out@[k],
                    tops(rows@.subrange(0, i as int), content_id@)[k],
                    rows@,
                ),
        decreases rows@.len() - i,
    {
        let ghost before = out@;
        assert(rows@.subrange(0, i + 1).drop_last() =~= rows@.subrange(0, i as int));
        let row = &rows[i];
        if row.parent.is_none() && same_text(row.content_id.as_str(), content_id) {
            let replies = list_replies(rows, row.id);
            let c = entry_of(row, replies);
            out.insert(0, c);
            assert forall|k: int| 0 <= k < out@.len() implies is_thread_entry(
                #[trigger] out@[k],
                tops(rows@.subrange(0, i + 1), content_id@)[k],
                rows@,
            ) by {
                if k > 0 {
                    assert(out@[k] == before[k - 1]);
                }
            }
        }
        i = i + 1;
    }
    assert(rows@.subrange(0, rows@.len() as int) =~= rows@);
    out
}

/// Accepts `parent` only where the read holds it as a top-level comment.
pub fn check_parent(thread: &Vec<Comment>, parent: i64) -> (r: Result<(), Fault>)
    ensures
        r is Ok <==> has_top_level(thread@, parent),
        r is Err ==> r == Err::<(), Fault>(Fault::InvalidParent),
{
    let mut i: usize = 0;
    while i < thread.len()
        invariant
            i <= thread@.len(),
            forall|k: int|
                0 <= k < i ==> !((#[trigger] thread@[k]).id == Some(parent) && thread@[k].parent is None),
        decreases thread@.len() - i,
    {
        if thread[i].id == Some(parent) && thread[i].parent.is_none() {
            return Ok(());
        }
        i = i + 1;
    }
    Err(Fault::InvalidParent)
}

/// The parent rule of a submission: a top-level comment needs no check; a
/// reply's parent must be a top-level comment of the read `thread`.
pub fn check_comment_parent(comment: &Comment, thread: &Vec<Comment>) -> (r: Result<(), Fault>)
    ensures
        comment.parent is None ==> r == Ok::<(), Fault>(()),
        comment.parent matches Some(p) ==> (r is Ok <==> has_top_level(thread@, p)),
        r is Err ==> r == Err::<(), Fault>(Fault::InvalidParent),
{
    match comment.parent {
        Some(p) => check_parent(thread, p),
        None => Ok(()),
    }
}

/// The store's own guard before an insert: a comment with empty text is
/// refused as a failed write.
pub fn check_insert(c: &Comment) -> (r: Result<(), Fault>)
    ensures
        r is Ok <==> c.text@.len() > 0,
        r is Err ==> r == Err::<(), Fault>(Fault::WriteFailed),
{
    if c.text.unicode_len() == 0 {
        Err(Fault::WriteFailed)
    } else {
        Ok(())
    }
}

/// The table's invariant: ids are unique, and every reply's parent is a
/// top-level row of the same table.
pub open spec fn table_ok(rows: Seq<StoredRow>) -> bool {
    &&& ids_unique(rows)
    &&& forall|i: int|
        0 <= i < rows.len() && (#[trigger] rows[i]).parent is Some ==> exists|j: int|
            0 <= j < rows.len() && rows[i].parent == Some(#[trigger] rows[j].id) && rows[j].parent is None
}

proof fn lemma_tops_from_rows(rows: Seq<StoredRow>, content_id: Seq<char>)
    ensures
        forall|k: int|
            0 <= k < tops(rows, content_id).len() ==> {
                &&& is_top_of(#[trigger] tops(rows, content_id)[k], content_id)
                &&& exists|j: int| 0 <= j < rows.len() && rows[j] == tops(rows, content_id)[k]
            },
    decreases rows.len(),
{
    if rows.len() > 0 {
        let rest_rows = rows.drop_last();
        lemma_tops_from_rows(rest_rows, content_id);
        let t = tops(rows, content_id);
        let rest = tops(rest_rows, content_id);
        assert forall|k: int| 0 <= k < t.len() implies {
            &&& is_top_of(#[trigger] t[k], content_id)
            &&& exists|j: int| 0 <= j < rows.len() && rows[j] == t[k]
        } by {
            let n = rows.len() - 1;
            if is_top_of(rows.last(), content_id) && k == 0 {
                assert(rows[n] == t[k]);
            } else {
                let m = if is_top_of(rows.last(), content_id) { k - 1 } else { k };
                assert(t[k] == rest[m]);
                let j = choose|j: int| 0 <= j < rest_rows.len() && rest_rows[j] == rest[m];
                assert(rows[j] == t[k]);
            }
        }
    }
}

/// The order key of a row: its timestamp, a row without one coming before
/// every row with one.
pub open spec fn stamp(r: StoredRow) -> int {
    match r.timestamp {
        Some(t) => t as int,
        None => i64::MIN as int - 1,
    }
}

/// The rows are in ascending timestamp order.
pub open spec fn oldest_first(rows: Seq<StoredRow>) -> bool {
    forall|i: int, j: int| 0 <= i < j < rows.len() ==> stamp(#[trigger] rows[i]) <= stamp(#[trigger] rows[j])
}

/// Read from a table in ascending timestamp order, the top-level comments
/// come newest first.
pub proof fn lemma_read_newest_first(rows: Seq<StoredRow>, content_id: Seq<char>)
    requires
        oldest_first(rows),
    ensures
        forall|i: int, j: int|
            0 <= i < j < tops(rows, content_id).len() ==> stamp(#[trigger] tops(rows, content_id)[i])
                >= stamp(#[trigger] tops(rows, content_id)[j]),
    decreases rows.len(),
{
    if rows.len() > 0 {
        let rest_rows = rows.drop_last();
        let n = rows.len() - 1;
        assert(oldest_first(rest_rows)) by {
            assert forall|i: int, j: int| 0 <= i < j < rest_rows.len() implies stamp(
                #[trigger] rest_rows[i],
            ) <= stamp(#[trigger] rest_rows[j]) by {
                assert(rest_rows[i] == rows[i] && rest_rows[j] == rows[j]);
            }
        }
        lemma_read_newest_first(rest_rows, content_id);
        lemma_tops_from_rows(rest_rows, content_id);
        let t = tops(rows, content_id);
        let rest = tops(rest_rows, content_id);
        if is_top_of(rows.last(), content_id) {
            assert forall|i: int, j: int| 0 <= i < j < t.len() implies stamp(#[trigger] t[i]) >= stamp(
                #[trigger] t[j],
            ) by {
                assert(t[j] == rest[j - 1]);
                if i == 0 {
                    let k = choose|k: int| 0 <= k < rest_rows.len() && rest_rows[k] == rest[j - 1];
                    assert(rows[k] == t[j]);
                    assert(rows[n] == t[i]);
                } else {
                    assert(t[i] == rest[i - 1]);
                }
            }
        }
    }
}

proof fn lemma_replies_from_rows(rows: Seq<StoredRow>, parent: i64)
    ensures
        forall|k: int|
            0 <= k < replies_to(rows, parent).len() ==> {
                &&& (#[trigger] replies_to(rows, parent)[k]).parent == Some(parent)
                &&& exists|j: int| 0 <= j < rows.len() && rows[j] == replies_to(rows, parent)[k]
            },
    decreases rows.len(),
{
    if rows.len() > 0 {
        let rest_rows = rows.drop_last();
        lemma_replies_from_rows(rest_rows, parent);
        let t = replies_to(rows, parent);
        let rest = replies_to(rest_rows, parent);
        assert forall|k: int| 0 <= k < t.len() implies {
            &&& (#[trigger] t[k]).parent == Some(parent)
            &&& exists|j: int| 0 <= j < rows.len() && rows[j] == t[k]
        } by {
            let n = rows.len() - 1;
            if k < rest.len() {
                assert(t[k] == rest[k]);
                let j = choose|j: int| 0 <= j < rest_rows.len() && rest_rows[j] == rest[k];
                assert(rows[j] == t[k]);
            } else {
                assert(rows[n] == t[k]);
            }
        }
    }
}

proof fn lemma_tops_ids_distinct(rows: Seq<StoredRow>, content_id: Seq<char>)
    requires
        ids_unique(rows),
    ensures
        forall|i: int, k: int|
            0 <= i < tops(rows, content_id).len() && 0 <= k < tops(rows, content_id).len() && i != k
                ==> (#[trigger] tops(rows, content_id)[i]).id != (#[trigger] tops(rows, content_id)[k]).id,
    decreases rows.len(),
{
    if rows.len() > 0 {
        let rest_rows = rows.drop_last();
        let n = rows.len() - 1;
        assert(ids_unique(rest_rows)) by {
            assert forall|i: int, j: int|
                0 <= i < rest_rows.len() && 0 <= j < rest_rows.len() && rest_rows[i].id == rest_rows[j].id
                implies i == j by {
                assert(rest_rows[i] == rows[i] && rest_rows[j] == rows[j]);
            }
        }
        lemma_tops_ids_distinct(rest_rows, content_id);
        lemma_tops_from_rows(rest_rows, content_id);
        let t = tops(rows, content_id);
        let rest = tops(rest_rows, content_id);
        if is_top_of(rows.last(), content_id) {
            assert forall|i: int, k: int| 0 <= i < t.len() && 0 <= k < t.len() && i != k implies (
            #[trigger] t[i]).id != (#[trigger] t[k]).id by {
                if i > 0 && k > 0 {
                    assert(t[i] == rest[i - 1] && t[k] == rest[k - 1]);
                } else if i == 0 {
                    assert(t[k] == rest[k - 1]);
                    let j = choose|j: int| 0 <= j < rest_rows.len() && rest_rows[j] == rest[k - 1];
                    assert(rows[j] == t[k]);
                    assert(rows[n] == t[i]);
                } else {
                    assert(t[i] == rest[i - 1]);
                    let j = choose|j: int| 0 <= j < rest_rows.len() && rest_rows[j] == rest[i - 1];
                    assert(rows[j] == t[i]);
                    assert(rows[n] == t[k]);
                }
            }
        }
    }
}

proof fn lemma_push_other_parent(rows: Seq<StoredRow>, r: StoredRow, parent: i64)
    requires
        r.parent != Some(parent),
    ensures
        replies_to(rows.push(r), parent) == replies_to(rows, parent),
{
    assert(rows.push(r).drop_last() =~= rows);
}

proof fn lemma_push_keeps_table(rows: Seq<StoredRow>, r: StoredRow)
    requires
        table_ok(rows),
        id_fresh(rows, r.id),
        r.parent is None || exists|j: int|
            0 <= j < rows.len() && r.parent == Some(#[trigger] rows[j].id) && rows[j].parent is None,
    ensures
        table_ok(rows.push(r)),
{
    let s = rows.push(r);
    let n = rows.len() as int;
    assert forall|i: int, j: int|
        0 <= i < s.len() && 0 <= j < s.len() && s[i].id == s[j].id implies i == j by {
        if i < n && j < n {
            assert(s[i] == rows[i] && s[j] == rows[j]);
        } else if i < n {
            assert(s[i] == rows[i]);
        } else if j < n {
            assert(s[j] == rows[j]);
        }
    }
    assert forall|i: int| 0 <= i < s.len() && (#[trigger] s[i]).parent is Some implies exists|j: int|
        0 <= j < s.len() && s[i].parent == Some(#[trigger] s[j].id) && s[j].parent is None by {
        if i < n {
            assert(s[i] == rows[i]);
            let j = choose|j: int|
                0 <= j < rows.len() && rows[i].parent == Some(#[trigger] rows[j].id) && rows[j].parent is None;
            assert(s[j] == rows[j]);
        } else {
            let j = choose|j: int|
                0 <= j < rows.len() && r.parent == Some(#[trigger] rows[j].id) && rows[j].parent is None;
            assert(s[j] == rows[j]);
        }
    }
}

/// A top-level comment added to a table shows up in the next read of its
/// content as exactly one new entry, first, with no parent and no replies;
/// the entries read before follow unchanged.
pub proof fn lemma_read_after_top_level(
    rows: Seq<StoredRow>,
    r: StoredRow,
    content_id: Seq<char>,
    out: Seq<Comment>,
)
    requires
        table_ok(rows),
        is_top_of(r, content_id),
        id_fresh(rows, r.id),
        is_thread_of(out, rows.push(r), content_id),
    ensures
        table_ok(rows.push(r)),
        tops(rows.push(r), content_id) == seq![r] + tops(rows, content_id),
        out.len() == tops(rows, content_id).len() + 1,
        holds_row(out[0], r),
        out[0].parent is None,
        out[0].replies@.len() == 0,
        forall|i: int|
            1 <= i < out.len() ==> is_thread_entry(#[trigger] out[i], tops(rows, content_id)[i - 1], rows),
{
    let s = rows.push(r);
    assert(s.drop_last() =~= rows);
    lemma_push_keeps_table(rows, r);
    assert(replies_to(rows, r.id).len() == 0) by {
        lemma_replies_from_rows(rows, r.id);
        if replies_to(rows, r.id).len() > 0 {
            let x = replies_to(rows, r.id)[0];
            let j = choose|j: int| 0 <= j < rows.len() && rows[j] == x;
            let k = choose|k: int|
                0 <= k < rows.len() && rows[j].parent == Some(#[trigger] rows[k].id) && rows[k].parent is None;
            assert(rows[k].id == r.id);
        }
    }
    lemma_push_other_parent(rows, r, r.id);
    assert forall|i: int| 1 <= i < out.len() implies is_thread_entry(
        #[trigger] out[i],
        tops(rows, content_id)[i - 1],
        rows,
    ) by {
        let t = tops(s, content_id)[i];
        assert(t == tops(rows, content_id)[i - 1]);
        lemma_push_other_parent(rows, r, t.id);
        assert(is_thread_entry(out[i], t, s));
    }
}

/// A reply to a top-level comment on the same content shows up in the next
/// read nested under that comment, after the replies it already had, and not
/// at top level; every other entry reads as before.
pub proof fn lemma_read_after_reply(
    rows: Seq<StoredRow>,
    r: StoredRow,
    content_id: Seq<char>,
    p: int,
    out: Seq<Comment>,
)
    requires
        table_ok(rows),
        0 <= p < tops(rows, content_id).len(),
        r.parent == Some(tops(rows, content_id)[p].id),
        id_fresh(rows, r.id),
        is_thread_of(out, rows.push(r), content_id),
    ensures
        table_ok(rows.push(r)),
        tops(rows.push(r), content_id) == tops(rows, content_id),
        replies_to(rows.push(r), tops(rows, content_id)[p].id) == replies_to(
            rows,
            tops(rows, content_id)[p].id,
        ).push(r),
        out.len() == tops(rows, content_id).len(),
        forall|i: int| 0 <= i < out.len() ==> (#[trigger] out[i]).id != Some(r.id),
        out[p].replies@.len() == replies_to(rows, tops(rows, content_id)[p].id).len() + 1,
        is_reply_entry(out[p].replies@.last(), r),
        forall|i: int|
            0 <= i < out.len() && i != p ==> is_thread_entry(#[trigger] out[i], tops(rows, content_id)[i], rows),
{
    let s = rows.push(r);
    let pid = tops(rows, content_id)[p].id;
    assert(s.drop_last() =~= rows);
    lemma_tops_from_rows(rows, content_id);
    assert(exists|j: int|
        0 <= j < rows.len() && r.parent == Some(#[trigger] rows[j].id) && rows[j].parent is None) by {
        let j = choose|j: int| 0 <= j < rows.len() && rows[j] == tops(rows, content_id)[p];
        assert(r.parent == Some(rows[j].id) && rows[j].parent is None);
    }
    lemma_push_keeps_table(rows, r);
    lemma_tops_ids_distinct(rows, content_id);
    assert forall|i: int| 0 <= i < out.len() implies (#[trigger] out[i]).id != Some(r.id) by {
        let j = choose|j: int| 0 <= j < rows.len() && rows[j] == tops(rows, content_id)[i];
        assert(rows[j].id != r.id);
    }
    assert forall|i: int| 0 <= i < out.len() && i != p implies is_thread_entry(
        #[trigger] out[i],
        tops(rows, content_id)[i],
        rows,
    ) by {
        let t = tops(rows, content_id)[i];
        assert(t.id != pid);
        lemma_push_other_parent(rows, r, t.id);
        assert(is_thread_entry(out[i], t, s));
    }
    let n = replies_to(rows, pid).len();
    assert(is_reply_entry(out[p].replies@[n as int], replies_to(s, pid)[n as int]));
}

/// A reply whose parent is itself a reply is never found as a top-level
/// comment of any read, so the parent check refuses it whatever the content.
pub proof fn lemma_reply_to_reply_refused(
    rows: Seq<StoredRow>,
    x: int,
    content_id: Seq<char>,
    out: Seq<Comment>,
)
    requires
        ids_unique(rows),
        0 <= x < rows.len(),
        rows[x].parent is Some,
        is_thread_of(out, rows, content_id),
    ensures
        !has_top_level(out, rows[x].id),
{
    lemma_tops_from_rows(rows, content_id);
    if has_top_level(out, rows[x].id) {
        let i = choose|i: int|
            0 <= i < out.len() && (#[trigger] out[i]).id == Some(rows[x].id) && out[i].parent is None;
        let j = choose|j: int| 0 <= j < rows.len() && rows[j] == tops(rows, content_id)[i];
        assert(rows[j].id == rows[x].id);
    }
}

/// Two replies to the same top-level comment, written one after the other,
/// both stand in its reply list, each exactly once and in the order written.
pub proof fn lemma_two_replies_kept(rows: Seq<StoredRow>, r1: StoredRow, r2: StoredRow, p: int)
    requires
        table_ok(rows),
        0 <= p < rows.len(),
        rows[p].parent is None,
        r1.parent == Some(rows[p].id),
        r2.parent == Some(rows[p].id),
        id_fresh(rows, r1.id),
        id_fresh(rows, r2.id),
        r1.id != r2.id,
    ensures
        table_ok(rows.push(r1).push(r2)),
        replies_to(rows.push(r1).push(r2), rows[p].id) == replies_to(rows, rows[p].id) + seq![r1, r2],
        forall|j: int|
            0 <= j < replies_to(rows, rows[p].id).len() ==> {
                &&& (#[trigger] replies_to(rows, rows[p].id)[j]).id != r1.id
                &&& replies_to(rows, rows[p].id)[j].id != r2.id
            },
{
    let s1 = rows.push(r1);
    let s2 = s1.push(r2);
    let pid = rows[p].id;
    assert(s1.drop_last() =~= rows);
    assert(s2.drop_last() =~= s1);
    lemma_push_keeps_table(rows, r1);
    assert(s1[p] == rows[p]);
    assert(id_fresh(s1, r2.id));
    lemma_push_keeps_table(s1, r2);
    assert(replies_to(s1, pid) == replies_to(rows, pid).push(r1));
    assert(replies_to(s2, pid) == replies_to(s1, pid).push(r2));
    assert(replies_to(s2, pid) =~= replies_to(rows, pid) + seq![r1, r2]);
    lemma_replies_from_rows(rows, pid);
    assert forall|j: int| 0 <= j < replies_to(rows, pid).len() implies {
        &&& (#[trigger] replies_to(rows, pid)[j]).id != r1.id
        &&& replies_to(rows, pid)[j].id != r2.id
    } by {
        let k = choose|k: int| 0 <= k < rows.len() && rows[k] == replies_to(rows, pid)[j];
    }
}

} // verus!
