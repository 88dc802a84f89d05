//! Comments as submitted and stored, and the form in which readers see them.

use vstd::prelude::*;
use crate::text::opt_view;

verus! {

/// A unit of reader feedback.
///
/// `id` and `timestamp` (epoch seconds) are set by the store; `parent` is
/// `None` for a top-level comment and the id of a top-level comment for a
/// reply; `replies` is filled only on top-level comments of a read.
pub struct Comment {
    pub id: Option<i64>,
    pub author: Option<String>,
    pub email: Option<String>,
    pub text: String,
    pub timestamp: Option<i64>,
    pub content_id: String,
    pub parent: Option<i64>,
    pub replies: Vec<Comment>,
}

/// A comment as readers see it: no content identifier, no parent, and the
/// email only as its digest.
pub struct PublicComment {
    pub id: Option<i64>,
    pub author: Option<String>,
    pub gravatar: Option<String>,
    pub text: String,
    pub timestamp: Option<i64>,
    pub replies: Vec<PublicComment>,
}

/// What `str::to_lowercase` returns for `s`.
pub uninterp spec fn lower_of(s: Seq<char>) -> Seq<char>;

/// The lowercase hex MD5 digest of the UTF-8 encoding of `s`.
pub uninterp spec fn md5_hex_of(s: Seq<char>) -> Seq<char>;

/// Relies on `str::to_lowercase`: the result depends on the characters alone.
#[verifier::external_body]
fn lowercase(s: &str) -> (r: String)
    ensures
        r@ == lower_of(s@),
{
    s.to_lowercase()
}

/// A lowercase hexadecimal digit.
pub open spec fn is_lower_hex(c: char) -> bool {
    ('0' <= c && c <= '9') || ('a' <= c && c <= 'f')
}

/// Relies on `md5::compute` and the `LowerHex` impl of `md5::Digest`: two
/// lowercase hex digits (`{:02x}`) for each of the sixteen digest bytes.
#[verifier::external_body]
fn md5_hex(s: &str) -> (r: String)
    ensures
        r@ == md5_hex_of(s@),
        r@.len() == 32,
        forall|i: int| 0 <= i < r@.len() ==> is_lower_hex(#[trigger] r@[i]),
{
    format!("{:x}", md5::compute(s.as_bytes()))
}

/// The avatar key of an email: the digest of its lowercase form.
pub open spec fn gravatar_of(email: Option<String>) -> Option<Seq<char>> {
    match email {
        Some(e) => Some(md5_hex_of(lower_of(e@))),
        None => None,
    }
}

/// A copy of an optional string.
pub fn clone_opt(o: &Option<String>) -> (r: Option<String>)
    ensures
        opt_view(r) == opt_view(*o),
{
    match o {
        Some(s) => Some(s.clone()),
        None => None,
    }
}

/// The avatar key of an optional email: 32 lowercase hex digits, which
/// cannot hold the address itself.
pub fn gravatar(email: &Option<String>) -> (r: Option<String>)
    ensures
        opt_view(r) == gravatar_of(*email),
        r matches Some(g) ==> g@.len() == 32 && forall|i: int|
            0 <= i < g@.len() ==> is_lower_hex(#[trigger] g@[i]),
{
    match email {
        Some(e) => {
            let lower = lowercase(e.as_str());
            Some(md5_hex(lower.as_str()))
        },
        None => None,
    }
}

/// Emails that agree once lowercased have the same avatar key, so the key
/// ignores the case in which the address was typed.
pub proof fn lemma_gravatar_ignores_case(e1: String, e2: String)
    requires
        lower_of(e1@) == lower_of(e2@),
    ensures
        gravatar_of(Some(e1)) == gravatar_of(Some(e2)),
{
}

/// `p` shows the fields of `c` that readers may see.
pub open spec fn shows_fields(p: PublicComment, c: Comment) -> bool {
    &&& p.id == c.id
    &&& opt_view(p.author) == opt_view(c.author)
    &&& opt_view(p.gravatar) == gravatar_of(c.email)
    &&& p.text@ == c.text@
    &&& p.timestamp == c.timestamp
}

/// `p` shows `c` and, one level down, each of its replies without further
/// nesting.
pub open spec fn shows(p: PublicComment, c: Comment) -> bool {
    &&& shows_fields(p, c)
    &&& p.replies@.len() == c.replies@.len()
    &&& forall|j: int|
        0 <= j < p.replies@.len() ==> {
            &&& #[trigger] shows_fields(p.replies@[j], c.replies@[j])
            &&& p.replies@[j].replies@.len() == 0
        }
}

fn public_fields(c: &Comment) -> (r: PublicComment)
    ensures
        shows_fields(r, *c),
        r.replies@.len() == 0,
{
    PublicComment {
        id: c.id,
        author: clone_opt(&c.author),
        gravatar: gravatar(&c.email),
        text: c.text.clone(),
        timestamp: c.timestamp,
        replies: Vec::new(),
    }
}

impl Comment {
    /// The comment as a reader sees it, with its direct replies.
    pub fn to_public(&self) -> (r: PublicComment)
        ensures
            shows(r, *self),
    {
        let mut out = public_fields(self);
        let mut i: usize = 0;
        while i < self.replies.len()
            invariant
                i <= self.replies@.len(),
                shows_fields(out, *self),
                out.replies@.len() == i,
                forall|j: int|
                    0 <= j < i ==> {
                        &&& #[trigger] shows_fields(out.replies@[j], self.replies@[j])
                        &&& out.replies@[j].replies@.len() == 0
                    },
            decreases self.replies@.len() - i,
        {
            let p = public_fields(&self.replies[i]);
            out.replies.push(p);
            i = i + 1;
        }
        out
    }
}

/// The public form of each comment of a read, in order.
pub fn to_public_all(comments: &Vec<Comment>) -> (r: Vec<PublicComment>)
    ensures
        r@.len() == comments@.len(),
        forall|i: int| 0 <= i < r@.len() ==> shows(#[trigger] r@[i], comments@[i]),
{
    let mut out: Vec<PublicComment> = Vec::new();
    let mut i: usize = 0;
    while i < comments.len()
        invariant
            i <= comments@.len(),
            out@.len() == i,
            forall|k: int| 0 <= k < i ==> shows(#[trigger] out@[k], comments@[k]),
        decreases comments@.len() - i,
    {
        out.push(comments[i].to_public());
        i = i + 1;
    }
    out
}

} // verus!
