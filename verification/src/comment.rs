//! Comments: who may comment, edit, delete and applaud, and how a thread is listed.

use crate::error::ErrorKind;
use crate::text::str_eq;
use vstd::prelude::*;
use vstd::multiset::Multiset;
use vstd::seq_lib::to_multiset_insert;

verus! {

broadcast use {
    vstd::seq_lib::group_to_multiset_ensures,
    vstd::multiset::group_multiset_axioms,
    vstd::multiset::lemma_multiset_empty_len,
};

/// A comment as the listing reads it; times are Unix seconds.
pub struct CommentData {
    pub id: String,
    pub article_id: String,
    pub author_id: String,
    pub parent_id: Option<String>,
    pub content: String,
    pub created_at: i64,
}

/// A comment with what a reader sees of its author, and its replies.
pub struct CommentWithAuthor {
    pub comment: CommentData,
    pub author_name: String,
    pub author_username: String,
    pub author_avatar: Option<String>,
    pub user_has_clapped: bool,
    pub replies: Vec<CommentWithAuthor>,
}

/// Why a comment operation was refused.
#[derive(Clone, Copy, Debug, PartialEq, Eq, Structural)]
pub enum CommentError {
    /// The comment does not exist or was deleted.
    CommentNotFound,
    /// The parent comment does not exist.
    ParentNotFound,
    /// The article is not published.
    ArticleNotPublished,
    /// Only the comment's author may do this.
    NotAuthor,
    /// The reader already applauded the comment.
    AlreadyClapped,
}

impl CommentError {
    /// The category under which the refusal is reported.
    pub open spec fn spec_kind(self) -> ErrorKind {
        match self {
            CommentError::CommentNotFound => ErrorKind::NotFound,
            CommentError::ParentNotFound => ErrorKind::NotFound,
            CommentError::ArticleNotPublished => ErrorKind::Forbidden,
            CommentError::NotAuthor => ErrorKind::Forbidden,
            CommentError::AlreadyClapped => ErrorKind::Conflict,
        }
    }

    /// The category under which the refusal is reported.
    pub fn kind(&self) -> (k: ErrorKind)
        ensures
            k == self.spec_kind(),
    {
        match self {
            CommentError::CommentNotFound => ErrorKind::NotFound,
            CommentError::ParentNotFound => ErrorKind::NotFound,
            CommentError::ArticleNotPublished => ErrorKind::Forbidden,
            CommentError::NotAuthor => ErrorKind::Forbidden,
            CommentError::AlreadyClapped => ErrorKind::Conflict,
        }
    }
}

/// Comment rules.
pub struct CommentService {}

/// Whether the comment `c` is the last one with its id among `c` and `rest` after it.
pub open spec fn spec_last_of_its_id(c: CommentWithAuthor, rest: Seq<CommentWithAuthor>) -> bool {
    forall|j: int| 0 <= j < rest.len() ==> (#[trigger] rest[j]).comment.id@ != c.comment.id@
}

/// The top-level comments of a listing, one per id (a later comment with the same id
/// replaces an earlier one), in listing order.
pub open spec fn spec_root_comments(s: Seq<CommentWithAuthor>) -> Seq<CommentWithAuthor>
    decreases s.len(),
{
    if s.len() == 0 {
        Seq::empty()
    } else {
        let rest = spec_root_comments(s.drop_first());
        if s[0].comment.parent_id is None && spec_last_of_its_id(s[0], s.drop_first()) {
            seq![s[0]] + rest
        } else {
            rest
        }
    }
}

/// Whether comments are ordered newest first.
pub open spec fn spec_newest_first(s: Seq<CommentWithAuthor>) -> bool {
    forall|a: int, b: int| 0 <= a < b < s.len() ==> s[a].comment.created_at >= s[b].comment.created_at
}

/// Whether no two comments share an id.
pub open spec fn spec_distinct_ids(s: Seq<CommentWithAuthor>) -> bool {
    forall|a: int, b: int| 0 <= a < b < s.len() ==> s[a].comment.id@ != s[b].comment.id@
}

/// The replies of a listing, one per id (a later comment with the same id replaces an
/// earlier one), in listing order.
pub open spec fn spec_reply_comments(s: Seq<CommentWithAuthor>) -> Seq<CommentWithAuthor>
    decreases s.len(),
{
    if s.len() == 0 {
        Seq::empty()
    } else {
        let rest = spec_reply_comments(s.drop_first());
        if s[0].comment.parent_id is Some && spec_last_of_its_id(s[0], s.drop_first()) {
            seq![s[0]] + rest
        } else {
            rest
        }
    }
}

/// Whether `c` answers the comment whose id is `id`.
pub open spec fn spec_replies_to(c: CommentWithAuthor, id: Seq<char>) -> bool {
    match c.comment.parent_id {
        Some(p) => p@ == id,
        None => false,
    }
}

/// The replies of a listing that answer the comment whose id is `id`, one per id.
pub open spec fn spec_replies_of(s: Seq<CommentWithAuthor>, id: Seq<char>) -> Multiset<CommentWithAuthor> {
    spec_reply_comments(s).to_multiset().filter(|c: CommentWithAuthor| spec_replies_to(c, id))
}

/// What a listed comment shows besides its replies.
pub open spec fn spec_head(c: CommentWithAuthor) -> (CommentData, String, String, Option<String>, bool) {
    (c.comment, c.author_name, c.author_username, c.author_avatar, c.user_has_clapped)
}

impl CommentService {
    /// The checks of a new comment: the article must be published, and a parent
    /// comment, when one is named, must exist. Gives whether the comment is the article
    /// author's own response.
    pub fn check_new_comment(
        article_published: bool,
        article_author_id: &str,
        user_id: &str,
        parent_requested: bool,
        parent_exists: bool,
    ) -> (r: Result<bool, CommentError>)
        ensures
            !article_published ==> r == Err::<bool, CommentError>(CommentError::ArticleNotPublished),
            article_published && parent_requested && !parent_exists ==> r == Err::<bool, CommentError>(
                CommentError::ParentNotFound,
            ),
            article_published && (!parent_requested || parent_exists) ==> r == Ok::<bool, CommentError>(
                article_author_id@ == user_id@,
            ),
    {
        if !article_published {
            return Err(CommentError::ArticleNotPublished);
        }
        if parent_requested && !parent_exists {
            return Err(CommentError::ParentNotFound);
        }
        Ok(str_eq(article_author_id, user_id))
    }

    /// The checks of editing or deleting a comment: it must exist, not be deleted, and
    /// belong to the user.
    pub fn check_comment_owner(found: bool, is_deleted: bool, author_id: &str, user_id: &str) -> (r: Result<
        (),
        CommentError,
    >)
        ensures
            (!found || is_deleted) ==> r == Err::<(), CommentError>(CommentError::CommentNotFound),
            found && !is_deleted && author_id@ != user_id@ ==> r == Err::<(), CommentError>(CommentError::NotAuthor),
            found && !is_deleted && author_id@ == user_id@ ==> r is Ok,
    {
        if !found || is_deleted {
            return Err(CommentError::CommentNotFound);
        }
        if !str_eq(author_id, user_id) {
            return Err(CommentError::NotAuthor);
        }
        Ok(())
    }

    /// The checks of applauding a comment: it must exist, not be deleted, and not be
    /// applauded by the user already.
    pub fn check_comment_clap(found: bool, is_deleted: bool, already_clapped: bool) -> (r: Result<(), CommentError>)
        ensures
            (!found || is_deleted) ==> r == Err::<(), CommentError>(CommentError::CommentNotFound),
            found && !is_deleted && already_clapped ==> r == Err::<(), CommentError>(CommentError::AlreadyClapped),
            found && !is_deleted && !already_clapped ==> r is Ok,
    {
        if !found || is_deleted {
            return Err(CommentError::CommentNotFound);
        }
        if already_clapped {
            return Err(CommentError::AlreadyClapped);
        }
        Ok(())
    }

    /// Lists a comment thread: the top-level comments, one per id (a later comment with
    /// the same id replaces an earlier one), newest first; each carries, in its `replies`,
    /// the comments (one per id) that answer it directly. Replies are listed one level
    /// deep: a reply keeps the `replies` it was given.
    pub fn build_comment_tree(comments: Vec<CommentWithAuthor>) -> (roots: Vec<CommentWithAuthor>)
        ensures
            roots@.map_values(|c: CommentWithAuthor| spec_head(c)).to_multiset() == spec_root_comments(
                comments@,
            ).map_values(|c: CommentWithAuthor| spec_head(c)).to_multiset(),
            spec_newest_first(roots@),
            forall|i: int|
                0 <= i < roots@.len() ==> (#[trigger] roots@[i]).replies@.to_multiset() == spec_replies_of(
                    comments@,
                    roots@[i].comment.id@,
                ),
    {
        let (sorted, pending) = Self::split_thread(comments);
        let ghost all_sorted = sorted@;
        let ghost pool = pending@.to_multiset();
        let roots = Self::attach_replies(sorted, pending);
        proof {
            assert(roots@.map_values(|c: CommentWithAuthor| spec_head(c)) =~= all_sorted.map_values(
                |c: CommentWithAuthor| spec_head(c),
            ));
            lemma_map_values_to_multiset(all_sorted, spec_root_comments(comments@), |c: CommentWithAuthor| spec_head(c));
        }
        roots
    }

    /// Sorts a listing into its top-level comments, one per id and newest first, and its
    /// replies, one per id.
    fn split_thread(comments: Vec<CommentWithAuthor>) -> (r: (Vec<CommentWithAuthor>, Vec<CommentWithAuthor>))
        ensures
            r.0@.to_multiset() == spec_root_comments(comments@).to_multiset(),
            spec_newest_first(r.0@),
            spec_distinct_ids(r.0@),
            r.1@.to_multiset() == spec_reply_comments(comments@).to_multiset(),
    {
        let mut out: Vec<CommentWithAuthor> = Vec::new();
        let mut pending: Vec<CommentWithAuthor> = Vec::new();
        let mut items = comments;
        let ghost all = items@;
        let ghost n = all.len();
        let mut seen: Vec<String> = Vec::new();
        assert(all.skip(n as int) =~= Seq::<CommentWithAuthor>::empty());
        while items.len() > 0
            invariant
                n == all.len(),
                items@ == all.take(items@.len() as int),
                seen@.len() == n - items@.len(),
                forall|t: int| 0 <= t < seen@.len() ==> #[trigger] seen@[t]@ == all[n - 1 - t].comment.id@,
                out@.to_multiset() == spec_root_comments(all.skip(items@.len() as int)).to_multiset(),
                spec_newest_first(out@),
                spec_distinct_ids(out@),
                pending@.to_multiset() == spec_reply_comments(all.skip(items@.len() as int)).to_multiset(),
            decreases items.len(),
        {
            let ghost i = items@.len() - 1;
            let x = items.pop().unwrap();
            assert(x == all[i]);
            assert(items@ =~= all.take(i));
            assert(all.skip(i).drop_first() =~= all.skip(i + 1));
            assert(all.skip(i)[0] == all[i]);
            let mut unique = true;
            let mut t: usize = 0;
            while t < seen.len()
                invariant
                    t <= seen@.len(),
                    unique == (forall|u: int| 0 <= u < t ==> (#[trigger] seen@[u])@ != x.comment.id@),
                decreases seen.len() - t,
            {
                if str_eq(seen[t].as_str(), x.comment.id.as_str()) {
                    unique = false;
                }
                t = t + 1;
            }
            assert(unique == spec_last_of_its_id(x, all.skip(i + 1))) by {
                if unique {
                    assert forall|j: int| 0 <= j < all.skip(i + 1).len() implies (#[trigger] all.skip(i + 1)[j]).comment.id@
                        != x.comment.id@ by {
                        assert(seen@[n - 1 - (i + 1 + j)]@ == all[i + 1 + j].comment.id@);
                    }
                } else {
                    let u = choose|u: int| 0 <= u < seen@.len() && (#[trigger] seen@[u])@ == x.comment.id@;
                    assert(all.skip(i + 1)[n - 1 - u - (i + 1)] == all[n - 1 - u]);
                }
            }
            let ghost before_seen = seen@;
            seen.push(x.comment.id.clone());
            assert forall|t: int| 0 <= t < seen@.len() implies #[trigger] seen@[t]@ == all[n - 1 - t].comment.id@ by {
                if t < before_seen.len() {
                    assert(seen@[t] == before_seen[t]);
                }
            }
            if x.comment.parent_id.is_none() && unique {
                let mut p: usize = 0;
                while p < out.len() && out[p].comment.created_at >= x.comment.created_at
                    invariant
                        p <= out@.len(),
                        forall|q: int| 0 <= q < p ==> (#[trigger] out@[q]).comment.created_at >= x.comment.created_at,
                    decreases out.len() - p,
                {
                    p = p + 1;
                }
                let ghost before = out@;
                assert(p < before.len() ==> before[p as int].comment.created_at < x.comment.created_at);
                out.insert(p, x);
                assert(out@ == before.insert(p as int, all[i]));
                assert(spec_newest_first(out@)) by {
                    assert forall|a: int, b: int| 0 <= a < b < out@.len() implies out@[a].comment.created_at
                        >= out@[b].comment.created_at by {
                        if b < p {
                        } else if b == p {
                        } else if a < p {
                            assert(out@[b] == before[b - 1]);
                            assert(before[p as int].comment.created_at < x.comment.created_at);
                            if b - 1 > p {
                                assert(before[p as int].comment.created_at >= before[b - 1].comment.created_at);
                            }
                        } else if a == p {
                            assert(out@[b] == before[b - 1]);
                            if b - 1 > p {
                                assert(before[p as int].comment.created_at >= before[b - 1].comment.created_at);
                            }
                        } else {
                            assert(out@[a] == before[a - 1]);
                            assert(out@[b] == before[b - 1]);
                        }
                    }
                }
                assert forall|q: int| 0 <= q < before.len() implies (#[trigger] before[q]).comment.id@
                    != all[i].comment.id@ by {
                    assert(before.to_multiset().count(before[q]) > 0);
                    assert(spec_root_comments(all.skip(i + 1)).contains(before[q]));
                    lemma_roots_come_from(all.skip(i + 1), before[q]);
                    let j = choose|j: int| 0 <= j < all.skip(i + 1).len() && #[trigger] all.skip(i + 1)[j] == before[q];
                    assert(all.skip(i + 1)[j].comment.id@ != x.comment.id@);
                }
                assert(spec_distinct_ids(out@)) by {
                    assert forall|a: int, b: int| 0 <= a < b < out@.len() implies out@[a].comment.id@
                        != out@[b].comment.id@ by {
                        if b < p {
                        } else if b == p {
                        } else if a < p {
                            assert(out@[b] == before[b - 1]);
                        } else if a == p {
                            assert(out@[b] == before[b - 1]);
                        } else {
                            assert(out@[a] == before[a - 1]);
                            assert(out@[b] == before[b - 1]);
                        }
                    }
                }
                assert(spec_root_comments(all.skip(i)) =~= seq![all[i]] + spec_root_comments(all.skip(i + 1)));
                assert(seq![all[i]] + spec_root_comments(all.skip(i + 1)) =~= spec_root_comments(all.skip(i + 1)).insert(0, all[i]));
                proof {
                    to_multiset_insert(before, p as int, all[i]);
                    to_multiset_insert(spec_root_comments(all.skip(i + 1)), 0, all[i]);
                }
                assert(out@.to_multiset() == before.to_multiset().insert(all[i]));
                assert(spec_root_comments(all.skip(i + 1)).insert(0, all[i]).to_multiset()
                    == spec_root_comments(all.skip(i + 1)).to_multiset().insert(all[i]));
                assert(before.to_multiset() == spec_root_comments(all.skip(i + 1)).to_multiset());
                assert(spec_reply_comments(all.skip(i)) == spec_reply_comments(all.skip(i + 1)));
            } else if unique {
                let ghost before = pending@;
                pending.push(x);
                assert(pending@ == before.push(all[i]));
                assert(spec_reply_comments(all.skip(i)) =~= seq![all[i]] + spec_reply_comments(all.skip(i + 1)));
                assert(seq![all[i]] + spec_reply_comments(all.skip(i + 1)) =~= spec_reply_comments(all.skip(i + 1)).insert(0, all[i]));
                proof {
                    to_multiset_insert(spec_reply_comments(all.skip(i + 1)), 0, all[i]);
                }
                assert(spec_root_comments(all.skip(i)) == spec_root_comments(all.skip(i + 1)));
            } else {
                assert(spec_root_comments(all.skip(i)) == spec_root_comments(all.skip(i + 1)));
                assert(spec_reply_comments(all.skip(i)) == spec_reply_comments(all.skip(i + 1)));
            }
        }
        assert(all.skip(0) =~= all);
        (out, pending)
    }

    /// Gives each top-level comment, in order, the replies among `pending` that answer it.
    fn attach_replies(sorted: Vec<CommentWithAuthor>, pending: Vec<CommentWithAuthor>) -> (roots: Vec<
        CommentWithAuthor,
    >)
        requires
            spec_distinct_ids(sorted@),
        ensures
            roots@.len() == sorted@.len(),
            forall|k: int| 0 <= k < roots@.len() ==> spec_head(#[trigger] roots@[k]) == spec_head(sorted@[k]),
            forall|k: int|
                0 <= k < roots@.len() ==> (#[trigger] roots@[k]).replies@.to_multiset() == pending@.to_multiset().filter(
                    |c: CommentWithAuthor| spec_replies_to(c, sorted@[k].comment.id@),
                ),
    {
        let ghost all = sorted@;
        let ghost pool = pending@.to_multiset();
        let mut out = sorted;
        let mut pending = pending;
        let mut result: Vec<CommentWithAuthor> = Vec::new();
        while out.len() > 0
            invariant
                spec_distinct_ids(all),
                result@.len() + out@.len() == all.len(),
                out@ == all.skip(result@.len() as int),
                forall|k: int| 0 <= k < result@.len() ==> spec_head(#[trigger] result@[k]) == spec_head(all[k]),
                forall|k: int|
                    0 <= k < result@.len() ==> (#[trigger] result@[k]).replies@.to_multiset() == pool.filter(
                        |c: CommentWithAuthor| spec_replies_to(c, all[k].comment.id@),
                    ),
                forall|v: CommentWithAuthor|
                    #[trigger] pending@.to_multiset().count(v) == if spec_claimed(v, all, result@.len() as int) {
                        0
                    } else {
                        pool.count(v)
                    },
            decreases out.len(),
        {
            let ghost r = result@.len() as int;
            let mut node = out.remove(0);
            assert(node == all[r]);
            assert(out@ =~= all.skip(r + 1));
            let ghost before = pending@.to_multiset();
            assert forall|v: CommentWithAuthor| #[trigger] before.count(v) == if spec_claimed(v, all, r) {
                0
            } else {
                pool.count(v)
            } by {
                assert(pending@.to_multiset().count(v) == before.count(v));
            }
            let mut children: Vec<CommentWithAuthor> = Vec::new();
            let mut rest: Vec<CommentWithAuthor> = Vec::new();
            assert(children@.to_multiset() =~= Multiset::empty()) by {
                assert(children@.to_multiset().len() == 0);
            }
            assert(rest@.to_multiset() =~= Multiset::empty()) by {
                assert(rest@.to_multiset().len() == 0);
            }
            while pending.len() > 0
                invariant
                    forall|v: CommentWithAuthor|
                        #[trigger] before.count(v) == children@.to_multiset().count(v) + rest@.to_multiset().count(v)
                            + pending@.to_multiset().count(v),
                    forall|v: CommentWithAuthor|
                        #[trigger] children@.to_multiset().count(v) > 0 ==> spec_replies_to(v, node.comment.id@),
                    forall|v: CommentWithAuthor|
                        #[trigger] rest@.to_multiset().count(v) > 0 ==> !spec_replies_to(v, node.comment.id@),
                decreases pending.len(),
            {
                let ghost pend = pending@;
                let y = pending.pop().unwrap();
                assert(pend =~= pending@.push(y));
                assert(pend.to_multiset() =~= pending@.to_multiset().insert(y));
                let ghost c0 = children@;
                let ghost r0 = rest@;
                if Self::is_reply_to(&y, &node.comment.id) {
                    children.push(y);
                    assert(children@ == c0.push(y));
                    assert(children@.to_multiset() =~= c0.to_multiset().insert(y));
                } else {
                    rest.push(y);
                    assert(rest@ == r0.push(y));
                    assert(rest@.to_multiset() =~= r0.to_multiset().insert(y));
                }
            }
            assert(pending@.to_multiset() =~= Multiset::empty()) by {
                assert(pending@.to_multiset().len() == 0);
            }
            assert forall|v: CommentWithAuthor| #[trigger] children@.to_multiset().count(v) == pool.filter(
                |c: CommentWithAuthor| spec_replies_to(c, all[r].comment.id@),
            ).count(v) by {
                assert(before.count(v) == children@.to_multiset().count(v) + rest@.to_multiset().count(v)
                    + pending@.to_multiset().count(v));
                if spec_replies_to(v, all[r].comment.id@) {
                    assert(rest@.to_multiset().count(v) == 0);
                    if spec_claimed(v, all, r) {
                        let k = choose|k: int| 0 <= k < r && spec_replies_to(v, #[trigger] all[k].comment.id@);
                        assert(all[k].comment.id@ != all[r].comment.id@);
                    }
                } else {
                    assert(children@.to_multiset().count(v) == 0);
                }
            }
            assert(children@.to_multiset() =~= pool.filter(
                |c: CommentWithAuthor| spec_replies_to(c, all[r].comment.id@),
            ));
            node.replies = children;
            let ghost before_result = result@;
            result.push(node);
            assert forall|k: int| 0 <= k < result@.len() implies spec_head(#[trigger] result@[k]) == spec_head(all[k]) by {
                if k < r {
                    assert(result@[k] == before_result[k]);
                }
            }
            assert forall|k: int|
                0 <= k < result@.len() implies (#[trigger] result@[k]).replies@.to_multiset() == pool.filter(
                |c: CommentWithAuthor| spec_replies_to(c, all[k].comment.id@),
            ) by {
                if k < r {
                    assert(result@[k] == before_result[k]);
                }
            }
            pending = rest;
            assert forall|v: CommentWithAuthor|
                #[trigger] pending@.to_multiset().count(v) == if spec_claimed(v, all, r + 1) {
                    0
                } else {
                    pool.count(v)
                } by {
                assert(before.count(v) == children@.to_multiset().count(v) + rest@.to_multiset().count(v));
                if spec_replies_to(v, all[r].comment.id@) {
                    assert(spec_claimed(v, all, r + 1));
                    assert(rest@.to_multiset().count(v) == 0);
                } else {
                    assert(spec_claimed(v, all, r + 1) == spec_claimed(v, all, r));
                }
            }
        }
        result
    }

    /// Whether `c` answers the comment whose id is `id`.
    fn is_reply_to(c: &CommentWithAuthor, id: &String) -> (b: bool)
        ensures
            b == spec_replies_to(*c, id@),
    {
        match &c.comment.parent_id {
            Some(p) => str_eq(p.as_str(), id.as_str()),
            None => false,
        }
    }
}

/// Whether `c` answers one of the first `r` comments of `roots`.
pub open spec fn spec_claimed(c: CommentWithAuthor, roots: Seq<CommentWithAuthor>, r: int) -> bool {
    exists|k: int| 0 <= k < r && spec_replies_to(c, #[trigger] roots[k].comment.id@)
}

/// Every element of the top-level listing of `s` is an element of `s`.
proof fn lemma_roots_come_from(s: Seq<CommentWithAuthor>, c: CommentWithAuthor)
    requires
        spec_root_comments(s).contains(c),
    ensures
        s.contains(c),
    decreases s.len(),
{
    if s.len() > 0 {
        let rest = spec_root_comments(s.drop_first());
        if c != s[0] {
            if s[0].comment.parent_id is None && spec_last_of_its_id(s[0], s.drop_first()) {
                let j = choose|j: int| 0 <= j < spec_root_comments(s).len() && #[trigger] spec_root_comments(s)[j] == c;
                assert((seq![s[0]] + rest)[j] == c);
                assert(rest[j - 1] == c);
            }
            lemma_roots_come_from(s.drop_first(), c);
            let j = choose|j: int| 0 <= j < s.drop_first().len() && #[trigger] s.drop_first()[j] == c;
            assert(s[j + 1] == c);
        } else {
            assert(s[0] == c);
        }
    }
}

/// Two sequences with the same elements, counted with multiplicity, keep that property
/// under any map of their elements.
proof fn lemma_map_values_to_multiset<A, B>(a: Seq<A>, b: Seq<A>, f: spec_fn(A) -> B)
    requires
        a.to_multiset() == b.to_multiset(),
    ensures
        a.map_values(f).to_multiset() == b.map_values(f).to_multiset(),
    decreases a.len(),
{
    if a.len() == 0 {
        assert(a.to_multiset().len() == a.len());
        assert(b.to_multiset().len() == b.len());
        assert(b.len() == 0);
        assert(a.map_values(f) =~= Seq::<B>::empty());
        assert(b.map_values(f) =~= Seq::<B>::empty());
    } else {
        let x = a.last();
        let a1 = a.drop_last();
        assert(a =~= a1.push(x));
        assert(a.contains(x)) by {
            assert(a[a.len() - 1] == x);
        }
        assert(b.to_multiset().count(x) > 0);
        let k = choose|k: int| 0 <= k < b.len() && #[trigger] b[k] == x;
        let b1 = b.remove(k);
        assert(b1.to_multiset() =~= b.to_multiset().remove(x));
        assert(a1.to_multiset() =~= a.to_multiset().remove(x));
        lemma_map_values_to_multiset(a1, b1, f);
        assert(a.map_values(f) =~= a1.map_values(f).push(f(x)));
        assert(b.map_values(f) =~= b1.map_values(f).insert(k, f(x)));
        to_multiset_insert(b1.map_values(f), k, f(x));
    }
}

} // verus!
