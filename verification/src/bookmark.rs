//! Bookmarks of articles.

use crate::database::{spec_escape_quotes, Database};
use crate::error::ErrorKind;
use crate::follow::{has_pair, spec_distinct_pairs, spec_has_pair, spec_pair_views};
use crate::text::{chars_of, find_char, lemma_find, spec_find, str_eq, string_of, sub_chars};
use vstd::prelude::*;

verus! {

/// Why a bookmark operation was refused.
#[derive(Clone, Copy, Debug, PartialEq, Eq, Structural)]
pub enum BookmarkError {
    /// Only published articles can be bookmarked.
    NotPublished,
    /// The article is already bookmarked.
    AlreadyBookmarked,
    /// The bookmark belongs to another user.
    NotOwner,
}

impl BookmarkError {
    /// The category under which the refusal is reported.
    pub open spec fn spec_kind(self) -> ErrorKind {
        match self {
            BookmarkError::NotPublished => ErrorKind::Forbidden,
            BookmarkError::AlreadyBookmarked => ErrorKind::Conflict,
            BookmarkError::NotOwner => ErrorKind::Forbidden,
        }
    }

    /// The category under which the refusal is reported.
    pub fn kind(&self) -> (k: ErrorKind)
        ensures
            k == self.spec_kind(),
    {
        match self {
            BookmarkError::NotPublished => ErrorKind::Forbidden,
            BookmarkError::AlreadyBookmarked => ErrorKind::Conflict,
            BookmarkError::NotOwner => ErrorKind::Forbidden,
        }
    }
}

/// Bookmark rules.
pub struct BookmarkService {}

/// The verdict on `user` bookmarking `article`, given the (reader, article) bookmarks
/// stored so far.
pub open spec fn spec_bookmark_result(s: Seq<(Seq<char>, Seq<char>)>, user: Seq<char>, article: Seq<char>, published: bool) -> Result<
    (),
    BookmarkError,
> {
    if !published {
        Err(BookmarkError::NotPublished)
    } else if spec_has_pair(s, user, article) {
        Err(BookmarkError::AlreadyBookmarked)
    } else {
        Ok(())
    }
}

/// The bookmarks stored after `user` asked to bookmark `article`: the pair is added when
/// the bookmark is accepted.
pub open spec fn spec_bookmark_store(s: Seq<(Seq<char>, Seq<char>)>, user: Seq<char>, article: Seq<char>, published: bool) -> Seq<
    (Seq<char>, Seq<char>),
> {
    if spec_bookmark_result(s, user, article, published) is Ok {
        s.push((user, article))
    } else {
        s
    }
}

/// At most one bookmark per (reader, article) pair: bookmarking keeps a store of
/// bookmarks free of repeated pairs, and once a reader bookmarked an article, the article
/// counts as bookmarked and bookmarking it again is refused as a conflict and stores
/// nothing.
pub proof fn law_one_bookmark_per_pair(s: Seq<(Seq<char>, Seq<char>)>, user: Seq<char>, article: Seq<char>, published: bool)
    requires
        spec_distinct_pairs(s),
    ensures
        spec_distinct_pairs(spec_bookmark_store(s, user, article, published)),
        spec_bookmark_result(s, user, article, published) is Ok ==> spec_has_pair(
            spec_bookmark_store(s, user, article, published),
            user,
            article,
        ),
        spec_bookmark_result(s, user, article, published) is Ok ==> spec_bookmark_result(
            spec_bookmark_store(s, user, article, published),
            user,
            article,
            published,
        ) == Err::<(), BookmarkError>(BookmarkError::AlreadyBookmarked),
        spec_bookmark_result(s, user, article, published) is Ok ==> spec_bookmark_store(
            spec_bookmark_store(s, user, article, published),
            user,
            article,
            published,
        ) == spec_bookmark_store(s, user, article, published),
{
    let t = spec_bookmark_store(s, user, article, published);
    if spec_bookmark_result(s, user, article, published) is Ok {
        assert(t[s.len() as int] == (user, article));
        assert forall|i: int, j: int| 0 <= i < j < t.len() implies t[i] != t[j] by {
            if j == s.len() {
                assert(t[i] == s[i]);
            }
        }
    }
}

impl BookmarkService {
    /// The checks of a new bookmark: a published article not bookmarked yet.
    pub fn check_new_bookmark(article_published: bool, already_bookmarked: bool) -> (r: Result<(), BookmarkError>)
        ensures
            !article_published ==> r == Err::<(), BookmarkError>(BookmarkError::NotPublished),
            article_published && already_bookmarked ==> r == Err::<(), BookmarkError>(
                BookmarkError::AlreadyBookmarked,
            ),
            article_published && !already_bookmarked ==> r is Ok,
    {
        if !article_published {
            return Err(BookmarkError::NotPublished);
        }
        if already_bookmarked {
            return Err(BookmarkError::AlreadyBookmarked);
        }
        Ok(())
    }

    /// `user_id` asks to bookmark `article_id`, against a store of (reader, article)
    /// bookmarks: the checks of `check_new_bookmark`, with the store telling whether the
    /// pair is there; an accepted bookmark is stored.
    pub fn create_bookmark(
        bookmarks: &mut Vec<(String, String)>,
        user_id: &str,
        article_id: &str,
        article_published: bool,
    ) -> (r: Result<(), BookmarkError>)
        ensures
            r == spec_bookmark_result(spec_pair_views(old(bookmarks)@), user_id@, article_id@, article_published),
            spec_pair_views(final(bookmarks)@) == spec_bookmark_store(
                spec_pair_views(old(bookmarks)@),
                user_id@,
                article_id@,
                article_published,
            ),
    {
        let already = has_pair(bookmarks, user_id, article_id);
        match Self::check_new_bookmark(article_published, already) {
            Ok(()) => {
                let ghost before = bookmarks@;
                bookmarks.push((String::from_str(user_id), String::from_str(article_id)));
                assert(spec_pair_views(bookmarks@) =~= spec_pair_views(before).push((user_id@, article_id@)));
                Ok(())
            },
            Err(e) => Err(e),
        }
    }

    /// Whether `user_id` bookmarked `article_id`, in a store of (reader, article)
    /// bookmarks.
    pub fn is_bookmarked(bookmarks: &Vec<(String, String)>, article_id: &str, user_id: &str) -> (r: bool)
        ensures
            r == spec_has_pair(spec_pair_views(bookmarks@), user_id@, article_id@),
    {
        has_pair(bookmarks, user_id, article_id)
    }

    /// Only the owner may change or delete a bookmark.
    pub fn check_owner(owner_id: &str, user_id: &str) -> (r: Result<(), BookmarkError>)
        ensures
            r is Ok <==> owner_id@ == user_id@,
            r is Err ==> r == Err::<(), BookmarkError>(BookmarkError::NotOwner),
    {
        if str_eq(owner_id, user_id) {
            Ok(())
        } else {
            Err(BookmarkError::NotOwner)
        }
    }

    /// The note stored with a new bookmark: a non-empty note, its quotes escaped; an
    /// empty or absent note stores none.
    pub fn stored_note(note: Option<&str>) -> (r: Option<String>)
        ensures
            match note {
                Some(n) => if n@.len() > 0 {
                    r matches Some(s) && s@ == spec_escape_quotes(n@)
                } else {
                    r is None
                },
                None => r is None,
            },
    {
        match note {
            Some(n) => {
                if n.is_empty() {
                    None
                } else {
                    Some(Database::escape_quotes(n))
                }
            },
            None => None,
        }
    }
}

/// A stored article reference in the bracketed form `table:⟨key⟩` read as `article:key`:
/// the text between the first `⟨` and the first `⟩`; other references stay as they are.
pub open spec fn spec_article_ref(a: Seq<char>) -> Seq<char> {
    match (spec_find(a, '⟨'), spec_find(a, '⟩')) {
        (Some(s), Some(e)) => "article:"@ + a.subrange(s + 1, e),
        _ => a,
    }
}

/// Whether a stored article reference can be read: when it has both brackets, the first
/// `⟨` comes before the first `⟩`.
pub open spec fn spec_article_ref_ok(a: Seq<char>) -> bool {
    match (spec_find(a, '⟨'), spec_find(a, '⟩')) {
        (Some(s), Some(e)) => s < e,
        _ => true,
    }
}

impl BookmarkService {
    /// Whether a stored article reference can be read by `normalize_article_ref`.
    pub fn article_ref_ok(article_ref: &str) -> (r: bool)
        ensures
            r == spec_article_ref_ok(article_ref@),
    {
        let cs = chars_of(article_ref);
        match (find_char(&cs, '⟨'), find_char(&cs, '⟩')) {
            (Some(s), Some(e)) => s < e,
            _ => true,
        }
    }

    /// Reads a stored article reference as the bookmark listing does when the article
    /// is stored as text: `table:⟨key⟩` becomes `article:key`.
    pub fn normalize_article_ref(article_ref: &str) -> (r: String)
        requires
            spec_article_ref_ok(article_ref@),
        ensures
            r@ == spec_article_ref(article_ref@),
    {
        let cs = chars_of(article_ref);
        match (find_char(&cs, '⟨'), find_char(&cs, '⟩')) {
            (Some(s), Some(e)) => {
                proof {
                    lemma_find(cs@, '⟨');
                    lemma_find(cs@, '⟩');
                }
                let key = sub_chars(&cs, s + 1, e);
                let mut r = String::from_str("article:");
                let k = string_of(&key);
                r.append(k.as_str());
                r
            },
            _ => String::from_str(article_ref),
        }
    }
}

} // verus!
