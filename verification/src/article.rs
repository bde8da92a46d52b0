//! Articles: drafts and publication, edits, applause limits and unique slugs.

use crate::error::ErrorKind;
use crate::search::spec_cond_if;
use crate::text::{i64_to_string, push_char, push_str_item, spec_decimal, spec_strs, str_eq};
use vstd::prelude::*;

verus! {

/// The publication status of an article.
#[derive(Clone, Copy, Debug, PartialEq, Eq, Structural)]
pub enum ArticleStatus {
    Draft,
    Published,
    Unlisted,
    Archived,
}

/// The status a stored status name denotes; an absent or unknown name is a draft.
pub open spec fn spec_article_status(s: Option<Seq<char>>) -> ArticleStatus {
    match s {
        Some(t) => if t == "published"@ {
            ArticleStatus::Published
        } else if t == "unlisted"@ {
            ArticleStatus::Unlisted
        } else if t == "archived"@ {
            ArticleStatus::Archived
        } else {
            ArticleStatus::Draft
        },
        None => ArticleStatus::Draft,
    }
}

/// The publication state of an article; times are Unix seconds.
#[derive(Clone, Copy, Debug, PartialEq, Eq, Structural)]
pub struct PublicationState {
    pub status: ArticleStatus,
    pub published_at: Option<i64>,
    pub updated_at: i64,
    pub last_edited_at: Option<i64>,
}

/// Why an article operation was refused.
#[derive(Clone, Copy, Debug, PartialEq, Eq, Structural)]
pub enum ArticleError {
    /// Only the article's author may do this.
    NotAuthor,
    /// The article is already published.
    AlreadyPublished,
    /// The article is already a draft.
    AlreadyDraft,
    /// Only published articles can be applauded.
    NotPublished,
    /// A reader may give an article at most 50 claps.
    TooManyClaps,
    /// No free slug was found.
    SlugExhausted,
}

impl ArticleError {
    /// The category under which the refusal is reported.
    pub open spec fn spec_kind(self) -> ErrorKind {
        match self {
            ArticleError::NotAuthor => ErrorKind::Authorization,
            ArticleError::AlreadyPublished => ErrorKind::BadRequest,
            ArticleError::AlreadyDraft => ErrorKind::BadRequest,
            ArticleError::NotPublished => ErrorKind::Forbidden,
            ArticleError::TooManyClaps => ErrorKind::BadRequest,
            ArticleError::SlugExhausted => ErrorKind::Internal,
        }
    }

    /// The category under which the refusal is reported.
    pub fn kind(&self) -> (k: ErrorKind)
        ensures
            k == self.spec_kind(),
    {
        match self {
            ArticleError::NotAuthor => ErrorKind::Authorization,
            ArticleError::AlreadyPublished => ErrorKind::BadRequest,
            ArticleError::AlreadyDraft => ErrorKind::BadRequest,
            ArticleError::NotPublished => ErrorKind::Forbidden,
            ArticleError::TooManyClaps => ErrorKind::BadRequest,
            ArticleError::SlugExhausted => ErrorKind::Internal,
        }
    }
}

/// The next move of the search for a free slug.
pub enum SlugStep {
    /// The candidate is free: use it.
    Use(String),
    /// The candidate is taken: try this one next.
    Try(String),
    /// Every candidate was taken.
    Exhausted,
}

/// Article rules.
pub struct ArticleService {}

/// The most claps one reader may give one article.
pub const MAX_CLAPS_PER_READER: i32 = 50;

/// One reader's claps on one article, as stored.
pub struct ClapRecord {
    pub user_id: String,
    pub article_id: String,
    pub count: i32,
}

/// The answer to a clap: the reader's claps on the article, and the article's total.
pub struct ClapResponse {
    pub user_clap_count: i32,
    pub total_claps: i64,
}

/// The stored claps as (reader, article, count) triples.
pub open spec fn spec_clap_rows(s: Seq<ClapRecord>) -> Seq<(Seq<char>, Seq<char>, int)> {
    Seq::new(s.len(), |i: int| (s[i].user_id@, s[i].article_id@, s[i].count as int))
}

/// The first row from `i` on that holds reader `u`'s claps on article `a`.
pub open spec fn spec_find_clap_from(s: Seq<(Seq<char>, Seq<char>, int)>, u: Seq<char>, a: Seq<char>, i: int) -> Option<int>
    decreases s.len() - i,
{
    if i < 0 || i >= s.len() {
        None
    } else if s[i].0 == u && s[i].1 == a {
        Some(i)
    } else {
        spec_find_clap_from(s, u, a, i + 1)
    }
}

/// The row that holds reader `u`'s claps on article `a`, if any.
pub open spec fn spec_find_clap(s: Seq<(Seq<char>, Seq<char>, int)>, u: Seq<char>, a: Seq<char>) -> Option<int> {
    spec_find_clap_from(s, u, a, 0)
}

/// The verdict on reader `u` clapping article `a` `count` more times: the reader's new
/// clap count, or why it was refused (the article is unpublished, or the reader's
/// claps would exceed 50).
pub open spec fn spec_clap_result(
    s: Seq<(Seq<char>, Seq<char>, int)>,
    u: Seq<char>,
    a: Seq<char>,
    count: int,
    published: bool,
) -> Result<int, ArticleError> {
    if !published {
        Err(ArticleError::NotPublished)
    } else {
        match spec_find_clap(s, u, a) {
            Some(i) => if s[i].2 + count > 50 {
                Err(ArticleError::TooManyClaps)
            } else {
                Ok(s[i].2 + count)
            },
            None => if count > 50 {
                Err(ArticleError::TooManyClaps)
            } else {
                Ok(count)
            },
        }
    }
}

/// The stored claps after reader `u` clapped article `a` `count` more times: the
/// reader's row holds the new count (a new row when there was none); a refused clap
/// stores nothing.
pub open spec fn spec_clap_store(
    s: Seq<(Seq<char>, Seq<char>, int)>,
    u: Seq<char>,
    a: Seq<char>,
    count: int,
    published: bool,
) -> Seq<(Seq<char>, Seq<char>, int)> {
    match spec_clap_result(s, u, a, count, published) {
        Ok(n) => match spec_find_clap(s, u, a) {
            Some(i) => s.update(i, (u, a, n)),
            None => s.push((u, a, n)),
        },
        Err(_) => s,
    }
}

/// The claps of one row that count for article `a`.
pub open spec fn spec_claps_for(row: (Seq<char>, Seq<char>, int), a: Seq<char>) -> int {
    if row.1 == a {
        row.2
    } else {
        0
    }
}

/// An article's clap total: the sum of all readers' claps on it.
pub open spec fn spec_article_claps(s: Seq<(Seq<char>, Seq<char>, int)>, a: Seq<char>) -> int
    decreases s.len(),
{
    if s.len() == 0 {
        0
    } else {
        spec_article_claps(s.drop_last(), a) + spec_claps_for(s.last(), a)
    }
}

/// A row found from `i` on lies in the store and holds the reader and the article.
proof fn lemma_find_clap_from(s: Seq<(Seq<char>, Seq<char>, int)>, u: Seq<char>, a: Seq<char>, i: int)
    requires
        0 <= i,
    ensures
        spec_find_clap_from(s, u, a, i) matches Some(k) ==> 0 <= i <= k < s.len() && s[k].0 == u && s[k].1 == a,
        spec_find_clap_from(s, u, a, i) is None ==> forall|k: int| i <= k < s.len() ==> !(s[k].0 == u && s[k].1 == a),
    decreases s.len() - i,
{
    if i >= s.len() {
    } else if s[i].0 == u && s[i].1 == a {
    } else {
        lemma_find_clap_from(s, u, a, i + 1);
    }
}

/// The first matching row at or after `j` is row `i` when row `i` matches and none
/// between `j` and `i` does.
proof fn lemma_find_clap_first(s: Seq<(Seq<char>, Seq<char>, int)>, u: Seq<char>, a: Seq<char>, j: int, i: int)
    requires
        0 <= j <= i < s.len(),
        s[i].0 == u && s[i].1 == a,
        forall|k: int| j <= k < i ==> !(#[trigger] s[k].0 == u && s[k].1 == a),
    ensures
        spec_find_clap_from(s, u, a, j) == Some(i),
    decreases i - j,
{
    if j < i {
        lemma_find_clap_first(s, u, a, j + 1, i);
    }
}

/// Replacing one row changes an article's total by the difference of what the two rows
/// count for it.
proof fn lemma_article_claps_update(s: Seq<(Seq<char>, Seq<char>, int)>, i: int, v: (Seq<char>, Seq<char>, int), a: Seq<char>)
    requires
        0 <= i < s.len(),
    ensures
        spec_article_claps(s.update(i, v), a) == spec_article_claps(s, a) - spec_claps_for(s[i], a) + spec_claps_for(v, a),
    decreases s.len(),
{
    let t = s.update(i, v);
    if i == s.len() - 1 {
        assert(t.drop_last() =~= s.drop_last());
    } else {
        assert(t.drop_last() =~= s.drop_last().update(i, v));
        lemma_article_claps_update(s.drop_last(), i, v, a);
    }
}

/// A reader's claps on an article never exceed 50, and the article's total is the sum of
/// all readers' claps: an accepted clap of `count` raises the total by exactly `count`,
/// and a refused one changes nothing.
pub proof fn law_claps_capped_and_summed(
    s: Seq<(Seq<char>, Seq<char>, int)>,
    u: Seq<char>,
    a: Seq<char>,
    count: int,
    published: bool,
)
    requires
        forall|i: int| 0 <= i < s.len() ==> (#[trigger] s[i]).2 <= 50,
    ensures
        forall|i: int|
            0 <= i < spec_clap_store(s, u, a, count, published).len() ==> (#[trigger] spec_clap_store(
                s,
                u,
                a,
                count,
                published,
            )[i]).2 <= 50,
        spec_clap_result(s, u, a, count, published) is Ok ==> spec_article_claps(
            spec_clap_store(s, u, a, count, published),
            a,
        ) == spec_article_claps(s, a) + count,
        spec_clap_result(s, u, a, count, published) is Err ==> spec_clap_store(s, u, a, count, published) == s,
{
    lemma_find_clap_from(s, u, a, 0);
    let t = spec_clap_store(s, u, a, count, published);
    if let Ok(n) = spec_clap_result(s, u, a, count, published) {
        match spec_find_clap(s, u, a) {
            Some(i) => {
                lemma_article_claps_update(s, i, (u, a, n), a);
                assert forall|k: int| 0 <= k < t.len() implies (#[trigger] t[k]).2 <= 50 by {
                    if k != i {
                        assert(t[k] == s[k]);
                    }
                }
            },
            None => {
                assert(t.drop_last() =~= s);
                assert forall|k: int| 0 <= k < t.len() implies (#[trigger] t[k]).2 <= 50 by {
                    if k < s.len() {
                        assert(t[k] == s[k]);
                    }
                }
            },
        }
    }
}

/// The `n`-th slug candidate: the base slug, then the base slug with `-1`, `-2`, ...
pub open spec fn spec_slug_candidate(base: Seq<char>, n: int) -> Seq<char> {
    if n == 0 {
        base
    } else {
        base + seq!['-'] + spec_decimal(n)
    }
}

impl ArticleService {
    /// Reads the status of a stored article record.
    pub fn parse_article_status(status: Option<&str>) -> (r: ArticleStatus)
        ensures
            r == spec_article_status(
                match status {
                    Some(t) => Some(t@),
                    None => None,
                },
            ),
    {
        match status {
            Some(t) => {
                if str_eq(t, "published") {
                    ArticleStatus::Published
                } else if str_eq(t, "unlisted") {
                    ArticleStatus::Unlisted
                } else if str_eq(t, "archived") {
                    ArticleStatus::Archived
                } else {
                    ArticleStatus::Draft
                }
            },
            None => ArticleStatus::Draft,
        }
    }

    /// The state of a new article: a draft unless the request says not to save a draft
    /// (drafts are the default); a published article is published at `now`.
    pub fn initial_state(save_as_draft: Option<bool>, now: i64) -> (s: PublicationState)
        ensures
            s.status == (if save_as_draft == Some(false) {
                ArticleStatus::Published
            } else {
                ArticleStatus::Draft
            }),
            s.published_at == (if s.status == ArticleStatus::Published {
                Some(now)
            } else {
                None
            }),
            s.updated_at == now,
            s.last_edited_at is None,
    {
        let draft = match save_as_draft {
            Some(d) => d,
            None => true,
        };
        if draft {
            PublicationState { status: ArticleStatus::Draft, published_at: None, updated_at: now, last_edited_at: None }
        } else {
            PublicationState {
                status: ArticleStatus::Published,
                published_at: Some(now),
                updated_at: now,
                last_edited_at: None,
            }
        }
    }

    /// Applies an edit to the publication state as an article edit does: a status
    /// change to published from any other status sets the publication time; changed
    /// content sets the edit time; the update time is always `now`.
    pub fn apply_edit(state: PublicationState, new_status: Option<ArticleStatus>, content_changed: bool, now: i64) -> (s:
        PublicationState)
        ensures
            s.status == match new_status {
                Some(st) => st,
                None => state.status,
            },
            s.published_at == (if new_status == Some(ArticleStatus::Published) && state.status
                != ArticleStatus::Published {
                Some(now)
            } else {
                state.published_at
            }),
            s.last_edited_at == (if content_changed {
                Some(now)
            } else {
                state.last_edited_at
            }),
            s.updated_at == now,
    {
        let mut s = state;
        match new_status {
            Some(st) => {
                if state.status != ArticleStatus::Published && st == ArticleStatus::Published {
                    s.published_at = Some(now);
                }
                s.status = st;
            },
            None => {},
        }
        s.updated_at = now;
        if content_changed {
            s.last_edited_at = Some(now);
        }
        s
    }

    /// Whether the user may change or delete the article: only its author.
    pub fn check_author(author_id: &str, user_id: &str) -> (r: Result<(), ArticleError>)
        ensures
            r is Ok <==> author_id@ == user_id@,
            r is Err ==> r == Err::<(), ArticleError>(ArticleError::NotAuthor),
    {
        if str_eq(author_id, user_id) {
            Ok(())
        } else {
            Err(ArticleError::NotAuthor)
        }
    }

    /// Publishes an article as publishing does: only the author may, and only an
    /// unpublished article; it is published at `now`.
    pub fn publish(state: PublicationState, author_id: &str, user_id: &str, now: i64) -> (r: Result<
        PublicationState,
        ArticleError,
    >)
        ensures
            author_id@ != user_id@ ==> r == Err::<PublicationState, ArticleError>(ArticleError::NotAuthor),
            author_id@ == user_id@ && state.status == ArticleStatus::Published ==> r == Err::<
                PublicationState,
                ArticleError,
            >(ArticleError::AlreadyPublished),
            author_id@ == user_id@ && state.status != ArticleStatus::Published ==> r == Ok::<
                PublicationState,
                ArticleError,
            >(
                PublicationState {
                    status: ArticleStatus::Published,
                    published_at: Some(now),
                    updated_at: now,
                    last_edited_at: state.last_edited_at,
                },
            ),
    {
        Self::check_author(author_id, user_id)?;
        if state.status == ArticleStatus::Published {
            return Err(ArticleError::AlreadyPublished);
        }
        Ok(
            PublicationState {
                status: ArticleStatus::Published,
                published_at: Some(now),
                updated_at: now,
                last_edited_at: state.last_edited_at,
            },
        )
    }

    /// Takes an article back to draft as unpublishing does: only the author may,
    /// and only an article that is not a draft; its publication time is kept.
    pub fn unpublish(state: PublicationState, author_id: &str, user_id: &str, now: i64) -> (r: Result<
        PublicationState,
        ArticleError,
    >)
        ensures
            author_id@ != user_id@ ==> r == Err::<PublicationState, ArticleError>(ArticleError::NotAuthor),
            author_id@ == user_id@ && state.status == ArticleStatus::Draft ==> r == Err::<
                PublicationState,
                ArticleError,
            >(ArticleError::AlreadyDraft),
            author_id@ == user_id@ && state.status != ArticleStatus::Draft ==> r == Ok::<
                PublicationState,
                ArticleError,
            >(PublicationState { status: ArticleStatus::Draft, updated_at: now, ..state }),
    {
        Self::check_author(author_id, user_id)?;
        if state.status == ArticleStatus::Draft {
            return Err(ArticleError::AlreadyDraft);
        }
        Ok(PublicationState { status: ArticleStatus::Draft, updated_at: now, ..state })
    }

    /// Reader `user_id` claps article `article_id` `count` more times, against the
    /// stored claps: refused on an unpublished article or beyond 50 claps of the reader;
    /// otherwise the reader's row holds the new count (a new row when there was none),
    /// and the answer gives it with the article's new total, the sum of all readers'
    /// claps on it.
    pub fn clap_article(
        claps: &mut Vec<ClapRecord>,
        user_id: &str,
        article_id: &str,
        count: i32,
        published: bool,
    ) -> (r: Result<ClapResponse, ArticleError>)
        requires
            spec_find_clap(spec_clap_rows(old(claps)@), user_id@, article_id@) matches Some(i) ==> i32::MIN
                <= spec_clap_rows(old(claps)@)[i].2 + count <= i32::MAX,
            old(claps)@.len() < 0xffff_ffff,
        ensures
            spec_clap_rows(final(claps)@) == spec_clap_store(
                spec_clap_rows(old(claps)@),
                user_id@,
                article_id@,
                count as int,
                published,
            ),
            r matches Ok(v) ==> spec_clap_result(spec_clap_rows(old(claps)@), user_id@, article_id@, count as int, published)
                == Ok::<int, ArticleError>(v.user_clap_count as int) && v.total_claps == spec_article_claps(
                spec_clap_rows(final(claps)@),
                article_id@,
            ),
            r matches Err(e) ==> spec_clap_result(spec_clap_rows(old(claps)@), user_id@, article_id@, count as int, published)
                == Err::<int, ArticleError>(e),
    {
        let ghost rows = spec_clap_rows(claps@);
        proof {
            lemma_find_clap_from(rows, user_id@, article_id@, 0);
        }
        let mut found: Option<usize> = None;
        let mut i: usize = 0;
        while i < claps.len()
            invariant
                i <= claps@.len(),
                rows == spec_clap_rows(claps@),
                match found {
                    Some(k) => spec_find_clap(rows, user_id@, article_id@) == Some(k as int),
                    None => forall|k: int| 0 <= k < i ==> !(#[trigger] rows[k].0 == user_id@ && rows[k].1 == article_id@),
                },
            decreases claps.len() - i,
        {
            if found.is_none() && str_eq(claps[i].user_id.as_str(), user_id) && str_eq(claps[i].article_id.as_str(), article_id) {
                proof {
                    lemma_find_clap_first(rows, user_id@, article_id@, 0, i as int);
                }
                found = Some(i);
            }
            i = i + 1;
        }
        proof {
            if found is None {
                if let Some(k) = spec_find_clap(rows, user_id@, article_id@) {
                    assert(!(rows[k].0 == user_id@ && rows[k].1 == article_id@));
                }
            }
        }
        let existing: Option<i32> = match found {
            Some(k) => Some(claps[k].count),
            None => None,
        };
        let n = Self::apply_claps(published, existing, count)?;
        let record = ClapRecord { user_id: String::from_str(user_id), article_id: String::from_str(article_id), count: n };
        match found {
            Some(k) => {
                claps.set(k, record);
                assert(spec_clap_rows(claps@) =~= rows.update(k as int, (user_id@, article_id@, n as int)));
            },
            None => {
                claps.push(record);
                assert(spec_clap_rows(claps@) =~= rows.push((user_id@, article_id@, n as int)));
            },
        }
        let ghost fin = spec_clap_rows(claps@);
        let mut total: i64 = 0;
        let mut j: usize = 0;
        while j < claps.len()
            invariant
                j <= claps@.len(),
                claps@.len() <= 0xffff_ffff,
                fin == spec_clap_rows(claps@),
                total == spec_article_claps(fin.take(j as int), article_id@),
                -(j as int) * 0x8000_0000 <= total <= (j as int) * 0x8000_0000,
            decreases claps.len() - j,
        {
            assert(fin.take(j + 1).drop_last() =~= fin.take(j as int));
            if str_eq(claps[j].article_id.as_str(), article_id) {
                total = total + claps[j].count as i64;
            }
            j = j + 1;
        }
        assert(fin.take(claps@.len() as int) =~= fin);
        Ok(ClapResponse { user_clap_count: n, total_claps: total })
    }

    /// The claps a reader has on an article after clapping `count` more, as
    /// applauding an article allows: only on published articles, and at most 50 per reader.
    pub fn apply_claps(published: bool, existing: Option<i32>, count: i32) -> (r: Result<i32, ArticleError>)
        requires
            existing matches Some(e) ==> i32::MIN <= e + count <= i32::MAX,
        ensures
            !published ==> r == Err::<i32, ArticleError>(ArticleError::NotPublished),
            published ==> match existing {
                Some(e) => if e + count > 50 {
                    r == Err::<i32, ArticleError>(ArticleError::TooManyClaps)
                } else {
                    r == Ok::<i32, ArticleError>((e + count) as i32)
                },
                None => if count > 50 {
                    r == Err::<i32, ArticleError>(ArticleError::TooManyClaps)
                } else {
                    r == Ok::<i32, ArticleError>(count)
                },
            },
    {
        if !published {
            return Err(ArticleError::NotPublished);
        }
        match existing {
            Some(e) => {
                let total = e + count;
                if total > MAX_CLAPS_PER_READER {
                    Err(ArticleError::TooManyClaps)
                } else {
                    Ok(total)
                }
            },
            None => {
                if count > MAX_CLAPS_PER_READER {
                    Err(ArticleError::TooManyClaps)
                } else {
                    Ok(count)
                }
            },
        }
    }

    /// The `n`-th candidate slug for a base slug.
    pub fn slug_candidate(base: &str, n: u32) -> (s: String)
        ensures
            s@ == spec_slug_candidate(base@, n as int),
    {
        let mut s = String::from_str(base);
        if n > 0 {
            push_char(&mut s, '-');
            let d = i64_to_string(n as i64);
            s.append(d.as_str());
        }
        s
    }

    /// One step of the search for a free slug (the unique-slug search): candidate `n`
    /// was found free or taken. A free candidate is used; after a taken one the next is
    /// tried, up to candidate 99; when candidate 99 is taken too, the search fails.
    pub fn slug_search_step(base: &str, n: u32, taken: bool) -> (r: SlugStep)
        requires
            n <= 99,
        ensures
            !taken ==> (r matches SlugStep::Use(s) && s@ == spec_slug_candidate(base@, n as int)),
            taken && n < 99 ==> (r matches SlugStep::Try(s) && s@ == spec_slug_candidate(base@, n + 1)),
            taken && n == 99 ==> r is Exhausted,
    {
        if !taken {
            SlugStep::Use(Self::slug_candidate(base, n))
        } else if n < 99 {
            SlugStep::Try(Self::slug_candidate(base, n + 1))
        } else {
            SlugStep::Exhausted
        }
    }
}

/// The editable fields of an article other than its content and status.
pub struct ArticleFields {
    pub title: String,
    pub subtitle: Option<String>,
    pub excerpt: Option<String>,
    pub cover_image_url: Option<String>,
    pub publication_id: Option<String>,
    pub series_id: Option<String>,
    pub series_order: Option<i32>,
    pub is_paid_content: bool,
    pub seo_title: Option<String>,
    pub seo_description: Option<String>,
    pub seo_keywords: Vec<String>,
}

/// The fields an edit request sets; an absent field is left as it is.
pub struct ArticlePatch {
    pub title: Option<String>,
    pub subtitle: Option<String>,
    pub excerpt: Option<String>,
    pub cover_image_url: Option<String>,
    pub publication_id: Option<String>,
    pub series_id: Option<String>,
    pub series_order: Option<i32>,
    pub is_paid_content: Option<bool>,
    pub seo_title: Option<String>,
    pub seo_description: Option<String>,
    pub seo_keywords: Option<Vec<String>>,
}

/// The characters of an optional string.
pub open spec fn spec_opt_chars(s: Option<String>) -> Option<Seq<char>> {
    match s {
        Some(t) => Some(t@),
        None => None,
    }
}

/// An optional field after an edit: the edit's value when it sets one, else the old
/// value.
pub open spec fn spec_patched(old: Option<String>, new: Option<String>) -> Option<Seq<char>> {
    match new {
        Some(v) => Some(v@),
        None => spec_opt_chars(old),
    }
}

/// The edited value of an optional field.
fn patch_opt(old: Option<String>, new: Option<String>) -> (r: Option<String>)
    ensures
        spec_opt_chars(r) == spec_patched(old, new),
{
    match new {
        Some(v) => Some(v),
        None => old,
    }
}

impl ArticleService {
    /// Applies an edit request to the editable fields as an article edit does: each field
    /// the request sets replaces the old one. Also tells whether the title changed, which
    /// calls for a new slug.
    pub fn apply_patch(fields: ArticleFields, patch: ArticlePatch) -> (r: (ArticleFields, bool))
        ensures
            r.1 == (patch.title matches Some(t) && t@ != fields.title@),
            r.0.title@ == match patch.title {
                Some(t) => t@,
                None => fields.title@,
            },
            spec_opt_chars(r.0.subtitle) == spec_patched(fields.subtitle, patch.subtitle),
            spec_opt_chars(r.0.excerpt) == spec_patched(fields.excerpt, patch.excerpt),
            spec_opt_chars(r.0.cover_image_url) == spec_patched(fields.cover_image_url, patch.cover_image_url),
            spec_opt_chars(r.0.publication_id) == spec_patched(fields.publication_id, patch.publication_id),
            spec_opt_chars(r.0.series_id) == spec_patched(fields.series_id, patch.series_id),
            r.0.series_order == match patch.series_order {
                Some(o) => Some(o),
                None => fields.series_order,
            },
            r.0.is_paid_content == match patch.is_paid_content {
                Some(p) => p,
                None => fields.is_paid_content,
            },
            spec_opt_chars(r.0.seo_title) == spec_patched(fields.seo_title, patch.seo_title),
            spec_opt_chars(r.0.seo_description) == spec_patched(fields.seo_description, patch.seo_description),
            spec_strs(r.0.seo_keywords@) == match patch.seo_keywords {
                Some(k) => spec_strs(k@),
                None => spec_strs(fields.seo_keywords@),
            },
    {
        let ArticleFields {
            title,
            subtitle,
            excerpt,
            cover_image_url,
            publication_id,
            series_id,
            series_order,
            is_paid_content,
            seo_title,
            seo_description,
            seo_keywords,
        } = fields;
        let (new_title, changed) = match patch.title {
            Some(t) => {
                let changed = !str_eq(t.as_str(), title.as_str());
                (t, changed)
            },
            None => (title, false),
        };
        let out = ArticleFields {
            title: new_title,
            subtitle: patch_opt(subtitle, patch.subtitle),
            excerpt: patch_opt(excerpt, patch.excerpt),
            cover_image_url: patch_opt(cover_image_url, patch.cover_image_url),
            publication_id: patch_opt(publication_id, patch.publication_id),
            series_id: patch_opt(series_id, patch.series_id),
            series_order: match patch.series_order {
                Some(o) => Some(o),
                None => series_order,
            },
            is_paid_content: match patch.is_paid_content {
                Some(p) => p,
                None => is_paid_content,
            },
            seo_title: patch_opt(seo_title, patch.seo_title),
            seo_description: patch_opt(seo_description, patch.seo_description),
            seo_keywords: match patch.seo_keywords {
                Some(k) => k,
                None => seo_keywords,
            },
        };
        (out, changed)
    }
}

/// The filters of an article listing.
pub struct ArticleListFilter {
    /// The status to list, as its stored name; published articles when absent.
    pub status: Option<String>,
    pub author: Option<String>,
    pub tag: Option<String>,
    pub publication: Option<String>,
    pub featured: Option<bool>,
    pub search: Option<String>,
}

/// The conditions of an article listing, in the order they are added: not deleted; the
/// requested status (published by default); then one per filter that is set.
pub open spec fn spec_list_conditions(f: ArticleListFilter) -> Seq<Seq<char>> {
    seq![
        "is_deleted = false"@,
        match f.status {
            Some(st) => "status = '"@ + st@ + "'"@,
            None => "status = 'published'"@,
        },
    ] + spec_cond_if(f.author is Some, "author_id = $author"@) + spec_cond_if(f.tag is Some, "$tag IN tags"@)
        + spec_cond_if(f.publication is Some, "publication_id = $publication"@) + match f.featured {
        Some(b) => seq!["is_featured = "@ + (if b { "true"@ } else { "false"@ })],
        None => Seq::<Seq<char>>::empty(),
    } + spec_cond_if(f.search is Some, "(title ~ $search OR content ~ $search)"@)
}

/// Whether a text starts as a featured-articles condition does (`is_f`).
pub open spec fn spec_featured_like(x: Seq<char>) -> bool {
    x.len() > 3 && x[0] == 'i' && x[3] == 'f'
}

/// A text is in the concatenation of two lists exactly when it is in one of them.
proof fn lemma_contains_concat(a: Seq<Seq<char>>, b: Seq<Seq<char>>, x: Seq<char>)
    ensures
        (a + b).contains(x) <==> a.contains(x) || b.contains(x),
{
    if (a + b).contains(x) {
        let i = choose|i: int| 0 <= i < (a + b).len() && (a + b)[i] == x;
        if i >= a.len() {
            assert(b[i - a.len()] == x);
        }
    }
    if a.contains(x) {
        let i = choose|i: int| 0 <= i < a.len() && a[i] == x;
        assert((a + b)[i] == x);
    }
    if b.contains(x) {
        let i = choose|i: int| 0 <= i < b.len() && b[i] == x;
        assert((a + b)[a.len() + i] == x);
    }
}

/// A condition that does not start as a featured condition adds none.
proof fn lemma_cond_not_featured(present: bool, cond: Seq<char>, x: Seq<char>)
    requires
        !spec_featured_like(cond),
        spec_featured_like(x),
    ensures
        !spec_cond_if(present, cond).contains(x),
{
    if spec_cond_if(present, cond).contains(x) {
        let i = choose|i: int| 0 <= i < spec_cond_if(present, cond).len() && spec_cond_if(present, cond)[i] == x;
        assert(spec_cond_if(present, cond)[i] == cond);
    }
}

/// The deleted and status conditions of a listing do not start as a featured condition.
proof fn lemma_head_not_featured(status: Option<String>, x: Seq<char>)
    requires
        spec_featured_like(x),
    ensures
        !seq![
            "is_deleted = false"@,
            match status {
                Some(st) => "status = '"@ + st@ + "'"@,
                None => "status = 'published'"@,
            },
        ].contains(x),
{
    reveal_strlit("is_deleted = false");
    reveal_strlit("status = '");
    reveal_strlit("status = 'published'");
    let h = seq![
        "is_deleted = false"@,
        match status {
            Some(st) => "status = '"@ + st@ + "'"@,
            None => "status = 'published'"@,
        },
    ];
    assert(!spec_featured_like(h[0]));
    assert(h[1][0] == 's');
    if h.contains(x) {
        let i = choose|i: int| 0 <= i < h.len() && h[i] == x;
    }
}

/// The conditions of a listing other than the featured one never start as a featured
/// condition.
proof fn lemma_others_not_featured(f: ArticleListFilter, x: Seq<char>)
    requires
        spec_featured_like(x),
    ensures
        spec_list_conditions(f).contains(x) <==> match f.featured {
            Some(v) => seq!["is_featured = "@ + (if v { "true"@ } else { "false"@ })].contains(x),
            None => false,
        },
{
    reveal_strlit("author_id = $author");
    reveal_strlit("$tag IN tags");
    reveal_strlit("publication_id = $publication");
    reveal_strlit("(title ~ $search OR content ~ $search)");
    let head = seq![
        "is_deleted = false"@,
        match f.status {
            Some(st) => "status = '"@ + st@ + "'"@,
            None => "status = 'published'"@,
        },
    ];
    let a = spec_cond_if(f.author is Some, "author_id = $author"@);
    let t = spec_cond_if(f.tag is Some, "$tag IN tags"@);
    let p = spec_cond_if(f.publication is Some, "publication_id = $publication"@);
    let feat = match f.featured {
        Some(v) => seq!["is_featured = "@ + (if v { "true"@ } else { "false"@ })],
        None => Seq::<Seq<char>>::empty(),
    };
    let tail = spec_cond_if(f.search is Some, "(title ~ $search OR content ~ $search)"@);
    assert(!spec_featured_like("author_id = $author"@));
    assert(!spec_featured_like("$tag IN tags"@));
    assert(!spec_featured_like("publication_id = $publication"@));
    assert(!spec_featured_like("(title ~ $search OR content ~ $search)"@));
    lemma_head_not_featured(f.status, x);
    lemma_cond_not_featured(f.author is Some, "author_id = $author"@, x);
    lemma_cond_not_featured(f.tag is Some, "$tag IN tags"@, x);
    lemma_cond_not_featured(f.publication is Some, "publication_id = $publication"@, x);
    lemma_cond_not_featured(f.search is Some, "(title ~ $search OR content ~ $search)"@, x);
    lemma_contains_concat(head, a, x);
    lemma_contains_concat(head + a, t, x);
    lemma_contains_concat(head + a + t, p, x);
    lemma_contains_concat(head + a + t + p, feat, x);
    lemma_contains_concat(head + a + t + p + feat, tail, x);
    assert(spec_list_conditions(f) == head + a + t + p + feat + tail);
    if f.featured is None {
        assert(!feat.contains(x));
    }
}

/// A listing asked for featured (or not featured) articles lists exactly those: its
/// conditions hold `is_featured = true` (or `is_featured = false`) and not the opposite
/// one; a listing with no such filter holds neither.
pub proof fn law_featured_filter(f: ArticleListFilter)
    ensures
        f.featured == Some(true) ==> spec_list_conditions(f).contains("is_featured = true"@),
        f.featured == Some(false) ==> spec_list_conditions(f).contains("is_featured = false"@),
        f.featured != Some(false) ==> !spec_list_conditions(f).contains("is_featured = false"@),
        f.featured != Some(true) ==> !spec_list_conditions(f).contains("is_featured = true"@),
{
    reveal_strlit("is_featured = ");
    reveal_strlit("true");
    reveal_strlit("false");
    reveal_strlit("is_featured = true");
    reveal_strlit("is_featured = false");
    let t = "is_featured = true"@;
    let fl = "is_featured = false"@;
    assert(spec_featured_like(t) && spec_featured_like(fl));
    assert(t != fl) by {
        assert(t.len() != fl.len());
    }
    lemma_others_not_featured(f, t);
    lemma_others_not_featured(f, fl);
    if let Some(v) = f.featured {
        let e = "is_featured = "@ + (if v { "true"@ } else { "false"@ });
        if v {
            assert(e =~= t);
        } else {
            assert(e =~= fl);
        }
        assert(seq![e][0] == e);
        if seq![e].contains(t) {
            let i = choose|i: int| 0 <= i < seq![e].len() && seq![e][i] == t;
        }
        if seq![e].contains(fl) {
            let i = choose|i: int| 0 <= i < seq![e].len() && seq![e][i] == fl;
        }
    }
}

/// The selected fields and the order of an article listing by its sort name: oldest
/// first, most applauded, trending (a score of claps, comments and views), or newest
/// first by default.
pub open spec fn spec_list_order(sort: Option<Seq<char>>) -> (Seq<char>, Seq<char>) {
    match sort {
        Some(s) => if s == "oldest"@ {
            ("*"@, "created_at ASC"@)
        } else if s == "popular"@ {
            ("*"@, "clap_count DESC, view_count DESC"@)
        } else if s == "trending"@ {
            (
                "*, (clap_count + comment_count * 2 + view_count * 0.1) as trending_score"@,
                "trending_score DESC"@,
            )
        } else {
            ("*"@, "created_at DESC"@)
        },
        None => ("*"@, "created_at DESC"@),
    }
}

/// Adds one fixed condition when `present`.
fn add_list_cond(conds: &mut Vec<String>, present: bool, cond: &str)
    ensures
        spec_strs(final(conds)@) == spec_strs(old(conds)@) + spec_cond_if(present, cond@),
{
    if present {
        push_str_item(conds, String::from_str(cond));
    }
    assert(spec_strs(conds@) =~= spec_strs(old(conds)@) + spec_cond_if(present, cond@));
}

impl ArticleService {
    /// The conditions of an article listing, in order.
    pub fn list_conditions(filter: &ArticleListFilter) -> (r: Vec<String>)
        ensures
            spec_strs(r@) == spec_list_conditions(*filter),
    {
        let mut conds: Vec<String> = Vec::new();
        push_str_item(&mut conds, String::from_str("is_deleted = false"));
        match &filter.status {
            Some(st) => {
                let mut c = String::from_str("status = '");
                c.append(st.as_str());
                c.append("'");
                push_str_item(&mut conds, c);
            },
            None => push_str_item(&mut conds, String::from_str("status = 'published'")),
        }
        add_list_cond(&mut conds, filter.author.is_some(), "author_id = $author");
        add_list_cond(&mut conds, filter.tag.is_some(), "$tag IN tags");
        add_list_cond(&mut conds, filter.publication.is_some(), "publication_id = $publication");
        match filter.featured {
            Some(b) => {
                let mut c = String::from_str("is_featured = ");
                if b {
                    c.append("true");
                } else {
                    c.append("false");
                }
                push_str_item(&mut conds, c);
            },
            None => {},
        }
        add_list_cond(&mut conds, filter.search.is_some(), "(title ~ $search OR content ~ $search)");
        assert(spec_strs(conds@) =~= spec_list_conditions(*filter));
        conds
    }

    /// The selected fields and the order of an article listing by its sort name.
    pub fn list_order(sort: Option<&str>) -> (r: (&'static str, &'static str))
        ensures
            (r.0@, r.1@) == spec_list_order(
                match sort {
                    Some(s) => Some(s@),
                    None => None,
                },
            ),
    {
        match sort {
            Some(s) => {
                if str_eq(s, "oldest") {
                    ("*", "created_at ASC")
                } else if str_eq(s, "popular") {
                    ("*", "clap_count DESC, view_count DESC")
                } else if str_eq(s, "trending") {
                    (
                        "*, (clap_count + comment_count * 2 + view_count * 0.1) as trending_score",
                        "trending_score DESC",
                    )
                } else {
                    ("*", "created_at DESC")
                }
            },
            None => ("*", "created_at DESC"),
        }
    }
}

} // verus!
