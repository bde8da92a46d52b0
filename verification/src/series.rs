//! Article series: visibility, authorship and ordering.

use crate::error::ErrorKind;
use crate::search::spec_cond_if;
use crate::text::{push_str_item, spec_strs, str_eq};
use vstd::prelude::*;

verus! {

/// An article's place in a series.
pub struct SeriesEntry {
    pub article_id: String,
    pub order_index: i32,
}

/// The entries of a series other than those of the article `removed`, in order.
pub open spec fn spec_kept(s: Seq<SeriesEntry>, removed: Seq<char>) -> Seq<SeriesEntry>
    decreases s.len(),
{
    if s.len() == 0 {
        Seq::empty()
    } else {
        let rest = spec_kept(s.drop_last(), removed);
        if s.last().article_id@ != removed {
            rest.push(s.last())
        } else {
            rest
        }
    }
}

/// Why a series operation was refused.
#[derive(Clone, Copy, Debug, PartialEq, Eq, Structural)]
pub enum SeriesError {
    /// Only the series author may do this.
    NotSeriesAuthor,
    /// Only one's own articles can join one's series.
    NotArticleAuthor,
    /// The article is already in the series.
    AlreadyInSeries,
    /// The user already subscribes to the series.
    AlreadySubscribed,
}

impl SeriesError {
    /// The category under which the refusal is reported.
    pub open spec fn spec_kind(self) -> ErrorKind {
        match self {
            SeriesError::NotSeriesAuthor => ErrorKind::Forbidden,
            SeriesError::NotArticleAuthor => ErrorKind::Forbidden,
            SeriesError::AlreadyInSeries => ErrorKind::Conflict,
            SeriesError::AlreadySubscribed => ErrorKind::Conflict,
        }
    }

    /// The category under which the refusal is reported.
    pub fn kind(&self) -> (k: ErrorKind)
        ensures
            k == self.spec_kind(),
    {
        match self {
            SeriesError::NotSeriesAuthor => ErrorKind::Forbidden,
            SeriesError::NotArticleAuthor => ErrorKind::Forbidden,
            SeriesError::AlreadyInSeries => ErrorKind::Conflict,
            SeriesError::AlreadySubscribed => ErrorKind::Conflict,
        }
    }
}

/// Series rules.
pub struct SeriesService {}

/// Whether the optional viewer is the given user.
pub open spec fn spec_viewer_is(viewer: Option<&str>, user: Seq<char>) -> bool {
    viewer matches Some(v) && v@ == user
}

impl SeriesService {
    /// Whether the viewer is the series author.
    fn viewer_is_author(viewer: Option<&str>, author_id: &str) -> (r: bool)
        ensures
            r == spec_viewer_is(viewer, author_id@),
    {
        match viewer {
            Some(v) => str_eq(v, author_id),
            None => false,
        }
    }

    /// Whether a series is shown to a viewer: public series to all, private ones only to
    /// their author.
    pub fn is_visible(is_public: bool, author_id: &str, viewer: Option<&str>) -> (r: bool)
        ensures
            r == (is_public || spec_viewer_is(viewer, author_id@)),
    {
        is_public || Self::viewer_is_author(viewer, author_id)
    }

    /// Whether a visit counts as a view: every visit but the author's.
    pub fn counts_as_view(author_id: &str, viewer: Option<&str>) -> (r: bool)
        ensures
            r == !spec_viewer_is(viewer, author_id@),
    {
        !Self::viewer_is_author(viewer, author_id)
    }

    /// Only the series author may change, delete or reorder a series.
    pub fn check_series_author(series_author_id: &str, user_id: &str) -> (r: Result<(), SeriesError>)
        ensures
            r is Ok <==> series_author_id@ == user_id@,
            r is Err ==> r == Err::<(), SeriesError>(SeriesError::NotSeriesAuthor),
    {
        if str_eq(series_author_id, user_id) {
            Ok(())
        } else {
            Err(SeriesError::NotSeriesAuthor)
        }
    }

    /// The checks of adding an article to a series, in order: the user writes the series, wrote
    /// the article, and the article is not in the series yet.
    pub fn check_add_article(series_author_id: &str, article_author_id: &str, user_id: &str, already_in: bool) -> (r:
        Result<(), SeriesError>)
        ensures
            series_author_id@ != user_id@ ==> r == Err::<(), SeriesError>(SeriesError::NotSeriesAuthor),
            series_author_id@ == user_id@ && article_author_id@ != user_id@ ==> r == Err::<(), SeriesError>(
                SeriesError::NotArticleAuthor,
            ),
            series_author_id@ == user_id@ && article_author_id@ == user_id@ && already_in ==> r == Err::<
                (),
                SeriesError,
            >(SeriesError::AlreadyInSeries),
            series_author_id@ == user_id@ && article_author_id@ == user_id@ && !already_in ==> r is Ok,
    {
        Self::check_series_author(series_author_id, user_id)?;
        if !str_eq(article_author_id, user_id) {
            return Err(SeriesError::NotArticleAuthor);
        }
        if already_in {
            return Err(SeriesError::AlreadyInSeries);
        }
        Ok(())
    }

    /// The position of an article added to a series: the requested one, else one past
    /// the highest position so far (0 for an empty series).
    pub fn next_order_index(requested: Option<i32>, max_index: Option<i64>) -> (r: i32)
        requires
            match max_index {
                Some(m) => i32::MIN <= (m as i32) + 1 <= i32::MAX,
                None => true,
            },
        ensures
            r == match requested {
                Some(i) => i as int,
                None => match max_index {
                    Some(m) => (m as i32) + 1,
                    None => 0,
                },
            },
    {
        match requested {
            Some(i) => i,
            None => {
                let m: i32 = match max_index {
                    Some(m) => #[verifier::truncate] (m as i32),
                    None => -1,
                };
                m + 1
            },
        }
    }

    /// The articles a series keeps when one is removed, renumbered: every entry but
    /// those of the removed article, in the order given (the store lists a series by
    /// position), at positions 0, 1, 2 and on; the series' article count is their number.
    pub fn renumber_after_removal(entries: &Vec<SeriesEntry>, removed: &str) -> (r: Vec<SeriesEntry>)
        requires
            entries@.len() <= i32::MAX,
        ensures
            r@.len() == spec_kept(entries@, removed@).len(),
            forall|k: int|
                0 <= k < r@.len() ==> (#[trigger] r@[k]).article_id@ == spec_kept(entries@, removed@)[k].article_id@
                    && r@[k].order_index == k,
    {
        let mut r: Vec<SeriesEntry> = Vec::new();
        let mut i: usize = 0;
        while i < entries.len()
            invariant
                i <= entries@.len(),
                entries@.len() <= i32::MAX,
                r@.len() == spec_kept(entries@.take(i as int), removed@).len(),
                r@.len() <= i,
                forall|k: int|
                    0 <= k < r@.len() ==> (#[trigger] r@[k]).article_id@ == spec_kept(
                        entries@.take(i as int),
                        removed@,
                    )[k].article_id@ && r@[k].order_index == k,
            decreases entries.len() - i,
        {
            let ghost before = r@;
            assert(entries@.take(i + 1).drop_last() =~= entries@.take(i as int));
            assert(entries@.take(i + 1).last() == entries@[i as int]);
            if !str_eq(entries[i].article_id.as_str(), removed) {
                let pos: i32 = r.len() as i32;
                r.push(SeriesEntry { article_id: entries[i].article_id.clone(), order_index: pos });
                assert forall|k: int| 0 <= k < r@.len() implies (#[trigger] r@[k]).article_id@ == spec_kept(
                    entries@.take(i + 1),
                    removed@,
                )[k].article_id@ && r@[k].order_index == k by {
                    if k < before.len() {
                        assert(r@[k] == before[k]);
                    }
                }
            }
            i = i + 1;
        }
        assert(entries@.take(entries@.len() as int) =~= entries@);
        r
    }

    /// A series subscription: not subscribed yet.
    pub fn check_subscribe(already_subscribed: bool) -> (r: Result<(), SeriesError>)
        ensures
            r is Ok <==> !already_subscribed,
            r is Err ==> r == Err::<(), SeriesError>(SeriesError::AlreadySubscribed),
    {
        if already_subscribed {
            Err(SeriesError::AlreadySubscribed)
        } else {
            Ok(())
        }
    }
}

/// The filters of a series listing.
pub struct SeriesListFilter {
    pub author_id: Option<String>,
    pub is_completed: Option<bool>,
    pub is_public: Option<bool>,
    pub search: Option<String>,
}

/// A boolean condition: the column test followed by `true` or `false`.
pub open spec fn spec_flag_cond(b: Option<bool>, prefix: Seq<char>) -> Seq<Seq<char>> {
    match b {
        Some(v) => seq![prefix + (if v { "true"@ } else { "false"@ })],
        None => Seq::empty(),
    }
}

/// The conditions of a series listing, one per filter that is set, in order.
pub open spec fn spec_series_conditions(f: SeriesListFilter) -> Seq<Seq<char>> {
    spec_cond_if(f.author_id is Some, "s.author_id = $author_id"@) + spec_flag_cond(f.is_completed, "s.is_completed = "@)
        + spec_flag_cond(f.is_public, "s.is_public = "@) + spec_cond_if(
        f.search is Some,
        "(s.title ~ $search OR s.description ~ $search)"@,
    )
}

/// The order of a series listing by its sort name: oldest first, most viewed,
/// alphabetical, or newest first by default.
pub open spec fn spec_series_order(sort: Option<Seq<char>>) -> Seq<char> {
    match sort {
        Some(s) => if s == "oldest"@ {
            "s.created_at ASC"@
        } else if s == "popular"@ {
            "s.view_count DESC"@
        } else if s == "alphabetical"@ {
            "s.title ASC"@
        } else {
            "s.created_at DESC"@
        },
        None => "s.created_at DESC"@,
    }
}

/// Adds a boolean condition when the flag is given.
fn add_flag_cond(conds: &mut Vec<String>, b: Option<bool>, prefix: &str)
    ensures
        spec_strs(final(conds)@) == spec_strs(old(conds)@) + spec_flag_cond(b, prefix@),
{
    match b {
        Some(v) => {
            let mut c = String::from_str(prefix);
            if v {
                c.append("true");
            } else {
                c.append("false");
            }
            push_str_item(conds, c);
        },
        None => {},
    }
    assert(spec_strs(conds@) =~= spec_strs(old(conds)@) + spec_flag_cond(b, prefix@));
}

impl SeriesService {
    /// The conditions of a series listing, in order.
    pub fn list_conditions(filter: &SeriesListFilter) -> (r: Vec<String>)
        ensures
            spec_strs(r@) == spec_series_conditions(*filter),
    {
        let mut conds: Vec<String> = Vec::new();
        if filter.author_id.is_some() {
            push_str_item(&mut conds, String::from_str("s.author_id = $author_id"));
        }
        assert(spec_strs(conds@) =~= spec_cond_if(filter.author_id is Some, "s.author_id = $author_id"@));
        add_flag_cond(&mut conds, filter.is_completed, "s.is_completed = ");
        add_flag_cond(&mut conds, filter.is_public, "s.is_public = ");
        if filter.search.is_some() {
            push_str_item(&mut conds, String::from_str("(s.title ~ $search OR s.description ~ $search)"));
        }
        assert(spec_strs(conds@) =~= spec_series_conditions(*filter));
        conds
    }

    /// The order of a series listing by its sort name.
    pub fn list_order(sort: Option<&str>) -> (r: &'static str)
        ensures
            r@ == spec_series_order(
                match sort {
                    Some(s) => Some(s@),
                    None => None,
                },
            ),
    {
        match sort {
            Some(s) => {
                if str_eq(s, "oldest") {
                    "s.created_at ASC"
                } else if str_eq(s, "popular") {
                    "s.view_count DESC"
                } else if str_eq(s, "alphabetical") {
                    "s.title ASC"
                } else {
                    "s.created_at DESC"
                }
            },
            None => "s.created_at DESC",
        }
    }
}

} // verus!
