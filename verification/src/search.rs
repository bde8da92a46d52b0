//! Search requests: which kinds are searched and how many results each contributes.

use crate::pagination::{page_window, spec_clamped_limit, spec_clamped_page, PageWindow};
use crate::text::{
    chars_of, i64_to_string, join_strs, push_str_item, spec_decimal, spec_join, spec_strs, spec_trim, string_of, sub_chars,
    trim_bounds,
};
use vstd::prelude::*;

verus! {

/// What a search looks for.
#[derive(Clone, Copy, Debug, PartialEq, Eq, Structural)]
pub enum SearchType {
    All,
    Articles,
    Users,
    Tags,
    Publications,
}

/// The searches one request runs: the trimmed term, and for each kind the page and size
/// it is searched with (none when the kind is not searched).
pub struct SearchPlan {
    pub term: String,
    pub articles: Option<(i32, i32)>,
    pub users: Option<(i32, i32)>,
    pub tags: Option<(i32, i32)>,
    pub publications: Option<(i32, i32)>,
}

/// Search rules.
pub struct SearchService {}

/// The page and size a kind is searched with under a search type: five results from the
/// first page of every kind for `All`, the request's window for the chosen kind, none
/// otherwise.
pub open spec fn spec_kind_window(t: SearchType, kind: SearchType, w: PageWindow) -> Option<(i32, i32)> {
    if t == SearchType::All {
        Some((1, 5))
    } else if t == kind {
        Some((w.page, w.limit))
    } else {
        None
    }
}

/// A typed search reads the kind it names with the request's own page and size, and no
/// other kind; a search of every kind reads five results from the first page of each.
pub proof fn law_typed_search_window(t: SearchType, kind: SearchType, w: PageWindow)
    ensures
        t != SearchType::All ==> spec_kind_window(t, t, w) == Some((w.page, w.limit)),
        t != SearchType::All && kind != t ==> spec_kind_window(t, kind, w) is None,
        spec_kind_window(SearchType::All, kind, w) == Some((1i32, 5i32)),
        t != SearchType::All && spec_kind_window(t, kind, w) is Some ==> spec_kind_window(t, kind, w) == Some((w.page, w.limit)),
{
}

impl SearchService {
    /// Plans `search`: a blank term searches nothing (`None`); otherwise the page
    /// defaults to 1 (at least 1), the size to 10 (at most 50), and the type to `All`.
    pub fn plan_search(q: &str, page: Option<i32>, limit: Option<i32>, search_type: Option<SearchType>) -> (r: Option<
        SearchPlan,
    >)
        requires
            i32::MIN <= (spec_clamped_page(page) - 1) * spec_clamped_limit(limit, 10, 50) <= i32::MAX,
        ensures
            spec_trim(q@).len() == 0 ==> r is None,
            spec_trim(q@).len() > 0 ==> (r matches Some(p) && {
                let t = match search_type {
                    Some(t) => t,
                    None => SearchType::All,
                };
                let w = PageWindow {
                    page: spec_clamped_page(page) as i32,
                    limit: spec_clamped_limit(limit, 10, 50) as i32,
                    offset: ((spec_clamped_page(page) - 1) * spec_clamped_limit(limit, 10, 50)) as i32,
                };
                &&& p.term@ == spec_trim(q@)
                &&& p.articles == spec_kind_window(t, SearchType::Articles, w)
                &&& p.users == spec_kind_window(t, SearchType::Users, w)
                &&& p.tags == spec_kind_window(t, SearchType::Tags, w)
                &&& p.publications == spec_kind_window(t, SearchType::Publications, w)
            }),
    {
        let cs = chars_of(q);
        let (lo, hi) = trim_bounds(&cs);
        if lo == hi {
            return None;
        }
        let term = string_of(&sub_chars(&cs, lo, hi));
        let w = page_window(page, limit, 10, 50);
        let t = match search_type {
            Some(t) => t,
            None => SearchType::All,
        };
        let pick = |kind: SearchType| -> (o: Option<(i32, i32)>)
            ensures
                o == spec_kind_window(t, kind, w),
            {
                if t == SearchType::All {
                    Some((1i32, 5i32))
                } else if t == kind {
                    Some((w.page, w.limit))
                } else {
                    None
                }
            };
        Some(
            SearchPlan {
                term,
                articles: pick(SearchType::Articles),
                users: pick(SearchType::Users),
                tags: pick(SearchType::Tags),
                publications: pick(SearchType::Publications),
            },
        )
    }

    /// The result count of a search: the number of results found over all kinds.
    pub fn total_results(articles: usize, users: usize, tags: usize, publications: usize) -> (t: i64)
        requires
            articles + users + tags + publications <= usize::MAX,
            articles + users + tags + publications <= i64::MAX,
        ensures
            t == articles + users + tags + publications,
    {
        (articles + users + tags + publications) as i64
    }

    /// How many suggestions of each source the search suggestions ask for: half of the
    /// limit (default 10, at most 20), rounded toward zero.
    pub fn suggestion_share(limit: Option<i32>) -> (n: i32)
        ensures
            n as int == {
                let l = spec_clamped_limit(limit, 10, 20);
                if l >= 0 {
                    l / 2
                } else {
                    -((-l) / 2)
                }
            },
    {
        let l: i32 = match limit {
            Some(l) => l,
            None => 10,
        };
        let l: i32 = if l > 20 { 20 } else { l };
        l / 2
    }
}

/// What an advanced article search orders by.
#[derive(Clone, Copy, Debug, PartialEq, Eq, Structural)]
pub enum SortBy {
    Relevance,
    PublishedAt,
    UpdatedAt,
    ClapCount,
    CommentCount,
    ViewCount,
    ReadingTime,
    Title,
    AuthorName,
}

/// The direction of an advanced article search's order.
#[derive(Clone, Copy, Debug, PartialEq, Eq, Structural)]
pub enum SortOrder {
    Asc,
    Desc,
}

/// The filters of an advanced article search; dates are Unix seconds.
pub struct ArticleSearchFilter {
    pub q: Option<String>,
    pub author: Option<String>,
    pub tags: Option<Vec<String>>,
    pub publication: Option<String>,
    pub series: Option<String>,
    pub date_from: Option<i64>,
    pub date_to: Option<i64>,
    pub min_reading_time: Option<i64>,
    pub max_reading_time: Option<i64>,
    pub min_claps: Option<i64>,
    pub is_featured: Option<bool>,
    pub is_paid: Option<bool>,
    pub exclude_read: Option<bool>,
    pub sort_by: Option<SortBy>,
    pub sort_order: Option<SortOrder>,
}

/// One condition when `present`, none otherwise.
pub open spec fn spec_cond_if(present: bool, cond: Seq<char>) -> Seq<Seq<char>> {
    if present {
        seq![cond]
    } else {
        Seq::empty()
    }
}

/// The text of a boolean in a query.
pub open spec fn spec_bool_text(b: bool) -> Seq<char> {
    if b {
        "true"@
    } else {
        "false"@
    }
}

/// A numeric condition: the column test followed by the number in decimal.
pub open spec fn spec_num_cond(n: Option<i64>, prefix: Seq<char>) -> Seq<Seq<char>> {
    match n {
        Some(v) => seq![prefix + spec_decimal(v as int)],
        None => Seq::empty(),
    }
}

/// A boolean condition: the column test followed by `true` or `false`.
pub open spec fn spec_bool_cond(b: Option<bool>, prefix: Seq<char>) -> Seq<Seq<char>> {
    match b {
        Some(v) => seq![prefix + spec_bool_text(v)],
        None => Seq::empty(),
    }
}

/// The conditions of an advanced article search, in the order they are added: only
/// published articles, then one condition per filter that is set (a tag filter only
/// when it names a tag; excluding read articles only when asked for and a reader is
/// known).
pub open spec fn spec_search_conditions(f: ArticleSearchFilter, user_id: Option<Seq<char>>) -> Seq<Seq<char>> {
    seq!["a.status = 'published'"@] + spec_cond_if(f.q is Some, "(a.title ~ $q OR a.content ~ $q OR a.excerpt ~ $q)"@)
        + spec_cond_if(f.author is Some, "(u.username = $author OR u.display_name ~ $author)"@) + spec_cond_if(
        f.tags matches Some(t) && t.len() > 0,
        "a.id IN (SELECT article_id FROM article_tag WHERE tag_id IN (SELECT id FROM tag WHERE name IN $tags))"@,
    ) + spec_cond_if(f.publication is Some, "p.slug = $publication"@) + spec_cond_if(
        f.series is Some,
        "a.id IN (SELECT article_id FROM series_article WHERE series_id = (SELECT id FROM series WHERE slug = $series))"@,
    ) + spec_cond_if(f.date_from is Some, "a.published_at >= $date_from"@) + spec_cond_if(
        f.date_to is Some,
        "a.published_at <= $date_to"@,
    ) + spec_num_cond(f.min_reading_time, "a.reading_time >= "@) + spec_num_cond(
        f.max_reading_time,
        "a.reading_time <= "@,
    ) + spec_num_cond(f.min_claps, "a.clap_count >= "@) + spec_bool_cond(f.is_featured, "a.is_featured = "@)
        + spec_bool_cond(f.is_paid, "a.is_paid_content = "@) + match (f.exclude_read, user_id) {
        (Some(true), Some(u)) => seq![
            "a.id NOT IN (SELECT article_id FROM user_read_history WHERE user_id = '"@ + u + "')"@,
        ],
        _ => Seq::<Seq<char>>::empty(),
    }
}

/// The column an advanced article search orders by: relevance is the match score then
/// the publication time when a text query is given, popularity then publication time
/// otherwise; relevance is the default.
pub open spec fn spec_sort_column(sort_by: Option<SortBy>, has_query: bool) -> Seq<char> {
    match sort_by {
        None => if has_query {
            "score() DESC, a.published_at DESC"@
        } else {
            "a.popularity_score DESC, a.published_at DESC"@
        },
        Some(SortBy::Relevance) => if has_query {
            "score() DESC, a.published_at DESC"@
        } else {
            "a.popularity_score DESC, a.published_at DESC"@
        },
        Some(SortBy::PublishedAt) => "a.published_at"@,
        Some(SortBy::UpdatedAt) => "a.updated_at"@,
        Some(SortBy::ClapCount) => "a.clap_count"@,
        Some(SortBy::CommentCount) => "a.comment_count"@,
        Some(SortBy::ViewCount) => "a.view_count"@,
        Some(SortBy::ReadingTime) => "a.reading_time"@,
        Some(SortBy::Title) => "a.title"@,
        Some(SortBy::AuthorName) => "u.display_name"@,
    }
}

/// Whether a sort names one field of the article (or its author) to order by.
pub open spec fn spec_is_field_sort(s: SortBy) -> bool {
    s != SortBy::Relevance
}

/// Sorting by a field orders by that field's own column, whatever the query: published
/// and updated time, claps, comments, views, reading time and title order by the
/// article's `published_at`, `updated_at`, `clap_count`, `comment_count`, `view_count`,
/// `reading_time` and `title`, and the author's name by `u.display_name`; two different
/// field sorts never share a column, and none orders by relevance.
pub proof fn law_sort_by_field_column(a: SortBy, b: SortBy, q1: bool, q2: bool)
    ensures
        spec_sort_column(Some(SortBy::PublishedAt), q1) == "a.published_at"@,
        spec_sort_column(Some(SortBy::UpdatedAt), q1) == "a.updated_at"@,
        spec_sort_column(Some(SortBy::ClapCount), q1) == "a.clap_count"@,
        spec_sort_column(Some(SortBy::CommentCount), q1) == "a.comment_count"@,
        spec_sort_column(Some(SortBy::ViewCount), q1) == "a.view_count"@,
        spec_sort_column(Some(SortBy::ReadingTime), q1) == "a.reading_time"@,
        spec_sort_column(Some(SortBy::Title), q1) == "a.title"@,
        spec_sort_column(Some(SortBy::AuthorName), q1) == "u.display_name"@,
        spec_is_field_sort(a) ==> spec_sort_column(Some(a), q1) == spec_sort_column(Some(a), q2),
        spec_is_field_sort(a) && spec_is_field_sort(b) && a != b ==> spec_sort_column(Some(a), q1) != spec_sort_column(
            Some(b),
            q2,
        ),
        spec_is_field_sort(a) ==> spec_sort_column(Some(a), q1) != spec_sort_column(None, q2),
        spec_sort_column(Some(SortBy::Relevance), q1) == spec_sort_column(None, q1),
{
    reveal_strlit("a.published_at");
    reveal_strlit("a.updated_at");
    reveal_strlit("a.clap_count");
    reveal_strlit("a.comment_count");
    reveal_strlit("a.view_count");
    reveal_strlit("a.reading_time");
    reveal_strlit("a.title");
    reveal_strlit("u.display_name");
    reveal_strlit("score() DESC, a.published_at DESC");
    reveal_strlit("a.popularity_score DESC, a.published_at DESC");
    assert("a.published_at"@[2] == 'p' && "a.published_at"@[3] == 'u');
    assert("a.updated_at"@[2] == 'u' && "a.updated_at"@[3] == 'p');
    assert("a.clap_count"@[2] == 'c' && "a.clap_count"@[3] == 'l');
    assert("a.comment_count"@[2] == 'c' && "a.comment_count"@[3] == 'o');
    assert("a.view_count"@[2] == 'v' && "a.view_count"@[3] == 'i');
    assert("a.reading_time"@[2] == 'r' && "a.reading_time"@[3] == 'e');
    assert("a.title"@[2] == 't' && "a.title"@[3] == 'i');
    assert("u.display_name"@[2] == 'd' && "u.display_name"@[3] == 'i');
    assert("score() DESC, a.published_at DESC"@[2] == 'o' && "score() DESC, a.published_at DESC"@[3] == 'r');
    assert("a.popularity_score DESC, a.published_at DESC"@[2] == 'p'
        && "a.popularity_score DESC, a.published_at DESC"@[3] == 'o');
    if spec_is_field_sort(a) {
        let ca = spec_sort_column(Some(a), q1);
        assert(ca.len() > 3);
        if spec_is_field_sort(b) && a != b {
            let cb = spec_sort_column(Some(b), q2);
            assert(ca[2] != cb[2] || ca[3] != cb[3]);
        }
        let cn = spec_sort_column(None, q2);
        assert(ca[2] != cn[2] || ca[3] != cn[3]);
    }
}

/// The direction of the order: descending unless ascending is asked for.
pub open spec fn spec_sort_direction(sort_order: Option<SortOrder>) -> Seq<char> {
    match sort_order {
        Some(SortOrder::Asc) => "ASC"@,
        _ => "DESC"@,
    }
}

/// Adds one fixed condition when `present`.
fn add_cond_if(conds: &mut Vec<String>, present: bool, cond: &str)
    ensures
        spec_strs(final(conds)@) == spec_strs(old(conds)@) + spec_cond_if(present, cond@),
{
    if present {
        push_str_item(conds, String::from_str(cond));
        assert(spec_strs(conds@) =~= spec_strs(old(conds)@) + spec_cond_if(present, cond@));
    } else {
        assert(spec_strs(conds@) =~= spec_strs(old(conds)@) + spec_cond_if(present, cond@));
    }
}

/// Adds one numeric condition when the number is given.
fn add_num_cond(conds: &mut Vec<String>, n: Option<i64>, prefix: &str)
    ensures
        spec_strs(final(conds)@) == spec_strs(old(conds)@) + spec_num_cond(n, prefix@),
{
    match n {
        Some(v) => {
            let mut c = String::from_str(prefix);
            let d = i64_to_string(v);
            c.append(d.as_str());
            push_str_item(conds, c);
        },
        None => {},
    }
    assert(spec_strs(conds@) =~= spec_strs(old(conds)@) + spec_num_cond(n, prefix@));
}

/// Adds one boolean condition when the flag is given.
fn add_bool_cond(conds: &mut Vec<String>, b: Option<bool>, prefix: &str)
    ensures
        spec_strs(final(conds)@) == spec_strs(old(conds)@) + spec_bool_cond(b, prefix@),
{
    match b {
        Some(v) => {
            let mut c = String::from_str(prefix);
            if v {
                c.append("true");
            } else {
                c.append("false");
            }
            push_str_item(conds, c);
        },
        None => {},
    }
    assert(spec_strs(conds@) =~= spec_strs(old(conds)@) + spec_bool_cond(b, prefix@));
}

impl SearchService {
    /// The conditions of an advanced article search, in order.
    pub fn article_search_conditions(filter: &ArticleSearchFilter, user_id: Option<&str>) -> (r: Vec<String>)
        ensures
            spec_strs(r@) == spec_search_conditions(
                *filter,
                match user_id {
                    Some(u) => Some(u@),
                    None => None,
                },
            ),
    {
        let mut conds: Vec<String> = Vec::new();
        push_str_item(&mut conds, String::from_str("a.status = 'published'"));
        assert(spec_strs(conds@) =~= seq!["a.status = 'published'"@]);
        add_cond_if(&mut conds, filter.q.is_some(), "(a.title ~ $q OR a.content ~ $q OR a.excerpt ~ $q)");
        add_cond_if(&mut conds, filter.author.is_some(), "(u.username = $author OR u.display_name ~ $author)");
        let has_tags = match &filter.tags {
            Some(t) => t.len() > 0,
            None => false,
        };
        add_cond_if(
            &mut conds,
            has_tags,
            "a.id IN (SELECT article_id FROM article_tag WHERE tag_id IN (SELECT id FROM tag WHERE name IN $tags))",
        );
        add_cond_if(&mut conds, filter.publication.is_some(), "p.slug = $publication");
        add_cond_if(
            &mut conds,
            filter.series.is_some(),
            "a.id IN (SELECT article_id FROM series_article WHERE series_id = (SELECT id FROM series WHERE slug = $series))",
        );
        add_cond_if(&mut conds, filter.date_from.is_some(), "a.published_at >= $date_from");
        add_cond_if(&mut conds, filter.date_to.is_some(), "a.published_at <= $date_to");
        add_num_cond(&mut conds, filter.min_reading_time, "a.reading_time >= ");
        add_num_cond(&mut conds, filter.max_reading_time, "a.reading_time <= ");
        add_num_cond(&mut conds, filter.min_claps, "a.clap_count >= ");
        add_bool_cond(&mut conds, filter.is_featured, "a.is_featured = ");
        add_bool_cond(&mut conds, filter.is_paid, "a.is_paid_content = ");
        match (filter.exclude_read, user_id) {
            (Some(true), Some(u)) => {
                let mut c = String::from_str("a.id NOT IN (SELECT article_id FROM user_read_history WHERE user_id = '");
                c.append(u);
                c.append("')");
                push_str_item(&mut conds, c);
            },
            _ => {},
        }
        assert(spec_strs(conds@) =~= spec_search_conditions(
            *filter,
            match user_id {
                Some(u) => Some(u@),
                None => None,
            },
        ));
        conds
    }

    /// The `WHERE` clause of a list of conditions: `WHERE` and the conditions joined with
    /// `AND`.
    pub fn where_clause(conds: &Vec<String>) -> (r: String)
        ensures
            conds@.len() == 0 ==> r@ == Seq::<char>::empty(),
            conds@.len() > 0 ==> r@ == "WHERE "@ + spec_join(spec_strs(conds@), " AND "@),
    {
        if conds.len() == 0 {
            return String::new();
        }
        let mut r = String::from_str("WHERE ");
        let j = join_strs(conds, " AND ");
        r.append(j.as_str());
        r
    }

    /// The order of an advanced article search: the column (or columns) and the direction.
    pub fn article_search_order(sort_by: Option<SortBy>, sort_order: Option<SortOrder>, has_query: bool) -> (r: (
        &'static str,
        &'static str,
    ))
        ensures
            r.0@ == spec_sort_column(sort_by, has_query),
            r.1@ == spec_sort_direction(sort_order),
    {
        let relevance: &'static str = if has_query {
            "score() DESC, a.published_at DESC"
        } else {
            "a.popularity_score DESC, a.published_at DESC"
        };
        let column: &'static str = match sort_by {
            None => relevance,
            Some(SortBy::Relevance) => relevance,
            Some(SortBy::PublishedAt) => "a.published_at",
            Some(SortBy::UpdatedAt) => "a.updated_at",
            Some(SortBy::ClapCount) => "a.clap_count",
            Some(SortBy::CommentCount) => "a.comment_count",
            Some(SortBy::ViewCount) => "a.view_count",
            Some(SortBy::ReadingTime) => "a.reading_time",
            Some(SortBy::Title) => "a.title",
            Some(SortBy::AuthorName) => "u.display_name",
        };
        let direction: &'static str = match sort_order {
            Some(SortOrder::Asc) => "ASC",
            _ => "DESC",
        };
        (column, direction)
    }
}

/// One of the publication-date ranges a search offers: the articles of the last `days`
/// days.
pub struct DateRangeFacetSpec {
    pub label: &'static str,
    pub days: i64,
}

/// The searches an advanced search runs: for each kind the page and size it is searched
/// with (none when not searched), whether the article total comes from a count query, and
/// whether facets are gathered.
pub struct AdvancedSearchPlan {
    pub articles: Option<(i32, i32)>,
    pub users: Option<(i32, i32)>,
    pub tags: Option<(i32, i32)>,
    pub publications: Option<(i32, i32)>,
    pub series: Option<(i32, i32)>,
    pub counts_articles: bool,
    pub with_facets: bool,
}

/// The page and size a kind is searched with in an advanced search of type `t`: five
/// results of the first page of every kind for `All` when there is a query; the request's
/// window for articles under `Articles` (query or not), and for users, tags or
/// publications under their type when there is a query; none otherwise.
pub open spec fn spec_advanced_window(t: SearchType, kind: SearchType, has_query: bool, w: PageWindow) -> Option<(i32, i32)> {
    if t == SearchType::All {
        if has_query {
            Some((1, 5))
        } else {
            None
        }
    } else if t == kind && (t == SearchType::Articles || has_query) {
        Some((w.page, w.limit))
    } else {
        None
    }
}

/// The number of days each publication-date range of the search facets covers, in order./// The number of days each publication-date range of the search facets covers, in order.
pub open spec fn spec_facet_days() -> Seq<i64> {
    seq![1i64, 7i64, 30i64, 365i64]
}

/// One of the reading-time ranges a search offers, in minutes.
pub struct ReadingTimeFacetSpec {
    pub label: &'static str,
    pub min: i32,
    pub max: i32,
}

impl SearchService {
    /// The publication-date ranges of the search facets: the last
    /// day, week, month and year.
    pub fn date_range_facets() -> (r: Vec<DateRangeFacetSpec>)
        ensures
            r@.len() == 4,
            r@[0].label@ == "过去24小时"@ && r@[0].days == 1,
            r@[1].label@ == "过去一周"@ && r@[1].days == 7,
            r@[2].label@ == "过去一个月"@ && r@[2].days == 30,
            r@[3].label@ == "过去一年"@ && r@[3].days == 365,
    {
        let mut r: Vec<DateRangeFacetSpec> = Vec::new();
        r.push(DateRangeFacetSpec { label: "过去24小时", days: 1 });
        r.push(DateRangeFacetSpec { label: "过去一周", days: 7 });
        r.push(DateRangeFacetSpec { label: "过去一个月", days: 30 });
        r.push(DateRangeFacetSpec { label: "过去一年", days: 365 });
        r
    }

    /// The instants each publication-date range of the search facets spans at time
    /// `now` (Unix seconds): from its number of days before `now`, to `now`.
    pub fn date_range_bounds(now: i64) -> (r: Vec<(i64, i64)>)
        requires
            now >= i64::MIN + 365 * 86400,
        ensures
            r@.len() == 4,
            forall|k: int| 0 <= k < 4 ==> (#[trigger] r@[k]).0 == now - spec_facet_days()[k] * 86400 && r@[k].1 == now,
    {
        let facets = Self::date_range_facets();
        let mut r: Vec<(i64, i64)> = Vec::new();
        let mut k: usize = 0;
        while k < facets.len()
            invariant
                facets@.len() == 4,
                facets@[0].days == 1 && facets@[1].days == 7 && facets@[2].days == 30 && facets@[3].days == 365,
                now >= i64::MIN + 365 * 86400,
                k <= 4,
                r@.len() == k,
                forall|j: int| 0 <= j < k ==> (#[trigger] r@[j]).0 == now - spec_facet_days()[j] * 86400 && r@[j].1 == now,
            decreases 4 - k,
        {
            assert(facets@[k as int].days == spec_facet_days()[k as int]);
            let from: i64 = now - facets[k].days * 86400;
            r.push((from, now));
            k = k + 1;
        }
        r
    }

    /// The page, size and offset of an advanced search: the page defaults to 1 (at
    /// least 1), the size to 20 (at most 100), and the offset is `(page - 1) * size`.
    pub fn advanced_search_window(page: Option<i32>, limit: Option<i32>) -> (w: PageWindow)
        requires
            i32::MIN <= (spec_clamped_page(page) - 1) * spec_clamped_limit(limit, 20, 100) <= i32::MAX,
        ensures
            w.page == spec_clamped_page(page),
            w.limit == spec_clamped_limit(limit, 20, 100),
            w.offset == (w.page - 1) * w.limit,
    {
        page_window(page, limit, 20, 100)
    }

    /// Plans an advanced search (type `Articles` when none is given); series are
    /// searched only under `All`.
    pub fn advanced_search_plan(search_type: Option<SearchType>, has_query: bool, w: PageWindow) -> (p:
        AdvancedSearchPlan)
        ensures
            ({
                let t = match search_type {
                    Some(t) => t,
                    None => SearchType::Articles,
                };
                &&& p.articles == spec_advanced_window(t, SearchType::Articles, has_query, w)
                &&& p.users == spec_advanced_window(t, SearchType::Users, has_query, w)
                &&& p.tags == spec_advanced_window(t, SearchType::Tags, has_query, w)
                &&& p.publications == spec_advanced_window(t, SearchType::Publications, has_query, w)
                &&& p.series == (if t == SearchType::All && has_query {
                    Some((1i32, 5i32))
                } else {
                    None
                })
                &&& p.counts_articles == (t == SearchType::Articles)
                &&& p.with_facets == (t == SearchType::Articles)
            }),
    {
        let t = match search_type {
            Some(t) => t,
            None => SearchType::Articles,
        };
        let pick = |kind: SearchType| -> (o: Option<(i32, i32)>)
            ensures
                o == spec_advanced_window(t, kind, has_query, w),
            {
                if t == SearchType::All {
                    if has_query {
                        Some((1i32, 5i32))
                    } else {
                        None
                    }
                } else if t == kind && (t == SearchType::Articles || has_query) {
                    Some((w.page, w.limit))
                } else {
                    None
                }
            };
        let is_articles = t == SearchType::Articles;
        AdvancedSearchPlan {
            articles: pick(SearchType::Articles),
            users: pick(SearchType::Users),
            tags: pick(SearchType::Tags),
            publications: pick(SearchType::Publications),
            series: if t == SearchType::All && has_query {
                Some((1i32, 5i32))
            } else {
                None
            },
            counts_articles: is_articles,
            with_facets: is_articles,
        }
    }

    /// The result total of an advanced search (type `Articles` when none is given): the
    /// number of results of every kind for `All`, the count query's total for `Articles`,
    /// and the number of results found otherwise.
    pub fn advanced_search_total(
        search_type: Option<SearchType>,
        article_count: i64,
        articles: usize,
        users: usize,
        tags: usize,
        publications: usize,
        series: usize,
    ) -> (t: i64)
        requires
            articles + users + tags + publications + series <= i64::MAX,
        ensures
            t == match search_type {
                Some(SearchType::All) => articles + users + tags + publications + series,
                Some(SearchType::Users) => users as int,
                Some(SearchType::Tags) => tags as int,
                Some(SearchType::Publications) => publications as int,
                _ => article_count as int,
            },
    {
        match search_type {
            Some(SearchType::All) => (articles as i64) + (users as i64) + (tags as i64) + (publications as i64) + (
            series as i64),
            Some(SearchType::Users) => users as i64,
            Some(SearchType::Tags) => tags as i64,
            Some(SearchType::Publications) => publications as i64,
            _ => article_count,
        }
    }

    /// The total an article-search count query reports:    /// The total an article-search count query reports: its `total`, or 0 when the
    /// reply has none.
    pub fn count_from_reply(total: Option<i64>) -> (n: i64)
        ensures
            n == match total {
                Some(t) => t,
                None => 0,
            },
    {
        match total {
            Some(t) => t,
            None => 0,
        }
    }

    /// The reading-time ranges of the search facets, in minutes.
    pub fn reading_time_facets() -> (r: Vec<ReadingTimeFacetSpec>)
        ensures
            r@.len() == 4,
            r@[0].label@ == "快速阅读（< 3分钟）"@ && r@[0].min == 0 && r@[0].max == 3,
            r@[1].label@ == "短文（3-5分钟）"@ && r@[1].min == 3 && r@[1].max == 5,
            r@[2].label@ == "中等（5-10分钟）"@ && r@[2].min == 5 && r@[2].max == 10,
            r@[3].label@ == "长文（> 10分钟）"@ && r@[3].min == 10 && r@[3].max == 999,
    {
        let mut r: Vec<ReadingTimeFacetSpec> = Vec::new();
        r.push(ReadingTimeFacetSpec { label: "快速阅读（< 3分钟）", min: 0, max: 3 });
        r.push(ReadingTimeFacetSpec { label: "短文（3-5分钟）", min: 3, max: 5 });
        r.push(ReadingTimeFacetSpec { label: "中等（5-10分钟）", min: 5, max: 10 });
        r.push(ReadingTimeFacetSpec { label: "长文（> 10分钟）", min: 10, max: 999 });
        r
    }
}

} // verus!
