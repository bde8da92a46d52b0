use rainbow_blog::highlight::HighlightField;
use rainbow_blog::search::{ArticleSearchFilter, SearchService, SearchType, SortBy, SortOrder};

fn empty_filter() -> ArticleSearchFilter {
    ArticleSearchFilter {
        q: None,
        author: None,
        tags: None,
        publication: None,
        series: None,
        date_from: None,
        date_to: None,
        min_reading_time: None,
        max_reading_time: None,
        min_claps: None,
        is_featured: None,
        is_paid: None,
        exclude_read: None,
        sort_by: None,
        sort_order: None,
    }
}

#[test]
fn search_conditions_default_to_published() {
    let c = SearchService::article_search_conditions(&empty_filter(), None);
    assert_eq!(c, vec!["a.status = 'published'".to_string()]);
    assert_eq!(SearchService::where_clause(&c), "WHERE a.status = 'published'");
    assert_eq!(SearchService::where_clause(&vec![]), "");
}

#[test]
fn search_conditions_follow_filters() {
    let mut f = empty_filter();
    f.q = Some("rust".to_string());
    f.tags = Some(vec![]);
    f.min_reading_time = Some(3);
    f.max_reading_time = Some(-1);
    f.min_claps = Some(100);
    f.is_featured = Some(true);
    f.is_paid = Some(false);
    f.exclude_read = Some(true);
    let c = SearchService::article_search_conditions(&f, Some("u1"));
    assert_eq!(
        c,
        vec![
            "a.status = 'published'".to_string(),
            "(a.title ~ $q OR a.content ~ $q OR a.excerpt ~ $q)".to_string(),
            "a.reading_time >= 3".to_string(),
            "a.reading_time <= -1".to_string(),
            "a.clap_count >= 100".to_string(),
            "a.is_featured = true".to_string(),
            "a.is_paid_content = false".to_string(),
            "a.id NOT IN (SELECT article_id FROM user_read_history WHERE user_id = 'u1')".to_string(),
        ]
    );
    // Excluding read articles needs a reader.
    let anonymous = SearchService::article_search_conditions(&f, None);
    assert_eq!(anonymous.len(), 7);
    let joined = SearchService::where_clause(&anonymous);
    assert!(joined.starts_with("WHERE a.status = 'published' AND (a.title"));
}

#[test]
fn search_conditions_for_relations() {
    let mut f = empty_filter();
    f.author = Some("bob".to_string());
    f.tags = Some(vec!["rust".to_string()]);
    f.publication = Some("pub".to_string());
    f.series = Some("ser".to_string());
    f.date_from = Some(1);
    f.date_to = Some(2);
    let c = SearchService::article_search_conditions(&f, None);
    assert_eq!(c.len(), 7);
    assert_eq!(c[1], "(u.username = $author OR u.display_name ~ $author)");
    assert!(c[2].contains("$tags"));
    assert_eq!(c[3], "p.slug = $publication");
    assert!(c[4].contains("$series"));
    assert_eq!(c[5], "a.published_at >= $date_from");
    assert_eq!(c[6], "a.published_at <= $date_to");
}

#[test]
fn search_order() {
    assert_eq!(SearchService::article_search_order(None, None, true), ("score() DESC, a.published_at DESC", "DESC"));
    assert_eq!(
        SearchService::article_search_order(Some(SortBy::Relevance), Some(SortOrder::Asc), false),
        ("a.popularity_score DESC, a.published_at DESC", "ASC")
    );
    assert_eq!(SearchService::article_search_order(Some(SortBy::Title), None, true), ("a.title", "DESC"));
    assert_eq!(SearchService::article_search_order(Some(SortBy::AuthorName), None, true).0, "u.display_name");
    assert_eq!(SearchService::article_search_order(Some(SortBy::ClapCount), None, true).0, "a.clap_count");
}

#[test]
fn facet_ranges() {
    let d = SearchService::date_range_facets();
    assert_eq!(d.iter().map(|f| f.days).collect::<Vec<_>>(), vec![1, 7, 30, 365]);
    assert_eq!(d[0].label, "过去24小时");
    let r = SearchService::reading_time_facets();
    assert_eq!(r.iter().map(|f| (f.min, f.max)).collect::<Vec<_>>(), vec![(0, 3), (3, 5), (5, 10), (10, 999)]);
    assert_eq!(r[3].label, "长文（> 10分钟）");
}

#[test]
fn snippet_marks_match() {
    let s = SearchService::create_highlight_snippet("Learning Rust today", "Rust");
    assert_eq!(s, "Learning <mark>Rust</mark> today");
    // The match is found ignoring case; only the exact query text is marked.
    let s = SearchService::create_highlight_snippet("Learning RUST today", "rust");
    assert_eq!(s, "Learning RUST today");
}

#[test]
fn snippet_cuts_long_text() {
    let text = format!("{}Rust{}", "a".repeat(50), "b".repeat(50));
    let s = SearchService::create_highlight_snippet(&text, "Rust");
    assert_eq!(s, format!("...{}<mark>Rust</mark>{}...", "a".repeat(30), "b".repeat(30)));
}

#[test]
fn snippet_without_match() {
    let long = "x".repeat(150);
    assert_eq!(SearchService::create_highlight_snippet(&long, "zzz"), format!("{}...", "x".repeat(100)));
    assert_eq!(SearchService::create_highlight_snippet("short", "zzz"), "short...");
}

#[test]
fn snippet_with_empty_query_marks_every_boundary() {
    assert_eq!(SearchService::create_highlight_snippet("ab", ""), "<mark></mark>a<mark></mark>b<mark></mark>");
}

#[test]
fn snippet_refused_where_cut_would_split_a_character() {
    // 30 bytes before the match falls inside a three-byte character.
    let text = format!("{}{}Rust", "中".repeat(10), "a".repeat(1));
    assert_eq!(SearchService::highlight_snippet(&text, "Rust"), None);
    let ok = format!("{}Rust", "中".repeat(10));
    assert_eq!(SearchService::highlight_snippet(&ok, "Rust"), Some(format!("{}<mark>Rust</mark>", "中".repeat(10))));
    assert_eq!(SearchService::highlight_snippet("Rust", "Rust"), Some("<mark>Rust</mark>".to_string()));
}

#[test]
fn highlight_fields() {
    assert_eq!(SearchService::highlight_field("Rust Tips", Some("more rust"), "rust"), Some(HighlightField::Title));
    assert_eq!(SearchService::highlight_field("Go Tips", Some("about RUST"), "rust"), Some(HighlightField::Excerpt));
    assert_eq!(SearchService::highlight_field("Go Tips", Some("about go"), "rust"), None);
    assert_eq!(SearchService::highlight_field("Go Tips", None, "rust"), None);
}

#[test]
fn advanced_search_paging_and_count() {
    let w = SearchService::advanced_search_window(None, None);
    assert_eq!((w.page, w.limit, w.offset), (1, 20, 0));
    let w = SearchService::advanced_search_window(Some(3), Some(500));
    assert_eq!((w.page, w.limit, w.offset), (3, 100, 200));
    let w = SearchService::advanced_search_window(Some(-2), Some(10));
    assert_eq!((w.page, w.limit, w.offset), (1, 10, 0));
    assert_eq!(SearchService::count_from_reply(Some(42)), 42);
    assert_eq!(SearchService::count_from_reply(None), 0);
}

#[test]
fn facet_date_ranges_end_now() {
    let now = 1_700_000_000;
    let b = SearchService::date_range_bounds(now);
    assert_eq!(
        b,
        vec![(now - 86_400, now), (now - 7 * 86_400, now), (now - 30 * 86_400, now), (now - 365 * 86_400, now)]
    );
}

#[test]
fn ascii_snippets_always_cut() {
    let text = "The quick brown fox jumps over the lazy dog, and then the QUICK fox rests in the shade of a tree.";
    let s = SearchService::highlight_snippet(text, "lazy").unwrap();
    assert!(s.contains("<mark>lazy</mark>"));
    assert!(SearchService::highlight_snippet("short", "zzz").is_some());
}

#[test]
fn advanced_search_plans_and_totals() {
    let w = SearchService::advanced_search_window(Some(2), Some(10));
    let p = SearchService::advanced_search_plan(None, false, w);
    assert_eq!(p.articles, Some((2, 10)));
    assert_eq!((p.users, p.tags, p.publications, p.series), (None, None, None, None));
    assert!(p.counts_articles && p.with_facets);
    let p = SearchService::advanced_search_plan(Some(SearchType::All), true, w);
    assert_eq!((p.articles, p.users, p.tags, p.publications, p.series), (Some((1, 5)), Some((1, 5)), Some((1, 5)), Some((1, 5)), Some((1, 5))));
    assert!(!p.counts_articles && !p.with_facets);
    let p = SearchService::advanced_search_plan(Some(SearchType::All), false, w);
    assert_eq!((p.articles, p.series), (None, None));
    let p = SearchService::advanced_search_plan(Some(SearchType::Users), true, w);
    assert_eq!((p.users, p.articles), (Some((2, 10)), None));
    let p = SearchService::advanced_search_plan(Some(SearchType::Tags), false, w);
    assert_eq!(p.tags, None);
    assert_eq!(SearchService::advanced_search_total(Some(SearchType::All), 99, 1, 2, 3, 4, 5), 15);
    assert_eq!(SearchService::advanced_search_total(None, 99, 1, 2, 3, 4, 5), 99);
    assert_eq!(SearchService::advanced_search_total(Some(SearchType::Tags), 99, 1, 2, 3, 4, 5), 3);
}
