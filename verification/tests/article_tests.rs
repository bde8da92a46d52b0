use rainbow_blog::article::{
    ArticleError, ArticleFields, ArticleListFilter, ArticlePatch, ArticleService, ArticleStatus, PublicationState, SlugStep,
    ClapRecord, MAX_CLAPS_PER_READER,
};
use rainbow_blog::error::ErrorKind;
use rainbow_blog::user::{UserError, UserService, UsernameStep};

#[test]
fn new_articles_are_drafts_by_default() {
    let s = ArticleService::initial_state(None, 5);
    assert_eq!(s.status, ArticleStatus::Draft);
    assert_eq!(s.published_at, None);
    assert_eq!(s.updated_at, 5);
    let s = ArticleService::initial_state(Some(true), 5);
    assert_eq!(s.status, ArticleStatus::Draft);
    let s = ArticleService::initial_state(Some(false), 5);
    assert_eq!(s.status, ArticleStatus::Published);
    assert_eq!(s.published_at, Some(5));
    assert_eq!(s.last_edited_at, None);
}

#[test]
fn edits_stamp_times() {
    let draft = ArticleService::initial_state(None, 1);
    let s = ArticleService::apply_edit(draft, Some(ArticleStatus::Published), true, 9);
    assert_eq!(s.status, ArticleStatus::Published);
    assert_eq!(s.published_at, Some(9));
    assert_eq!(s.last_edited_at, Some(9));
    assert_eq!(s.updated_at, 9);
    let again = ArticleService::apply_edit(s, Some(ArticleStatus::Published), false, 12);
    assert_eq!(again.published_at, Some(9));
    assert_eq!(again.last_edited_at, Some(9));
    assert_eq!(again.updated_at, 12);
}

#[test]
fn publish_and_unpublish() {
    let draft = ArticleService::initial_state(None, 1);
    assert_eq!(ArticleService::publish(draft, "a", "b", 2), Err(ArticleError::NotAuthor));
    let published = ArticleService::publish(draft, "a", "a", 2).unwrap();
    assert_eq!(published.status, ArticleStatus::Published);
    assert_eq!(published.published_at, Some(2));
    assert_eq!(ArticleService::publish(published, "a", "a", 3), Err(ArticleError::AlreadyPublished));
    let back = ArticleService::unpublish(published, "a", "a", 4).unwrap();
    assert_eq!(
        back,
        PublicationState { status: ArticleStatus::Draft, published_at: Some(2), updated_at: 4, last_edited_at: None }
    );
    assert_eq!(ArticleService::unpublish(back, "a", "a", 5), Err(ArticleError::AlreadyDraft));
    assert_eq!(ArticleService::unpublish(published, "a", "x", 5), Err(ArticleError::NotAuthor));
    assert_eq!(ArticleService::check_author("a", "a"), Ok(()));
}

#[test]
fn clap_limits() {
    assert_eq!(MAX_CLAPS_PER_READER, 50);
    assert_eq!(ArticleService::apply_claps(false, None, 1), Err(ArticleError::NotPublished));
    assert_eq!(ArticleService::apply_claps(true, None, 50), Ok(50));
    assert_eq!(ArticleService::apply_claps(true, None, 51), Err(ArticleError::TooManyClaps));
    assert_eq!(ArticleService::apply_claps(true, Some(40), 10), Ok(50));
    assert_eq!(ArticleService::apply_claps(true, Some(40), 11), Err(ArticleError::TooManyClaps));
}

#[test]
fn article_error_kinds() {
    assert_eq!(ArticleError::NotAuthor.kind(), ErrorKind::Authorization);
    assert_eq!(ArticleError::AlreadyPublished.kind(), ErrorKind::BadRequest);
    assert_eq!(ArticleError::AlreadyDraft.kind(), ErrorKind::BadRequest);
    assert_eq!(ArticleError::NotPublished.kind(), ErrorKind::Forbidden);
    assert_eq!(ArticleError::TooManyClaps.kind(), ErrorKind::BadRequest);
    assert_eq!(ArticleError::SlugExhausted.kind(), ErrorKind::Internal);
}

#[test]
fn slug_candidates() {
    assert_eq!(ArticleService::slug_candidate("my-post", 0), "my-post");
    assert_eq!(ArticleService::slug_candidate("my-post", 1), "my-post-1");
    assert_eq!(ArticleService::slug_candidate("my-post", 42), "my-post-42");
    assert!(matches!(ArticleService::slug_search_step("p", 0, false), SlugStep::Use(s) if s == "p"));
    assert!(matches!(ArticleService::slug_search_step("p", 0, true), SlugStep::Try(s) if s == "p-1"));
    assert!(matches!(ArticleService::slug_search_step("p", 98, true), SlugStep::Try(s) if s == "p-99"));
    assert!(matches!(ArticleService::slug_search_step("p", 99, true), SlugStep::Exhausted));
}

#[test]
fn usernames_from_email() {
    assert_eq!(UserService::base_username("John.Doe+x@example.com", None), "johndoex");
    assert_eq!(UserService::base_username("ab@example.com", None), "user_ab");
    assert_eq!(UserService::base_username("a_b-c@x.io", None), "a_b-c");
    assert_eq!(UserService::base_username("whatever@x.io", Some("Chosen")), "Chosen");
}

#[test]
fn username_candidates() {
    assert_eq!(UserService::username_candidate("bob", 0), "bob");
    assert_eq!(UserService::username_candidate("bob", 7), "bob7");
    assert!(matches!(UserService::username_search_step("bob", 3, false), UsernameStep::Use(s) if s == "bob3"));
    assert!(matches!(UserService::username_search_step("bob", 3, true), UsernameStep::Try(s) if s == "bob4"));
    assert!(matches!(UserService::username_search_step("bob", 999, true), UsernameStep::Exhausted));
    assert_eq!(UserError::UsernameExhausted.kind(), ErrorKind::Internal);
}

#[test]
fn new_profile_username_candidates() {
    assert_eq!(UserService::profile_username_candidate("bob", 0), "bob");
    assert_eq!(UserService::profile_username_candidate("bob", 12), "bob_12");
    assert!(matches!(UserService::profile_username_search_step("bob", 0, true), UsernameStep::Try(s) if s == "bob_1"));
    assert!(matches!(UserService::profile_username_search_step("bob", 98, true), UsernameStep::Try(s) if s == "bob_99"));
    assert!(matches!(UserService::profile_username_search_step("bob", 99, true), UsernameStep::Exhausted));
    assert!(matches!(UserService::profile_username_search_step("bob", 5, false), UsernameStep::Use(s) if s == "bob_5"));
}

#[test]
fn stored_status_names() {
    assert_eq!(ArticleService::parse_article_status(Some("published")), ArticleStatus::Published);
    assert_eq!(ArticleService::parse_article_status(Some("unlisted")), ArticleStatus::Unlisted);
    assert_eq!(ArticleService::parse_article_status(Some("archived")), ArticleStatus::Archived);
    assert_eq!(ArticleService::parse_article_status(Some("draft")), ArticleStatus::Draft);
    assert_eq!(ArticleService::parse_article_status(None), ArticleStatus::Draft);
    // An unlisted article can be published and taken back to draft.
    let unlisted = PublicationState { status: ArticleStatus::Unlisted, published_at: None, updated_at: 0, last_edited_at: None };
    assert_eq!(ArticleService::publish(unlisted, "a", "a", 3).unwrap().published_at, Some(3));
    assert_eq!(ArticleService::unpublish(unlisted, "a", "a", 3).unwrap().status, ArticleStatus::Draft);
}

fn fields() -> ArticleFields {
    ArticleFields {
        title: "Old".to_string(),
        subtitle: Some("sub".to_string()),
        excerpt: None,
        cover_image_url: None,
        publication_id: None,
        series_id: Some("series:1".to_string()),
        series_order: Some(2),
        is_paid_content: false,
        seo_title: None,
        seo_description: None,
        seo_keywords: vec!["a".to_string()],
    }
}

fn no_patch() -> ArticlePatch {
    ArticlePatch {
        title: None,
        subtitle: None,
        excerpt: None,
        cover_image_url: None,
        publication_id: None,
        series_id: None,
        series_order: None,
        is_paid_content: None,
        seo_title: None,
        seo_description: None,
        seo_keywords: None,
    }
}

#[test]
fn edits_replace_only_given_fields() {
    let (f, changed) = ArticleService::apply_patch(fields(), no_patch());
    assert!(!changed);
    assert_eq!(f.title, "Old");
    assert_eq!(f.subtitle, Some("sub".to_string()));
    assert_eq!(f.series_order, Some(2));
    assert_eq!(f.seo_keywords, vec!["a".to_string()]);
    let mut p = no_patch();
    p.title = Some("New".to_string());
    p.excerpt = Some("ex".to_string());
    p.is_paid_content = Some(true);
    p.seo_keywords = Some(vec!["x".to_string(), "y".to_string()]);
    let (f, changed) = ArticleService::apply_patch(fields(), p);
    assert!(changed);
    assert_eq!(f.title, "New");
    assert_eq!(f.excerpt, Some("ex".to_string()));
    assert!(f.is_paid_content);
    assert_eq!(f.series_id, Some("series:1".to_string()));
    assert_eq!(f.seo_keywords, vec!["x".to_string(), "y".to_string()]);
    let mut same = no_patch();
    same.title = Some("Old".to_string());
    assert!(!ArticleService::apply_patch(fields(), same).1);
}

#[test]
fn article_listing_query() {
    let f = ArticleListFilter { status: None, author: None, tag: None, publication: None, featured: None, search: None };
    assert_eq!(
        ArticleService::list_conditions(&f),
        vec!["is_deleted = false".to_string(), "status = 'published'".to_string()]
    );
    let f = ArticleListFilter {
        status: Some("draft".to_string()),
        author: Some("u".to_string()),
        tag: Some("t".to_string()),
        publication: Some("p".to_string()),
        featured: Some(false),
        search: Some("s".to_string()),
    };
    assert_eq!(
        ArticleService::list_conditions(&f),
        vec![
            "is_deleted = false".to_string(),
            "status = 'draft'".to_string(),
            "author_id = $author".to_string(),
            "$tag IN tags".to_string(),
            "publication_id = $publication".to_string(),
            "is_featured = false".to_string(),
            "(title ~ $search OR content ~ $search)".to_string(),
        ]
    );
    assert_eq!(ArticleService::list_order(None), ("*", "created_at DESC"));
    assert_eq!(ArticleService::list_order(Some("oldest")), ("*", "created_at ASC"));
    assert_eq!(ArticleService::list_order(Some("popular")), ("*", "clap_count DESC, view_count DESC"));
    assert_eq!(ArticleService::list_order(Some("trending")).1, "trending_score DESC");
    assert_eq!(ArticleService::list_order(Some("whatever")), ("*", "created_at DESC"));
}

fn total_of(claps: &[ClapRecord], article: &str) -> i64 {
    claps.iter().filter(|c| c.article_id == article).map(|c| c.count as i64).sum()
}

#[test]
fn claps_capped_per_reader_and_summed_per_article() {
    let mut claps: Vec<ClapRecord> = vec![ClapRecord { user_id: "v".to_string(), article_id: "a".to_string(), count: 7 }];
    assert_eq!(
        ArticleService::clap_article(&mut claps, "u", "a", 3, false).err(),
        Some(ArticleError::NotPublished)
    );
    let r = ArticleService::clap_article(&mut claps, "u", "a", 30, true).unwrap();
    assert_eq!((r.user_clap_count, r.total_claps), (30, 37));
    let r = ArticleService::clap_article(&mut claps, "u", "a", 20, true).unwrap();
    assert_eq!((r.user_clap_count, r.total_claps), (50, 57));
    assert_eq!(
        ArticleService::clap_article(&mut claps, "u", "a", 1, true).err(),
        Some(ArticleError::TooManyClaps)
    );
    assert_eq!(claps.len(), 2);
    assert_eq!(total_of(&claps, "a"), 57);
    assert_eq!(
        ArticleService::clap_article(&mut claps, "w", "b", 51, true).err(),
        Some(ArticleError::TooManyClaps)
    );
    let r = ArticleService::clap_article(&mut claps, "w", "b", 5, true).unwrap();
    assert_eq!((r.user_clap_count, r.total_claps), (5, 5));
    assert!(claps.iter().all(|c| c.count <= 50));
}
