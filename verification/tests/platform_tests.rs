use rainbow_blog::error::ErrorKind;
use rainbow_blog::media::{MediaConfig, MediaError, MediaService};
use rainbow_blog::pagination::{page_offset, page_window, total_pages, PageWindow, PaginatedResult};
use rainbow_blog::recommendation::RecommendationService;
use rainbow_blog::search::{SearchService, SearchType};
use rainbow_blog::state::{AppSettings, AppState};

fn media() -> MediaService {
    MediaService {
        config: MediaConfig {
            max_upload_size: 1024,
            allowed_image_types: "image/jpeg, image/png,image/webp".to_string(),
        },
    }
}

#[test]
fn image_types_and_sizes() {
    let m = media();
    assert_eq!(m.validate_image_type("image/png"), Ok(()));
    assert_eq!(m.validate_image_type("image/jpeg"), Ok(()));
    assert_eq!(m.validate_image_type("image/gif"), Err(MediaError::UnsupportedType));
    assert_eq!(m.check_size(1024), Ok(()));
    assert_eq!(m.check_size(1025), Err(MediaError::TooLarge));
    assert_eq!(MediaService::check_owner("u", "v"), Err(MediaError::NotOwner));
    assert_eq!(MediaService::check_owner("u", "u"), Ok(()));
    assert_eq!(MediaError::NotOwner.kind(), ErrorKind::Authorization);
    assert_eq!(MediaError::TooLarge.kind(), ErrorKind::BadRequest);
    assert_eq!(MediaError::UnsupportedType.kind(), ErrorKind::BadRequest);
}

#[test]
fn file_extensions() {
    assert_eq!(MediaService::get_file_extension("image/jpeg"), "jpg");
    assert_eq!(MediaService::get_file_extension("image/png"), "png");
    assert_eq!(MediaService::get_file_extension("image/gif"), "gif");
    assert_eq!(MediaService::get_file_extension("image/webp"), "webp");
    assert_eq!(MediaService::get_file_extension("text/plain"), "bin");
}

fn state() -> AppState {
    AppState {
        config: AppSettings {
            enable_registrations: true,
            enable_comments: false,
            enable_subscriptions: true,
            enable_publications: false,
            enable_email_notifications: true,
            default_articles_per_page: 15,
            default_comments_per_page: 25,
        },
    }
}

#[test]
fn feature_switches() {
    let s = state();
    assert!(s.is_feature_enabled("registrations"));
    assert!(!s.is_feature_enabled("comments"));
    assert!(s.is_feature_enabled("subscriptions"));
    assert!(!s.is_feature_enabled("publications"));
    assert!(s.is_feature_enabled("email_notifications"));
    assert!(!s.is_feature_enabled("unknown"));
}

#[test]
fn page_sizes() {
    let s = state();
    assert_eq!(s.get_page_size("articles"), 15);
    assert_eq!(s.get_page_size("comments"), 25);
    assert_eq!(s.get_page_size("users"), 20);
}

#[test]
fn listing_windows() {
    assert_eq!(page_window(None, None, 20, 100), PageWindow { page: 1, limit: 20, offset: 0 });
    assert_eq!(page_window(Some(3), Some(10), 20, 100), PageWindow { page: 3, limit: 10, offset: 20 });
    assert_eq!(page_window(Some(0), Some(500), 20, 100), PageWindow { page: 1, limit: 100, offset: 0 });
    assert_eq!(page_window(Some(-4), None, 20, 100).page, 1);
    assert_eq!(page_offset(1, 10), 0);
    assert_eq!(page_offset(4, 10), 30);
}

#[test]
fn page_counts_round_up() {
    assert_eq!(total_pages(0, 10), 0);
    assert_eq!(total_pages(1, 10), 1);
    assert_eq!(total_pages(10, 10), 1);
    assert_eq!(total_pages(11, 10), 2);
    let r = PaginatedResult::new(vec![1, 2, 3], 23, 2, 10);
    assert_eq!(r.data, vec![1, 2, 3]);
    assert_eq!((r.total, r.page, r.per_page, r.total_pages), (23, 2, 10, 3));
}

#[test]
fn search_plans() {
    assert!(SearchService::plan_search("   ", None, None, None).is_none());
    let p = SearchService::plan_search("  rust  ", None, None, None).unwrap();
    assert_eq!(p.term, "rust");
    assert_eq!(p.articles, Some((1, 5)));
    assert_eq!(p.users, Some((1, 5)));
    assert_eq!(p.tags, Some((1, 5)));
    assert_eq!(p.publications, Some((1, 5)));
    let p = SearchService::plan_search("rust", Some(2), Some(80), Some(SearchType::Tags)).unwrap();
    assert_eq!(p.tags, Some((2, 50)));
    assert_eq!(p.articles, None);
    assert_eq!(p.users, None);
    assert_eq!(p.publications, None);
    let p = SearchService::plan_search("rust", None, None, Some(SearchType::Articles)).unwrap();
    assert_eq!(p.articles, Some((1, 10)));
}

#[test]
fn search_counts() {
    assert_eq!(SearchService::total_results(1, 2, 3, 4), 10);
    assert_eq!(SearchService::suggestion_share(None), 5);
    assert_eq!(SearchService::suggestion_share(Some(7)), 3);
    assert_eq!(SearchService::suggestion_share(Some(100)), 10);
}

#[test]
fn upload_paths() {
    let p = MediaService::storage_path(2024, 3, 7, "abc", "png");
    assert_eq!(p, "uploads/images/2024/03/07/abc.png");
    assert_eq!(MediaService::storage_path(2024, 11, 30, "f", "jpg"), "uploads/images/2024/11/30/f.jpg");
    assert_eq!(MediaService::public_url(&p), "/api/blog/media/files/images/2024/03/07/abc.png");
    assert_eq!(MediaService::public_url("uploads/x/uploads/y"), "/api/blog/media/files/x/y");
}

#[test]
fn merged_recommendations_keep_first_of_each_article() {
    let ids: Vec<String> = ["a", "b", "a", "c", "b", "d"].iter().map(|s| s.to_string()).collect();
    assert_eq!(RecommendationService::first_of_each_article(&ids), vec![0, 1, 3, 5]);
    assert!(RecommendationService::first_of_each_article(&Vec::new()).is_empty());
}
