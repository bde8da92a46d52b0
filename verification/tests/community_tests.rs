use rainbow_blog::bookmark::{BookmarkError, BookmarkService};
use rainbow_blog::error::ErrorKind;
use rainbow_blog::follow::{FollowError, FollowService};
use rainbow_blog::publication::{MemberInfo, PublicationError, PublicationService};
use rainbow_blog::series::{SeriesEntry, SeriesError, SeriesListFilter, SeriesService};
use rainbow_blog::tag::{TagError, TagService};

#[test]
fn follow_checks() {
    assert_eq!(FollowService::check_follow("a", "a", true, false), Err(FollowError::SelfFollow));
    assert_eq!(FollowService::check_follow("a", "b", false, false), Err(FollowError::UserNotFound));
    assert_eq!(FollowService::check_follow("a", "b", true, true), Err(FollowError::AlreadyFollowing));
    assert_eq!(FollowService::check_follow("a", "b", true, false), Ok(()));
    assert_eq!(FollowError::SelfFollow.kind(), ErrorKind::BadRequest);
    assert_eq!(FollowError::UserNotFound.kind(), ErrorKind::NotFound);
    assert_eq!(FollowError::AlreadyFollowing.kind(), ErrorKind::Conflict);
}

#[test]
fn tag_checks() {
    assert_eq!(TagService::check_new_tag(true), Err(TagError::NameTaken));
    assert_eq!(TagService::check_new_tag(false), Ok(()));
    assert!(TagService::rename_needs_check("rust", Some("go")));
    assert!(!TagService::rename_needs_check("rust", Some("rust")));
    assert!(!TagService::rename_needs_check("rust", None));
    assert_eq!(TagService::check_delete(3), Err(TagError::InUse));
    assert_eq!(TagService::check_delete(0), Ok(()));
    assert_eq!(TagService::check_follow(false, false), Err(TagError::TagNotFound));
    assert_eq!(TagService::check_follow(true, true), Err(TagError::AlreadyFollowing));
    assert_eq!(TagService::check_follow(true, false), Ok(()));
    assert_eq!(TagError::TagNotFound.kind(), ErrorKind::NotFound);
    assert_eq!(TagError::NameTaken.kind(), ErrorKind::Conflict);
    assert_eq!(TagError::InUse.kind(), ErrorKind::Conflict);
    assert_eq!(TagError::AlreadyFollowing.kind(), ErrorKind::Conflict);
}

#[test]
fn bookmark_checks() {
    assert_eq!(BookmarkService::check_new_bookmark(false, false), Err(BookmarkError::NotPublished));
    assert_eq!(BookmarkService::check_new_bookmark(true, true), Err(BookmarkError::AlreadyBookmarked));
    assert_eq!(BookmarkService::check_new_bookmark(true, false), Ok(()));
    assert_eq!(BookmarkService::check_owner("u", "v"), Err(BookmarkError::NotOwner));
    assert_eq!(BookmarkService::check_owner("u", "u"), Ok(()));
    assert_eq!(BookmarkService::stored_note(Some("it's good")), Some("it''s good".to_string()));
    assert_eq!(BookmarkService::stored_note(Some("")), None);
    assert_eq!(BookmarkService::stored_note(None), None);
    assert_eq!(BookmarkError::NotPublished.kind(), ErrorKind::Forbidden);
    assert_eq!(BookmarkError::AlreadyBookmarked.kind(), ErrorKind::Conflict);
    assert_eq!(BookmarkError::NotOwner.kind(), ErrorKind::Forbidden);
}

#[test]
fn series_rules() {
    assert!(SeriesService::is_visible(true, "a", None));
    assert!(!SeriesService::is_visible(false, "a", None));
    assert!(!SeriesService::is_visible(false, "a", Some("b")));
    assert!(SeriesService::is_visible(false, "a", Some("a")));
    assert!(SeriesService::counts_as_view("a", None));
    assert!(SeriesService::counts_as_view("a", Some("b")));
    assert!(!SeriesService::counts_as_view("a", Some("a")));
    assert_eq!(SeriesService::check_series_author("a", "b"), Err(SeriesError::NotSeriesAuthor));
    assert_eq!(SeriesService::check_add_article("a", "a", "b", false), Err(SeriesError::NotSeriesAuthor));
    assert_eq!(SeriesService::check_add_article("a", "c", "a", false), Err(SeriesError::NotArticleAuthor));
    assert_eq!(SeriesService::check_add_article("a", "a", "a", true), Err(SeriesError::AlreadyInSeries));
    assert_eq!(SeriesService::check_add_article("a", "a", "a", false), Ok(()));
    assert_eq!(SeriesService::next_order_index(Some(4), Some(10)), 4);
    assert_eq!(SeriesService::next_order_index(None, Some(10)), 11);
    assert_eq!(SeriesService::next_order_index(None, None), 0);
    assert_eq!(SeriesService::check_subscribe(true), Err(SeriesError::AlreadySubscribed));
    assert_eq!(SeriesService::check_subscribe(false), Ok(()));
    assert_eq!(SeriesError::NotSeriesAuthor.kind(), ErrorKind::Forbidden);
    assert_eq!(SeriesError::NotArticleAuthor.kind(), ErrorKind::Forbidden);
    assert_eq!(SeriesError::AlreadyInSeries.kind(), ErrorKind::Conflict);
    assert_eq!(SeriesError::AlreadySubscribed.kind(), ErrorKind::Conflict);
}

fn member(owner: bool, perms: &[&str]) -> MemberInfo {
    MemberInfo { is_owner: owner, permissions: perms.iter().map(|p| p.to_string()).collect() }
}

#[test]
fn publication_permissions() {
    assert_eq!(PublicationService::check_permission(None, "write"), Err(PublicationError::NotMember));
    let m = member(false, &["read", "write"]);
    assert_eq!(PublicationService::check_permission(Some(&m), "write"), Ok(()));
    assert_eq!(PublicationService::check_permission(Some(&m), "admin"), Err(PublicationError::MissingPermission));
    assert_eq!(PublicationService::check_delete(None), Err(PublicationError::NotMember));
    assert_eq!(PublicationService::check_delete(Some(&m)), Err(PublicationError::NotOwner));
    assert_eq!(PublicationService::check_delete(Some(&member(true, &[]))), Ok(()));
}

#[test]
fn publication_membership() {
    assert_eq!(PublicationService::check_update_member(true, "a", "b"), Err(PublicationError::OwnerProtected));
    assert_eq!(PublicationService::check_update_member(true, "a", "a"), Ok(()));
    assert_eq!(PublicationService::check_update_member(false, "a", "b"), Ok(()));
    assert_eq!(PublicationService::check_remove_member(true, "a", "b", 5), Err(PublicationError::OwnerProtected));
    assert_eq!(PublicationService::check_remove_member(true, "a", "a", 1), Err(PublicationError::LastOwner));
    assert_eq!(PublicationService::check_remove_member(true, "a", "a", 2), Ok(()));
    assert_eq!(PublicationService::check_remove_member(false, "a", "b", 0), Ok(()));
    assert_eq!(PublicationService::check_add_member(true), Err(PublicationError::AlreadyMember));
    assert_eq!(PublicationService::check_add_member(false), Ok(()));
    assert!(PublicationService::is_visible(false));
    assert!(!PublicationService::is_visible(true));
    assert_eq!(PublicationError::LastOwner.kind(), ErrorKind::BadRequest);
    assert_eq!(PublicationError::AlreadyMember.kind(), ErrorKind::Conflict);
    assert_eq!(PublicationError::NotMember.kind(), ErrorKind::Forbidden);
    assert_eq!(PublicationError::OwnerProtected.kind(), ErrorKind::Forbidden);
}

#[test]
fn stored_article_references() {
    assert_eq!(BookmarkService::normalize_article_ref("article:⟨abc-1⟩"), "article:abc-1");
    assert_eq!(BookmarkService::normalize_article_ref("x:⟨k⟩tail"), "article:k");
    assert_eq!(BookmarkService::normalize_article_ref("article:abc"), "article:abc");
    assert_eq!(BookmarkService::normalize_article_ref("article:⟨abc"), "article:⟨abc");
    assert!(BookmarkService::article_ref_ok("article:⟨abc⟩"));
    assert!(!BookmarkService::article_ref_ok("⟩x⟨"));
    assert!(BookmarkService::article_ref_ok("plain"));
}

#[test]
fn series_listing_query() {
    let none = SeriesListFilter { author_id: None, is_completed: None, is_public: None, search: None };
    assert!(SeriesService::list_conditions(&none).is_empty());
    let all = SeriesListFilter {
        author_id: Some("u".to_string()),
        is_completed: Some(true),
        is_public: Some(false),
        search: Some("q".to_string()),
    };
    assert_eq!(
        SeriesService::list_conditions(&all),
        vec![
            "s.author_id = $author_id".to_string(),
            "s.is_completed = true".to_string(),
            "s.is_public = false".to_string(),
            "(s.title ~ $search OR s.description ~ $search)".to_string(),
        ]
    );
    assert_eq!(SeriesService::list_order(None), "s.created_at DESC");
    assert_eq!(SeriesService::list_order(Some("oldest")), "s.created_at ASC");
    assert_eq!(SeriesService::list_order(Some("popular")), "s.view_count DESC");
    assert_eq!(SeriesService::list_order(Some("alphabetical")), "s.title ASC");
    assert_eq!(SeriesService::list_order(Some("newest")), "s.created_at DESC");
}

#[test]
fn publication_listing_query() {
    assert_eq!(PublicationService::list_conditions(None, None), vec!["is_suspended = false".to_string()]);
    assert_eq!(PublicationService::list_conditions(Some(false), None), vec!["is_suspended = false".to_string()]);
    assert_eq!(
        PublicationService::list_conditions(Some(true), Some("q")),
        vec![
            "is_suspended = false".to_string(),
            "is_verified = true".to_string(),
            "(name ~ $search OR description ~ $search)".to_string(),
        ]
    );
    assert_eq!(PublicationService::list_order(None), "follower_count DESC, article_count DESC");
    assert_eq!(PublicationService::list_order(Some("newest")), "created_at DESC");
    assert_eq!(PublicationService::list_order(Some("oldest")), "created_at ASC");
    assert_eq!(PublicationService::list_order(Some("alphabetical")), "name ASC");
    assert_eq!(PublicationService::list_order(Some("popular")), "follower_count DESC, article_count DESC");
}

#[test]
fn one_follow_per_pair() {
    let mut follows: Vec<(String, String)> = Vec::new();
    assert_eq!(FollowService::follow_user(&mut follows, "u", "u", true), Err(FollowError::SelfFollow));
    assert_eq!(FollowService::follow_user(&mut follows, "u", "v", false), Err(FollowError::UserNotFound));
    assert!(follows.is_empty());
    assert_eq!(FollowService::follow_user(&mut follows, "u", "v", true), Ok(()));
    assert!(FollowService::is_following(&follows, "u", "v"));
    assert!(!FollowService::is_following(&follows, "v", "u"));
    assert_eq!(FollowService::follow_user(&mut follows, "u", "v", true), Err(FollowError::AlreadyFollowing));
    assert_eq!(follows.len(), 1);
    assert_eq!(FollowService::follow_user(&mut follows, "w", "v", true), Ok(()));
    assert_eq!(follows.iter().filter(|p| p.1 == "v").count(), 2);
}

#[test]
fn one_bookmark_per_pair() {
    let mut bookmarks: Vec<(String, String)> = Vec::new();
    assert_eq!(BookmarkService::create_bookmark(&mut bookmarks, "u", "a", false), Err(BookmarkError::NotPublished));
    assert!(!BookmarkService::is_bookmarked(&bookmarks, "a", "u"));
    assert_eq!(BookmarkService::create_bookmark(&mut bookmarks, "u", "a", true), Ok(()));
    assert!(BookmarkService::is_bookmarked(&bookmarks, "a", "u"));
    assert_eq!(BookmarkService::create_bookmark(&mut bookmarks, "u", "a", true), Err(BookmarkError::AlreadyBookmarked));
    assert_eq!(bookmarks.len(), 1);
    assert_eq!(BookmarkService::create_bookmark(&mut bookmarks, "u", "b", true), Ok(()));
    assert_eq!(bookmarks.len(), 2);
}

#[test]
fn series_renumbered_after_removal() {
    let entries = vec![
        SeriesEntry { article_id: "a".to_string(), order_index: 0 },
        SeriesEntry { article_id: "b".to_string(), order_index: 1 },
        SeriesEntry { article_id: "c".to_string(), order_index: 4 },
        SeriesEntry { article_id: "d".to_string(), order_index: 7 },
    ];
    let kept = SeriesService::renumber_after_removal(&entries, "b");
    let got: Vec<(&str, i32)> = kept.iter().map(|e| (e.article_id.as_str(), e.order_index)).collect();
    assert_eq!(got, vec![("a", 0), ("c", 1), ("d", 2)]);
    let all = SeriesService::renumber_after_removal(&entries, "zzz");
    assert_eq!(all.iter().map(|e| e.order_index).collect::<Vec<i32>>(), vec![0, 1, 2, 3]);
    assert!(SeriesService::renumber_after_removal(&vec![], "a").is_empty());
}
