use rainbow_blog::comment::{CommentData, CommentError, CommentService, CommentWithAuthor};
use rainbow_blog::error::ErrorKind;

fn comment(id: &str, parent: Option<&str>, created_at: i64, content: &str) -> CommentWithAuthor {
    CommentWithAuthor {
        comment: CommentData {
            id: id.to_string(),
            article_id: "a1".to_string(),
            author_id: "u1".to_string(),
            parent_id: parent.map(|p| p.to_string()),
            content: content.to_string(),
            created_at,
        },
        author_name: "Name".to_string(),
        author_username: "name".to_string(),
        author_avatar: None,
        user_has_clapped: false,
        replies: Vec::new(),
    }
}

#[test]
fn new_comment_checks() {
    assert_eq!(
        CommentService::check_new_comment(false, "a", "a", false, false),
        Err(CommentError::ArticleNotPublished)
    );
    assert_eq!(CommentService::check_new_comment(true, "a", "b", true, false), Err(CommentError::ParentNotFound));
    assert_eq!(CommentService::check_new_comment(true, "a", "a", true, true), Ok(true));
    assert_eq!(CommentService::check_new_comment(true, "a", "b", false, false), Ok(false));
}

#[test]
fn owner_and_clap_checks() {
    assert_eq!(CommentService::check_comment_owner(false, false, "a", "a"), Err(CommentError::CommentNotFound));
    assert_eq!(CommentService::check_comment_owner(true, true, "a", "a"), Err(CommentError::CommentNotFound));
    assert_eq!(CommentService::check_comment_owner(true, false, "a", "b"), Err(CommentError::NotAuthor));
    assert_eq!(CommentService::check_comment_owner(true, false, "a", "a"), Ok(()));
    assert_eq!(CommentService::check_comment_clap(true, true, false), Err(CommentError::CommentNotFound));
    assert_eq!(CommentService::check_comment_clap(true, false, true), Err(CommentError::AlreadyClapped));
    assert_eq!(CommentService::check_comment_clap(true, false, false), Ok(()));
}

#[test]
fn comment_error_kinds() {
    assert_eq!(CommentError::CommentNotFound.kind(), ErrorKind::NotFound);
    assert_eq!(CommentError::ParentNotFound.kind(), ErrorKind::NotFound);
    assert_eq!(CommentError::ArticleNotPublished.kind(), ErrorKind::Forbidden);
    assert_eq!(CommentError::NotAuthor.kind(), ErrorKind::Forbidden);
    assert_eq!(CommentError::AlreadyClapped.kind(), ErrorKind::Conflict);
}

#[test]
fn thread_lists_roots_newest_first() {
    let comments = vec![
        comment("c1", None, 10, "first"),
        comment("c2", Some("c1"), 20, "reply"),
        comment("c3", None, 30, "second"),
        comment("c4", None, 5, "oldest"),
    ];
    let roots = CommentService::build_comment_tree(comments);
    let ids: Vec<&str> = roots.iter().map(|c| c.comment.id.as_str()).collect();
    assert_eq!(ids, vec!["c3", "c1", "c4"]);
    assert!(roots[0].replies.is_empty());
    assert_eq!(roots[1].replies.len(), 1);
    assert_eq!(roots[1].replies[0].comment.id, "c2");
    assert!(roots[2].replies.is_empty());
}

#[test]
fn thread_puts_each_reply_under_its_parent() {
    let comments = vec![
        comment("r1", None, 10, "root one"),
        comment("r2", None, 20, "root two"),
        comment("a", Some("r1"), 11, "to one"),
        comment("b", Some("r2"), 21, "to two"),
        comment("c", Some("r1"), 12, "to one again"),
        comment("c", Some("r1"), 12, "to one, edited"),
        comment("d", Some("gone"), 13, "parent missing"),
    ];
    let roots = CommentService::build_comment_tree(comments);
    assert_eq!(roots.len(), 2);
    assert_eq!(roots[0].comment.id, "r2");
    assert_eq!(roots[1].comment.id, "r1");
    let mut two: Vec<&str> = roots[0].replies.iter().map(|c| c.comment.id.as_str()).collect();
    two.sort();
    assert_eq!(two, vec!["b"]);
    let mut one: Vec<&str> = roots[1].replies.iter().map(|c| c.comment.id.as_str()).collect();
    one.sort();
    assert_eq!(one, vec!["a", "c"]);
    let edited = roots[1].replies.iter().find(|c| c.comment.id == "c").unwrap();
    assert_eq!(edited.comment.content, "to one, edited");
}

#[test]
fn thread_keeps_last_comment_of_an_id() {
    let comments = vec![comment("c1", None, 10, "old text"), comment("c1", None, 10, "new text")];
    let roots = CommentService::build_comment_tree(comments);
    assert_eq!(roots.len(), 1);
    assert_eq!(roots[0].comment.content, "new text");
    assert!(CommentService::build_comment_tree(vec![]).is_empty());
}
