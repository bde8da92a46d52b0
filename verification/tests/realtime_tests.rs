use rainbow_blog::realtime::{ChannelType, NotificationType, RealtimeService};
use rainbow_blog::websocket::WebSocketService;

fn names(v: &[String]) -> Vec<String> {
    let mut out: Vec<String> = v.to_vec();
    out.sort();
    out
}

#[test]
fn test_realtime_service_creation() {
    let _service = RealtimeService {};
    assert!(matches!(
        RealtimeService::map_notification_type("new_article"),
        NotificationType::ArticlePublished
    ));
    assert!(matches!(RealtimeService::map_notification_type("new_comment"), NotificationType::Comment));
    assert!(matches!(RealtimeService::map_notification_type("new_follower"), NotificationType::Follow));
    assert!(matches!(RealtimeService::map_notification_type("article_clap"), NotificationType::Clap));
    assert!(matches!(RealtimeService::map_notification_type("something_else"), NotificationType::Mention));
}

#[test]
fn test_channel_authorization() {
    let ws = WebSocketService::new();
    assert!(ws.can_subscribe_to_channel("alice", "user_notifications:alice"));
    assert!(!ws.can_subscribe_to_channel("bob", "user_notifications:alice"));
    assert!(ws.can_subscribe_to_channel("alice", "user_activity:alice"));
    assert!(!ws.can_subscribe_to_channel("bob", "user_activity:alice"));
    assert!(ws.can_subscribe_to_channel("alice", "creator_revenue:alice"));
    assert!(!ws.can_subscribe_to_channel("bob", "creator_revenue:alice"));
    assert!(ws.can_subscribe_to_channel("bob", "system_updates"));
    assert!(ws.can_subscribe_to_channel("bob", "global_activity"));
    assert!(ws.can_subscribe_to_channel("bob", "article_comments:42"));
    // The subject is the second `:`-separated piece only.
    assert!(ws.can_subscribe_to_channel("alice", "user_notifications:alice:extra"));
    // Without the separator the name is not a per-user channel.
    assert!(ws.can_subscribe_to_channel("bob", "user_notifications"));
    assert!(ws.can_subscribe_to_channel("", "user_notifications:"));
    assert!(!ws.can_subscribe_to_channel("bob", "user_notifications:"));
}

#[test]
fn own_channels_are_open() {
    let ws = WebSocketService::new();
    for t in [ChannelType::UserNotifications, ChannelType::UserActivity, ChannelType::CreatorRevenue] {
        let name = t.channel_name("carol");
        assert!(ws.can_subscribe_to_channel("carol", &name));
        assert!(!ws.can_subscribe_to_channel("dave", &name));
    }
}

#[test]
fn channel_names() {
    assert_eq!(ChannelType::UserNotifications.channel_name("u1"), "user_notifications:u1");
    assert_eq!(ChannelType::UserActivity.channel_name("u1"), "user_activity:u1");
    assert_eq!(ChannelType::ArticleComments.channel_name("a1"), "article_comments:a1");
    assert_eq!(ChannelType::ArticleClaps.channel_name("a1"), "article_claps:a1");
    assert_eq!(ChannelType::CreatorUpdates.channel_name("c1"), "creator_updates:c1");
    assert_eq!(ChannelType::CreatorRevenue.channel_name("c1"), "creator_revenue:c1");
    assert_eq!(ChannelType::SystemUpdates.channel_name("ignored"), "system_updates");
    assert_eq!(ChannelType::GlobalActivity.channel_name("ignored"), "global_activity");
}

#[test]
fn comment_recipient_skips_self() {
    assert_eq!(RealtimeService::comment_notification_recipient("u1", "u1"), None);
    assert_eq!(
        RealtimeService::comment_notification_recipient("u1", "u2"),
        Some("u2".to_string())
    );
}

#[test]
fn notification_messages() {
    assert_eq!(RealtimeService::new_article_message("alice", "Rust"), "alice 发布了新文章：Rust");
    assert_eq!(RealtimeService::new_comment_message("Rust"), "您的文章《Rust》收到了新评论");
    assert_eq!(RealtimeService::subscription_message("renewed"), "您的订阅状态有更新：renewed");
    assert_eq!(RealtimeService::payment_message("文章"), "您的文章支付已成功完成");
}

#[test]
fn register_subscribes_to_own_notifications() {
    let mut ws = WebSocketService::new();
    ws.register_connection("c1", "alice", 1000);
    assert!(ws.has_connection("c1"));
    assert!(!ws.has_connection("c2"));
    assert_eq!(ws.user_connection_ids("alice"), vec!["c1".to_string()]);
    assert_eq!(ws.channel_subscribers("user_notifications:alice"), vec!["c1".to_string()]);
    let status = ws.get_user_online_status("alice");
    assert!(status.is_online);
    assert_eq!(status.active_connections, 1);
    let nobody = ws.get_user_online_status("bob");
    assert!(!nobody.is_online);
    assert_eq!(nobody.active_connections, 0);
}

#[test]
fn subscribe_and_unsubscribe() {
    let mut ws = WebSocketService::new();
    ws.register_connection("c1", "alice", 1000);
    ws.register_connection("c2", "bob", 1000);
    ws.subscribe_to_channel("c1", "article_comments:7");
    ws.subscribe_to_channel("c2", "article_comments:7");
    ws.subscribe_to_channel("c2", "article_comments:7");
    assert_eq!(
        names(&ws.channel_subscribers("article_comments:7")),
        vec!["c1".to_string(), "c2".to_string()]
    );
    ws.unsubscribe_from_channel("c1", "article_comments:7");
    assert_eq!(ws.channel_subscribers("article_comments:7"), vec!["c2".to_string()]);
    ws.unsubscribe_from_channel("c2", "article_comments:7");
    assert!(ws.channel_subscribers("article_comments:7").is_empty());
    let stats = ws.get_stats();
    assert!(stats.channels.iter().all(|c| c.channel != "article_comments:7"));
}

#[test]
fn subscribe_request_keeps_only_allowed_channels() {
    let mut ws = WebSocketService::new();
    ws.register_connection("c1", "alice", 1000);
    let asked = vec![
        "user_activity:alice".to_string(),
        "user_activity:bob".to_string(),
        "system_updates".to_string(),
        "creator_revenue:bob".to_string(),
    ];
    let accepted = ws.subscribe_channels("c1", "alice", &asked);
    assert_eq!(accepted, vec!["user_activity:alice".to_string(), "system_updates".to_string()]);
    assert_eq!(ws.channel_subscribers("system_updates"), vec!["c1".to_string()]);
    assert!(ws.channel_subscribers("user_activity:bob").is_empty());
    ws.unsubscribe_channels("c1", &vec!["system_updates".to_string(), "user_activity:alice".to_string()]);
    assert!(ws.channel_subscribers("system_updates").is_empty());
    assert!(ws.channel_subscribers("user_activity:alice").is_empty());
    assert_eq!(ws.channel_subscribers("user_notifications:alice"), vec!["c1".to_string()]);
}

#[test]
fn unregister_clears_channels_and_user() {
    let mut ws = WebSocketService::new();
    ws.register_connection("c1", "alice", 1000);
    ws.register_connection("c2", "alice", 1000);
    ws.subscribe_to_channel("c1", "global_activity");
    ws.unregister_connection("c1", "alice");
    assert!(!ws.has_connection("c1"));
    assert_eq!(ws.user_connection_ids("alice"), vec!["c2".to_string()]);
    assert!(ws.channel_subscribers("global_activity").is_empty());
    assert_eq!(ws.channel_subscribers("user_notifications:alice"), vec!["c2".to_string()]);
    ws.unregister_connection("c2", "alice");
    assert!(!ws.get_user_online_status("alice").is_online);
    let stats = ws.get_stats();
    assert_eq!(stats.total_connections, 0);
    assert_eq!(stats.active_users, 0);
    assert!(stats.channels.is_empty());
}

#[test]
fn stale_connections_are_cleaned_up() {
    let mut ws = WebSocketService::new();
    ws.register_connection("old", "alice", 1000);
    ws.register_connection("fresh", "bob", 1000);
    ws.update_last_ping("fresh", 1250);
    let stale = ws.stale_connections(1301 - 300);
    assert_eq!(stale, vec![("old".to_string(), "alice".to_string())]);
    ws.cleanup_stale_connections(1301);
    assert!(!ws.has_connection("old"));
    assert!(ws.has_connection("fresh"));
    assert!(ws.user_connection_ids("alice").is_empty());
    assert!(ws.channel_subscribers("user_notifications:alice").is_empty());
    assert_eq!(ws.channel_subscribers("user_notifications:bob"), vec!["fresh".to_string()]);
    // Exactly five minutes of silence is not yet stale.
    ws.cleanup_stale_connections(1550);
    assert!(ws.has_connection("fresh"));
    ws.cleanup_stale_connections(1551);
    assert!(!ws.has_connection("fresh"));
}

#[test]
fn stats_count_connections_users_and_listeners() {
    let mut ws = WebSocketService::new();
    ws.register_connection("c1", "alice", 0);
    ws.register_connection("c2", "alice", 0);
    ws.register_connection("c3", "bob", 0);
    ws.subscribe_to_channel("c1", "system_updates");
    ws.subscribe_to_channel("c3", "system_updates");
    let stats = ws.get_stats();
    assert_eq!(stats.total_connections, 3);
    assert_eq!(stats.active_users, 2);
    assert_eq!(stats.channels.len(), 3);
    let find = |name: &str| stats.channels.iter().find(|c| c.channel == name).map(|c| c.subscriber_count);
    assert_eq!(find("system_updates"), Some(2));
    assert_eq!(find("user_notifications:alice"), Some(2));
    assert_eq!(find("user_notifications:bob"), Some(1));
}

#[test]
fn queued_messages_go_to_user_then_channel() {
    let mut ws = WebSocketService::new();
    ws.register_connection("c1", "alice", 0);
    ws.register_connection("c2", "bob", 0);
    ws.subscribe_to_channel("c2", "system_updates");
    assert_eq!(ws.queue_recipients(Some("alice"), Some("system_updates")), vec!["c1".to_string()]);
    assert_eq!(ws.queue_recipients(None, Some("system_updates")), vec!["c2".to_string()]);
    assert!(ws.queue_recipients(None, None).is_empty());
    assert!(ws.queue_recipients(Some("nobody"), None).is_empty());
}

#[test]
fn reregistering_replaces_connection() {
    let mut ws = WebSocketService::new();
    ws.register_connection("c1", "alice", 0);
    ws.subscribe_to_channel("c1", "system_updates");
    ws.register_connection("c1", "alice", 500);
    assert_eq!(ws.get_stats().total_connections, 1);
    assert!(ws.stale_connections(400).is_empty());
}

#[test]
fn unsubscribing_undoes_subscribing() {
    let mut ws = WebSocketService::new();
    ws.register_connection("c1", "alice", 0);
    ws.register_connection("c2", "bob", 0);
    ws.subscribe_to_channel("c2", "article_claps:1");
    let before = names(&ws.channel_subscribers("article_claps:1"));
    ws.subscribe_to_channel("c1", "article_claps:1");
    ws.unsubscribe_from_channel("c1", "article_claps:1");
    assert_eq!(names(&ws.channel_subscribers("article_claps:1")), before);
    ws.subscribe_to_channel("c1", "fresh_channel");
    ws.unsubscribe_from_channel("c1", "fresh_channel");
    assert!(ws.get_stats().channels.iter().all(|c| c.channel != "fresh_channel"));
}
