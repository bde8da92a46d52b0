//! Realtime notifications: channel names, who may listen where, and who is notified.

use crate::text::{chars_of, spec_split, str_eq};
use vstd::prelude::*;

verus! {

/// The kinds of realtime channel.
#[derive(Clone, Copy, Debug, PartialEq, Eq, Structural)]
pub enum ChannelType {
    UserNotifications,
    UserActivity,
    ArticleComments,
    ArticleClaps,
    CreatorUpdates,
    CreatorRevenue,
    SystemUpdates,
    GlobalActivity,
}

/// The kinds of stored notification.
#[derive(Clone, Copy, Debug, PartialEq, Eq, Structural)]
pub enum NotificationType {
    ArticlePublished,
    Comment,
    Follow,
    Clap,
    Mention,
}

/// The prefix of a channel kind's names.
pub open spec fn spec_channel_prefix(t: ChannelType) -> Seq<char> {
    match t {
        ChannelType::UserNotifications => "user_notifications"@,
        ChannelType::UserActivity => "user_activity"@,
        ChannelType::ArticleComments => "article_comments"@,
        ChannelType::ArticleClaps => "article_claps"@,
        ChannelType::CreatorUpdates => "creator_updates"@,
        ChannelType::CreatorRevenue => "creator_revenue"@,
        ChannelType::SystemUpdates => "system_updates"@,
        ChannelType::GlobalActivity => "global_activity"@,
    }
}

/// Whether a channel kind is one shared channel rather than one per subject.
pub open spec fn spec_channel_is_global(t: ChannelType) -> bool {
    t == ChannelType::SystemUpdates || t == ChannelType::GlobalActivity
}

/// The name of a channel: the kind's name, followed by `:` and the subject for
/// per-subject kinds.
pub open spec fn spec_channel_name(t: ChannelType, id: Seq<char>) -> Seq<char> {
    if spec_channel_is_global(t) {
        spec_channel_prefix(t)
    } else {
        spec_channel_prefix(t) + seq![':'] + id
    }
}

/// Whether `s` starts with `p`.
pub open spec fn spec_starts_with(s: Seq<char>, p: Seq<char>) -> bool {
    p.len() <= s.len() && s.take(p.len() as int) == p
}

/// The subject part of a channel name: its second `:`-separated piece, empty when there
/// is none.
pub open spec fn spec_channel_subject(channel: Seq<char>) -> Seq<char> {
    let parts = spec_split(channel, ':');
    if parts.len() > 1 {
        parts[1]
    } else {
        Seq::empty()
    }
}

/// Who may listen on a channel: a user's notification and activity channels and a
/// creator's revenue channel only to that user; every other channel to anyone.
pub open spec fn spec_can_subscribe(user_id: Seq<char>, channel: Seq<char>) -> bool {
    if spec_starts_with(channel, "user_notifications:"@) || spec_starts_with(channel, "user_activity:"@)
        || spec_starts_with(channel, "creator_revenue:"@) {
        spec_channel_subject(channel) == user_id
    } else {
        true
    }
}

/// The stored notification kind of a realtime event name; unknown names are mentions.
pub open spec fn spec_notification_type(s: Seq<char>) -> NotificationType {
    if s == "new_article"@ {
        NotificationType::ArticlePublished
    } else if s == "new_comment"@ {
        NotificationType::Comment
    } else if s == "new_follower"@ {
        NotificationType::Follow
    } else if s == "article_clap"@ {
        NotificationType::Clap
    } else {
        NotificationType::Mention
    }
}

/// Whether `s` starts with `p`.
pub(crate) fn starts_with(s: &Vec<char>, p: &str) -> (r: bool)
    ensures
        r == spec_starts_with(s@, p@),
{
    let pc = chars_of(p);
    if pc.len() > s.len() {
        return false;
    }
    let mut i: usize = 0;
    while i < pc.len()
        invariant
            pc.len() <= s.len(),
            pc@ == p@,
            i <= pc.len(),
            forall|j: int| 0 <= j < i ==> s@[j] == pc@[j],
        decreases pc.len() - i,
    {
        if s[i] != pc[i] {
            assert(s@.take(pc.len() as int)[i as int] != p@[i as int]);
            return false;
        }
        i = i + 1;
    }
    assert(s@.take(pc.len() as int) =~= p@);
    true
}

impl ChannelType {
    /// The name of the channel of this kind for a subject.
    pub fn channel_name(&self, id: &str) -> (r: String)
        ensures
            r@ == spec_channel_name(*self, id@),
    {
        let prefix: &str = match self {
            ChannelType::UserNotifications => "user_notifications",
            ChannelType::UserActivity => "user_activity",
            ChannelType::ArticleComments => "article_comments",
            ChannelType::ArticleClaps => "article_claps",
            ChannelType::CreatorUpdates => "creator_updates",
            ChannelType::CreatorRevenue => "creator_revenue",
            ChannelType::SystemUpdates => "system_updates",
            ChannelType::GlobalActivity => "global_activity",
        };
        let mut r = String::from_str(prefix);
        match self {
            ChannelType::SystemUpdates | ChannelType::GlobalActivity => {},
            _ => {
                crate::text::push_char(&mut r, ':');
                r.append(id);
            },
        }
        r
    }
}

/// Realtime notification rules.
pub struct RealtimeService {}

impl RealtimeService {
    /// The stored notification kind of a realtime event name.
    pub fn map_notification_type(notification_type: &str) -> (r: NotificationType)
        ensures
            r == spec_notification_type(notification_type@),
    {
        proof {
            reveal_strlit("new_article");
            reveal_strlit("new_comment");
            reveal_strlit("new_follower");
            reveal_strlit("article_clap");
            assert("new_article"@.len() == 11);
            assert("new_comment"@.len() == 11);
            assert("new_follower"@.len() == 12);
            assert("article_clap"@.len() == 12);
            assert("new_article"@[4] != "new_comment"@[4]);
            assert("new_follower"@[0] != "article_clap"@[0]);
        }
        if str_eq(notification_type, "new_article") {
            NotificationType::ArticlePublished
        } else if str_eq(notification_type, "new_comment") {
            NotificationType::Comment
        } else if str_eq(notification_type, "new_follower") {
            NotificationType::Follow
        } else if str_eq(notification_type, "article_clap") {
            NotificationType::Clap
        } else {
            NotificationType::Mention
        }
    }

    /// Who is told about a new comment: the article's author, unless they wrote it.
    pub fn comment_notification_recipient(commenter_id: &str, article_author_id: &str) -> (r: Option<String>)
        ensures
            commenter_id@ == article_author_id@ ==> r is None,
            commenter_id@ != article_author_id@ ==> (r matches Some(u) && u@ == article_author_id@),
    {
        if str_eq(commenter_id, article_author_id) {
            None
        } else {
            Some(String::from_str(article_author_id))
        }
    }

    /// The message of a new-article notification: `<author> 发布了新文章：<title>`.
    pub fn new_article_message(author_id: &str, title: &str) -> (r: String)
        ensures
            r@ == author_id@ + " 发布了新文章："@ + title@,
    {
        let mut r = String::from_str(author_id);
        r.append(" 发布了新文章：");
        r.append(title);
        r
    }

    /// The message of a new-comment notification: `您的文章《<title>》收到了新评论`.
    pub fn new_comment_message(title: &str) -> (r: String)
        ensures
            r@ == "您的文章《"@ + title@ + "》收到了新评论"@,
    {
        let mut r = String::from_str("您的文章《");
        r.append(title);
        r.append("》收到了新评论");
        r
    }

    /// The message of a subscription notification: `您的订阅状态有更新：<action>`.
    pub fn subscription_message(action: &str) -> (r: String)
        ensures
            r@ == "您的订阅状态有更新："@ + action@,
    {
        let mut r = String::from_str("您的订阅状态有更新：");
        r.append(action);
        r
    }

    /// The message of a payment notification: `您的<item type>支付已成功完成`.
    pub fn payment_message(item_type: &str) -> (r: String)
        ensures
            r@ == "您的"@ + item_type@ + "支付已成功完成"@,
    {
        let mut r = String::from_str("您的");
        r.append(item_type);
        r.append("支付已成功完成");
        r
    }
}

/// Splitting text that ends in a separator-free run extends the last piece by that run.
proof fn lemma_split_append_free(s: Seq<char>, t: Seq<char>, sep: char)
    requires
        forall|i: int| 0 <= i < t.len() ==> t[i] != sep,
    ensures
        spec_split(s + t, sep).len() == spec_split(s, sep).len(),
        spec_split(s + t, sep) == spec_split(s, sep).update(
            spec_split(s, sep).len() - 1,
            spec_split(s, sep).last() + t,
        ),
    decreases t.len(),
{
    crate::text::lemma_split_nonempty(s, sep);
    if t.len() == 0 {
        assert(s + t =~= s);
        assert(spec_split(s, sep).last() + t =~= spec_split(s, sep).last());
        assert(spec_split(s, sep).update(spec_split(s, sep).len() - 1, spec_split(s, sep).last())
            =~= spec_split(s, sep));
    } else {
        let t0 = t.drop_last();
        lemma_split_append_free(s, t0, sep);
        assert((s + t).drop_last() =~= s + t0);
        assert((s + t).last() == t.last());
        let p = spec_split(s, sep);
        let parts0 = spec_split(s + t0, sep);
        assert(t.last() != sep) by {
            assert(t[t.len() - 1] != sep);
        }
        assert(parts0.len() == p.len());
        assert(parts0.last() == p.last() + t0);
        assert(spec_split(s + t, sep) == parts0.update(parts0.len() - 1, parts0.last().push(t.last())));
        assert(p.last() + t0 + seq![t.last()] =~= p.last() + t);
        assert((p.last() + t0).push(t.last()) =~= p.last() + t);
        assert(spec_split(s + t, sep) =~= p.update(p.len() - 1, p.last() + t));
    }
}

/// A user can always listen on their own notification and activity channels and on
/// their own revenue channel (for user ids without `:`).
pub proof fn law_own_channels_open(user_id: Seq<char>, t: ChannelType)
    requires
        forall|i: int| 0 <= i < user_id.len() ==> user_id[i] != ':',
        t == ChannelType::UserNotifications || t == ChannelType::UserActivity || t
            == ChannelType::CreatorRevenue,
    ensures
        spec_can_subscribe(user_id, spec_channel_name(t, user_id)),
{
    reveal_strlit("user_notifications");
    reveal_strlit("user_activity");
    reveal_strlit("creator_revenue");
    reveal_strlit("user_notifications:");
    reveal_strlit("user_activity:");
    reveal_strlit("creator_revenue:");
    let p = spec_channel_prefix(t);
    assert(p.len() > 0);
    assert(forall|i: int| 0 <= i < p.len() ==> p[i] != ':');
    let e = Seq::<char>::empty();
    lemma_split_append_free(e, p, ':');
    assert(e + p =~= p);
    assert(spec_split(e, ':') =~= seq![e]);
    assert(spec_split(p, ':') =~= seq![p]);
    let q = p + seq![':'];
    assert(q.drop_last() =~= p);
    assert(spec_split(q, ':') =~= seq![p, e]);
    lemma_split_append_free(q, user_id, ':');
    let name = q + user_id;
    assert(spec_channel_name(t, user_id) =~= name);
    assert(spec_split(name, ':') =~= seq![p, e + user_id]);
    assert(e + user_id =~= user_id);
    assert(spec_channel_subject(name) == user_id);
    if t == ChannelType::UserNotifications {
        assert(name.take(19) =~= "user_notifications:"@);
    } else if t == ChannelType::UserActivity {
        assert(name.take(14) =~= "user_activity:"@);
    } else {
        assert(name.take(16) =~= "creator_revenue:"@);
    }
}

} // verus!
