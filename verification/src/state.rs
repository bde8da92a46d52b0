//! Application-wide switches and listing sizes.

use crate::text::str_eq;
use vstd::prelude::*;

verus! {

/// The switches and sizes of the application configuration.
pub struct AppSettings {
    pub enable_registrations: bool,
    pub enable_comments: bool,
    pub enable_subscriptions: bool,
    pub enable_publications: bool,
    pub enable_email_notifications: bool,
    pub default_articles_per_page: usize,
    pub default_comments_per_page: usize,
}

/// The shared application state, as far as its decisions go.
pub struct AppState {
    pub config: AppSettings,
}

/// Whether the named feature is switched on; unknown features are off.
pub open spec fn spec_feature_enabled(c: AppSettings, feature: Seq<char>) -> bool {
    if feature == "registrations"@ {
        c.enable_registrations
    } else if feature == "comments"@ {
        c.enable_comments
    } else if feature == "subscriptions"@ {
        c.enable_subscriptions
    } else if feature == "publications"@ {
        c.enable_publications
    } else if feature == "email_notifications"@ {
        c.enable_email_notifications
    } else {
        false
    }
}

impl AppState {
    /// Whether the named feature is switched on.
    pub fn is_feature_enabled(&self, feature: &str) -> (r: bool)
        ensures
            r == spec_feature_enabled(self.config, feature@),
    {
        proof {
            reveal_strlit("registrations");
            reveal_strlit("comments");
            reveal_strlit("subscriptions");
            reveal_strlit("publications");
            reveal_strlit("email_notifications");
            assert("registrations"@.len() == 13);
            assert("comments"@.len() == 8);
            assert("subscriptions"@.len() == 13);
            assert("publications"@.len() == 12);
            assert("email_notifications"@.len() == 19);
            assert("registrations"@[0] != "subscriptions"@[0]);
        }
        if str_eq(feature, "registrations") {
            self.config.enable_registrations
        } else if str_eq(feature, "comments") {
            self.config.enable_comments
        } else if str_eq(feature, "subscriptions") {
            self.config.enable_subscriptions
        } else if str_eq(feature, "publications") {
            self.config.enable_publications
        } else if str_eq(feature, "email_notifications") {
            self.config.enable_email_notifications
        } else {
            false
        }
    }

    /// The page size of a listing: the configured size for articles and comments, 20
    /// for anything else.
    pub fn get_page_size(&self, resource_type: &str) -> (r: usize)
        ensures
            r == (if resource_type@ == "articles"@ {
                self.config.default_articles_per_page
            } else if resource_type@ == "comments"@ {
                self.config.default_comments_per_page
            } else {
                20
            }),
    {
        proof {
            reveal_strlit("articles");
            reveal_strlit("comments");
            assert("articles"@[0] != "comments"@[0]);
        }
        if str_eq(resource_type, "articles") {
            self.config.default_articles_per_page
        } else if str_eq(resource_type, "comments") {
            self.config.default_comments_per_page
        } else {
            20
        }
    }
}

} // verus!
