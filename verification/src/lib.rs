//! Verified core logic of a Medium-style blogging platform: listing windows,
//! content access, earnings, realtime channels, custom domains and payment webhooks.

pub mod analytics;
pub mod article;
pub mod bookmark;
pub mod comment;
pub mod database;
pub mod domain;
pub mod error;
pub mod follow;
pub mod highlight;
pub mod ids;
pub mod media;
pub mod pagination;
pub mod payment;
pub mod publication;
pub mod realtime;
pub mod recommendation;
pub mod revenue;
pub mod search;
pub mod series;
pub mod state;
pub mod stripe;
pub mod stripe_events;
pub mod stripe_forms;
pub mod subscription;
pub mod tag;
pub mod text;
pub mod user;
pub mod websocket;
