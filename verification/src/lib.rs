//! The rules of a feed reader: subscriptions, articles, curation, accounts and billing.

pub mod calendar;
pub mod cli;
pub mod codec;
pub mod curated;
pub mod error;
pub mod extractors;
pub mod hash;
pub mod ids;
pub mod lists;
pub mod members;
pub mod middleware;
pub mod opml;
pub mod pattern;
pub mod routes;
pub mod text;
pub mod time;
pub mod worker;
