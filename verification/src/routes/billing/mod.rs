//! Subscriptions, payments and usage.

pub mod invoices;
pub mod models;
pub mod service;
pub mod subscriptions;
pub mod usage;
pub mod webhooks;
