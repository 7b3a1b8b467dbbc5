//! A content-addressed deduplication store for chat attachments, with
//! the decision logic of the bot around it.
//!
//! Each chat owns a namespace; each namespace maps a content digest to
//! the record of the message that first carried it. The store offers
//! one abstract capability set — [`db::DbOperation`] — served by two
//! interchangeable engines behind the [`db::Backend`] facade: a
//! relational one and an ordered-kv one with a bounded cache of open
//! namespace handles. The laws the store obeys are stated and proved
//! in [`db::laws`].
pub mod bot;
pub mod cli;
pub mod config;
pub mod db;
pub mod utils;
