//! Clipboard history engine: a deduplicating, recency-ordered store of
//! clipboard captures, with retention eviction and a fuzzy, transliteration-aware
//! search.

pub mod clipboard;
pub mod decimal;
pub mod fuzzy_search;
pub mod hasher;
pub mod laws;
pub mod models;
pub mod shortcut_manager;
pub mod storage;
pub mod text;
