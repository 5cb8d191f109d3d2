//! Verified core of a news summarising service: text chunking against a
//! tokenizer, the summarisation conversation, calendar handling and the
//! decisions taken while mirroring a news feed into the article store.

pub mod text;
pub mod tokenizer;
pub mod summarizer;
pub mod calendar;
pub mod json;
pub mod models;
pub mod nytimes;
pub mod handlers;
pub mod news;
