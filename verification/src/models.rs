//! Rows of the article and summary tables.
use vstd::prelude::*;

use crate::calendar::{Date, DateTime};
use crate::json::{opt_strings_view, Json};

verus! {

/// A stored article.
#[derive(Debug, PartialEq)]
pub struct Article {
    pub id: i32,
    pub title: String,
    pub url: String,
    pub keywords: Option<Vec<Option<String>>>,
    pub creator: Option<Vec<Option<String>>>,
    pub video_source: Option<String>,
    pub description: String,
    pub content: String,
    pub date: DateTime,
    pub image_url: Option<String>,
    pub source_id: i32,
    pub language: Option<String>,
    pub country: Option<Vec<Option<String>>>,
    pub category: Option<Vec<Option<String>>>,
    pub sentiment: Option<String>,
    pub sentiment_stat: Option<Json>,
}

/// An article to store.
#[derive(Debug, PartialEq)]
pub struct NewArticle {
    pub title: String,
    pub url: String,
    pub keywords: Option<Vec<Option<String>>>,
    pub creator: Option<Vec<Option<String>>>,
    pub video_source: Option<String>,
    pub description: String,
    pub content: String,
    pub date: DateTime,
    pub image_url: Option<String>,
    pub source_id: i32,
    pub language: Option<String>,
    pub country: Option<Vec<Option<String>>>,
    pub category: Option<Vec<Option<String>>>,
    pub sentiment: Option<String>,
    pub sentiment_stat: Option<Json>,
}

/// The text of an optional string.
pub open spec fn opt_text(o: Option<String>) -> Option<Seq<char>> {
    match o {
        Some(s) => Some(s@),
        None => None,
    }
}

/// The texts of an optional list of optional strings.
pub open spec fn opt_text_list(o: Option<Vec<Option<String>>>) -> Option<Seq<Option<Seq<char>>>> {
    match o {
        Some(v) => Some(opt_strings_view(v@)),
        None => None,
    }
}

/// An article to store, with its texts as character sequences.
pub struct NewArticleView {
    pub title: Seq<char>,
    pub url: Seq<char>,
    pub keywords: Option<Seq<Option<Seq<char>>>>,
    pub creator: Option<Seq<Option<Seq<char>>>>,
    pub video_source: Option<Seq<char>>,
    pub description: Seq<char>,
    pub content: Seq<char>,
    pub date: DateTime,
    pub image_url: Option<Seq<char>>,
    pub source_id: i32,
    pub language: Option<Seq<char>>,
    pub country: Option<Seq<Option<Seq<char>>>>,
    pub category: Option<Seq<Option<Seq<char>>>>,
    pub sentiment: Option<Seq<char>>,
    pub sentiment_stat: Option<Json>,
}

impl View for NewArticle {
    type V = NewArticleView;

    open spec fn view(&self) -> NewArticleView {
        NewArticleView {
            title: self.title@,
            url: self.url@,
            keywords: opt_text_list(self.keywords),
            creator: opt_text_list(self.creator),
            video_source: opt_text(self.video_source),
            description: self.description@,
            content: self.content@,
            date: self.date,
            image_url: opt_text(self.image_url),
            source_id: self.source_id,
            language: opt_text(self.language),
            country: opt_text_list(self.country),
            category: opt_text_list(self.category),
            sentiment: opt_text(self.sentiment),
            sentiment_stat: self.sentiment_stat,
        }
    }
}

/// A stored daily summary.
#[derive(Debug, PartialEq)]
pub struct Summary {
    pub id: i32,
    pub content: String,
    pub date: Date,
}

/// A daily summary to store.
#[derive(Debug, PartialEq)]
pub struct NewSummary {
    pub content: String,
    pub date: Date,
}

} // verus!
