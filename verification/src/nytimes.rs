//! The New York Times "most popular" feed: its answer, the address asked,
//! and the prompt made of the abstracts.
use vstd::prelude::*;
use vstd::string::StringExecFns;

use crate::calendar::{decimal, digit_char};

verus! {

/// An article of the feed.
#[derive(Debug, PartialEq)]
pub struct Article {
    pub uri: Option<String>,
    pub url: Option<String>,
    pub id: u64,
    pub asset_id: u64,
    pub source: Option<String>,
    pub published_date: Option<String>,
    pub updated: Option<String>,
    pub section: Option<String>,
    pub subsection: Option<String>,
    pub nytdsection: Option<String>,
    pub adx_keywords: Option<String>,
    pub byline: Option<String>,
    pub column: Option<String>,
    pub title: Option<String>,
    pub _abstract: Option<String>,
    pub des_facet: Option<Vec<String>>,
    pub geo_facet: Option<Vec<String>>,
    pub org_facet: Option<Vec<String>>,
    pub per_facet: Option<Vec<String>>,
    pub eta_id: Option<u32>,
}

/// The feed's answer.
#[derive(Debug, PartialEq)]
pub struct MostPopularNewsResponse {
    pub status: Option<String>,
    pub copyright: Option<String>,
    pub num_results: i32,
    pub results: Vec<Article>,
}

/// An integer in decimal, with a minus sign when negative.
pub open spec fn signed_decimal(n: int) -> Seq<char> {
    if n < 0 {
        seq!['-'] + decimal((-n) as nat)
    } else {
        decimal(n as nat)
    }
}

/// The text of one decimal digit.
fn digit_text(d: u8) -> (t: &'static str)
    requires
        d < 10,
    ensures
        t@ == seq![digit_char(d as nat)],
{
    proof {
        reveal_strlit("0");
        reveal_strlit("1");
        reveal_strlit("2");
        reveal_strlit("3");
        reveal_strlit("4");
        reveal_strlit("5");
        reveal_strlit("6");
        reveal_strlit("7");
        reveal_strlit("8");
        reveal_strlit("9");
    }
    match d {
        0 => "0",
        1 => "1",
        2 => "2",
        3 => "3",
        4 => "4",
        5 => "5",
        6 => "6",
        7 => "7",
        8 => "8",
        _ => "9",
    }
}

/// The decimal digits of a number, without leading zeros.
fn decimal_text(n: u8) -> (t: String)
    ensures
        t@ == decimal(n as nat),
    decreases n,
{
    if n < 10 {
        let mut t = String::new();
        t.append(digit_text(n));
        t
    } else {
        let mut t = decimal_text(n / 10);
        t.append(digit_text(n % 10));
        t
    }
}

/// An `i8` in decimal, with a minus sign when negative, as `Display` writes
/// it.
fn i8_text(n: i8) -> (t: String)
    ensures
        t@ == signed_decimal(n as int),
{
    if n < 0 {
        let magnitude: i16 = -(n as i16);
        let mut t = String::new();
        t.append("-");
        let digits = decimal_text(magnitude as u8);
        t.append(digits.as_str());
        proof {
            reveal_strlit("-");
        }
        t
    } else {
        decimal_text(n as u8)
    }
}

/// The address of the most viewed articles of the last `period` days.
pub open spec fn most_popular_url_text(period: i8, api_key: Seq<char>) -> Seq<char> {
    "https://api.nytimes.com/svc/mostpopular/v2/viewed/"@ + signed_decimal(period as int)
        + ".json?api-key="@ + api_key
}

/// The address of the most viewed articles of the last `period` days.
pub fn most_popular_url(period: i8, api_key: &str) -> (url: String)
    ensures
        url@ == most_popular_url_text(period, api_key@),
{
    let mut url = "https://api.nytimes.com/svc/mostpopular/v2/viewed/".to_owned();
    let p = i8_text(period);
    url.append(p.as_str());
    url.append(".json?api-key=");
    url.append(api_key);
    url
}

/// The abstract of an article, or the empty text.
pub open spec fn abstract_or_empty(a: Article) -> Seq<char> {
    match a._abstract {
        Some(s) => s@,
        None => Seq::empty(),
    }
}

/// The abstracts of the articles one after the other.
pub open spec fn abstracts_text(arts: Seq<Article>) -> Seq<char>
    decreases arts.len(),
{
    if arts.len() == 0 {
        Seq::empty()
    } else {
        abstracts_text(arts.drop_last()) + abstract_or_empty(arts.last())
    }
}

/// The prompt to summarise the feed: the instruction followed by every
/// abstract, in the feed's order.
pub fn nytimes_prompt(response: &MostPopularNewsResponse) -> (prompt: String)
    ensures
        prompt@ == "Rewrite this text in summarized form."@ + abstracts_text(response.results@),
{
    let articles = &response.results;
    let mut prompt = "Rewrite this text in summarized form.".to_owned();
    let ghost head = prompt@;
    let n = articles.len();
    let mut i: usize = 0;
    while i < n
        invariant
            i <= n,
            n == articles@.len(),
            head == "Rewrite this text in summarized form."@,
            prompt@ == head + abstracts_text(articles@.take(i as int)),
        decreases n - i,
    {
        match &articles[i]._abstract {
            Some(value) => prompt.append(value.as_str()),
            None => {},
        }
        assert(articles@.take(i + 1).drop_last() =~= articles@.take(i as int));
        i = i + 1;
    }
    assert(articles@.take(n as int) =~= articles@);
    prompt
}

} // verus!
