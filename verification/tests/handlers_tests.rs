use news_summarizer::calendar::{Date, DateTime};
use news_summarizer::handlers::{
    daily_summary_options, daily_summary_prompt, database_url, index, nytimes_summary_options,
    summary_or_unavailable,
};
use news_summarizer::models::Article;
use news_summarizer::nytimes::{most_popular_url, nytimes_prompt, Article as NytArticle, MostPopularNewsResponse};

fn stored(description: &str, country: Option<Vec<Option<String>>>) -> Article {
    Article {
        id: 1,
        title: String::from("t"),
        url: String::from("u"),
        keywords: None,
        creator: None,
        video_source: None,
        description: String::from(description),
        content: String::new(),
        date: DateTime { date: Date { year: 2024, month: 3, day: 5 }, hour: 0, minute: 0, second: 0, nano: 0 },
        image_url: None,
        source_id: 1,
        language: None,
        country,
        category: None,
        sentiment: None,
        sentiment_stat: None,
    }
}

fn nyt(abstract_text: Option<&str>) -> NytArticle {
    NytArticle {
        uri: None,
        url: Some(String::from("https://nyt/x")),
        id: 1,
        asset_id: 2,
        source: None,
        published_date: None,
        updated: None,
        section: None,
        subsection: None,
        nytdsection: None,
        adx_keywords: None,
        byline: None,
        column: None,
        title: None,
        _abstract: abstract_text.map(String::from),
        des_facet: None,
        geo_facet: None,
        org_facet: None,
        per_facet: None,
        eta_id: None,
    }
}

#[test]
fn root_answers_ok() {
    assert_eq!(index(), "OK");
}

#[test]
fn stored_summary_or_the_unavailable_note() {
    let day = Date { year: 2024, month: 3, day: 5 };
    assert_eq!(summary_or_unavailable(&vec![String::from("S"), String::from("T")], &day), "S");
    assert_eq!(summary_or_unavailable(&vec![], &day), "The summary of 2024-03-05 is not available.");
}

#[test]
fn daily_prompt_lists_descriptions_and_regions() {
    let arts = vec![
        stored("D1", Some(vec![Some(String::from("us")), None, Some(String::from("gb"))])),
        stored("D2", None),
    ];
    assert_eq!(
        daily_summary_prompt(&arts),
        "Summarize following articles in 200 words or less.\nProvided that --- is separator between articles.---\n\
         ---\nContent: D1\n Region: us, , gb\n---\n---\nContent: D2\n Region: \n---\n"
    );
    assert_eq!(
        daily_summary_prompt(&vec![]),
        "Summarize following articles in 200 words or less.\nProvided that --- is separator between articles.---\n"
    );
}

#[test]
fn route_summary_settings() {
    let d = daily_summary_options();
    assert_eq!((d.model.as_str(), d.minimal_chunk_size, d.chunk_delimiter.as_str(), d.summarize_recursively, d.verbose), ("gpt-4o-mini", 10000, ",", true, true));
    let n = nytimes_summary_options();
    assert_eq!((n.model.as_str(), n.minimal_chunk_size, n.chunk_delimiter.as_str(), n.summarize_recursively, n.verbose), ("gpt-4-turbo", 10000, ",", true, true));
}

#[test]
fn database_url_assembles_the_parts() {
    assert_eq!(database_url("u", "p", "h:5432", "db"), "postgres://u:p@h:5432/db");
}

#[test]
fn most_popular_url_writes_the_period() {
    assert_eq!(
        most_popular_url(1, "KEY"),
        "https://api.nytimes.com/svc/mostpopular/v2/viewed/1.json?api-key=KEY"
    );
    assert_eq!(
        most_popular_url(-30, "k"),
        "https://api.nytimes.com/svc/mostpopular/v2/viewed/-30.json?api-key=k"
    );
}

#[test]
fn nytimes_prompt_appends_abstracts() {
    let r = MostPopularNewsResponse {
        status: None,
        copyright: None,
        num_results: 3,
        results: vec![nyt(Some("A. ")), nyt(None), nyt(Some("B."))],
    };
    assert_eq!(nytimes_prompt(&r), "Rewrite this text in summarized form.A. B.");
}
