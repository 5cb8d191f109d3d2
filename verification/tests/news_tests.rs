use news_summarizer::calendar::{Date, DateTime};
use news_summarizer::json::{field_string, field_string_or_empty, field_text_list, Json};
use news_summarizer::news::{
    article_pub_date, build_feed_article, latest_article_date, latest_news_query, next_page_token,
    read_source, source_query_ids, NewsSync, SourceMap, SyncAction, SyncEvent, SyncFailure,
    SyncPhase,
};

fn s(t: &str) -> Json {
    Json::Str(String::from(t))
}

fn obj(members: Vec<(&str, Json)>) -> Json {
    Json::Object(members.into_iter().map(|(k, v)| (String::from(k), v)).collect())
}

fn at(year: i32, month: u32, day: u32, hour: u32, minute: u32) -> DateTime {
    DateTime { date: Date { year, month, day }, hour, minute, second: 0, nano: 0 }
}

fn article(title: &str, pub_date: &str, source: &str) -> Json {
    obj(vec![
        ("article_id", s(&format!("id-{}", title))),
        ("title", s(title)),
        ("link", s(&format!("https://x/{}", title))),
        ("keywords", Json::Array(vec![s("k1"), Json::Null, s("k2")])),
        ("pubDate", s(pub_date)),
        ("source_id", s(source)),
        ("country", Json::Array(vec![s("us")])),
    ])
}

fn page(results: Vec<Json>, next: Option<&str>) -> Json {
    let mut members = vec![("status", s("success")), ("results", Json::Array(results))];
    if let Some(n) = next {
        members.push(("nextPage", s(n)));
    }
    obj(members)
}

fn sources() -> SourceMap {
    SourceMap::from_pairs(vec![(String::from("bbc"), 1), (String::from("cnn"), 2)])
}

fn titles(action: &SyncAction) -> Vec<String> {
    match action {
        SyncAction::StoreArticles(v) => v.iter().map(|a| a.title.clone()).collect(),
        _ => panic!("expected articles to store"),
    }
}

#[test]
fn json_reads_members_texts_and_lists() {
    let j = obj(vec![("a", s("x")), ("n", Json::Number(String::from("3"))), ("a", s("y"))]);
    assert_eq!(j.get("a"), Some(&s("x")));
    assert_eq!(j.get("zz"), None);
    assert_eq!(s("x").get("a"), None);
    assert_eq!(field_string(&j, "a"), Some(String::from("x")));
    assert_eq!(field_string(&j, "n"), None);
    assert_eq!(field_string_or_empty(&j, "n"), "");
    let l = obj(vec![("l", Json::Array(vec![s("p"), Json::Bool(true), s("q")]))]);
    assert_eq!(field_text_list(&l, "l"), vec![Some(String::from("p")), None, Some(String::from("q"))]);
    assert_eq!(field_text_list(&l, "missing"), Vec::<Option<String>>::new());
    assert_eq!(j.into_field("n"), Some(Json::Number(String::from("3"))));
}

#[test]
fn query_asks_three_countries_ten_a_page() {
    let q = latest_news_query(None);
    assert_eq!(q.country, vec![String::from("gb"), String::from("us"), String::from("hk")]);
    assert_eq!(q.size, 10);
    assert_eq!(q.page, None);
    assert_eq!(latest_news_query(Some("tok")).page, Some(String::from("tok")));
}

#[test]
fn next_page_token_is_a_text_next_page() {
    assert_eq!(next_page_token(&page(vec![], Some("p2"))), Some(String::from("p2")));
    assert_eq!(next_page_token(&page(vec![], None)), None);
    assert_eq!(next_page_token(&obj(vec![("nextPage", Json::Null)])), None);
}

#[test]
fn pub_date_parses_or_falls_back_an_hour_before_latest() {
    let latest = at(2024, 3, 5, 10, 30);
    assert_eq!(article_pub_date(&article("a", "2024-03-05 09:00:00", "bbc"), &latest), Some(at(2024, 3, 5, 9, 0)));
    assert_eq!(article_pub_date(&obj(vec![]), &latest), Some(at(2024, 3, 5, 9, 30)));
    assert_eq!(article_pub_date(&obj(vec![("pubDate", Json::Null)]), &latest), Some(at(2024, 3, 5, 9, 30)));
    assert_eq!(article_pub_date(&article("a", "garbage", "bbc"), &latest), None);
    assert_eq!(article_pub_date(&obj(vec![]), &at(2024, 3, 5, 0, 30)), None);
}

#[test]
fn sync_start_is_newest_stored_or_two_hours_ago() {
    let now = at(2024, 3, 5, 10, 30);
    assert_eq!(latest_article_date(None, &now), Some(at(2024, 3, 5, 8, 30)));
    assert_eq!(latest_article_date(Some(at(2024, 3, 1, 1, 0)), &now), Some(at(2024, 3, 1, 1, 0)));
    assert_eq!(latest_article_date(Some(at(2024, 3, 1, 1, 0)), &at(2024, 3, 5, 1, 0)), None);
}

#[test]
fn feed_article_takes_texts_and_empties() {
    let a = article("t", "2024-03-05 09:00:00", "bbc");
    let n = build_feed_article(&a, at(2024, 3, 5, 9, 0), 7);
    assert_eq!(n.title, "t");
    assert_eq!(n.url, "https://x/t");
    assert_eq!(n.keywords, Some(vec![Some(String::from("k1")), None, Some(String::from("k2"))]));
    assert_eq!(n.creator, Some(vec![]));
    assert_eq!(n.video_source, Some(String::new()));
    assert_eq!(n.description, "");
    assert_eq!(n.image_url, Some(String::new()));
    assert_eq!(n.language, Some(String::new()));
    assert_eq!(n.country, Some(vec![Some(String::from("us"))]));
    assert_eq!(n.category, Some(vec![]));
    assert_eq!(n.source_id, 7);
    assert_eq!(n.date, at(2024, 3, 5, 9, 0));
    assert_eq!(n.sentiment, None);
    assert_eq!(n.sentiment_stat, None);
}

#[test]
fn later_source_pair_wins() {
    let m = SourceMap::from_pairs(vec![(String::from("a"), 1), (String::from("b"), 2), (String::from("a"), 3)]);
    assert_eq!(m.get("a"), Some(3));
    assert_eq!(m.get("b"), Some(2));
    assert_eq!(m.get("c"), None);
}

#[test]
fn read_source_needs_every_part() {
    let good = obj(vec![(
        "results",
        Json::Array(vec![obj(vec![
            ("name", s("BBC")),
            ("url", s("https://bbc")),
            ("country", Json::Array(vec![s("gb"), s("us")])),
            ("language", Json::Array(vec![s("en")])),
        ])]),
    )]);
    let src = read_source(&good).unwrap();
    assert_eq!((src.name.as_str(), src.url.as_str(), src.country.as_str(), src.language.as_str()), ("BBC", "https://bbc", "gb", "en"));
    assert!(read_source(&obj(vec![("results", Json::Array(vec![]))])).is_none());
    assert!(read_source(&obj(vec![("results", s("x"))])).is_none());
    let no_language = obj(vec![(
        "results",
        Json::Array(vec![obj(vec![("name", s("n")), ("url", s("u")), ("country", Json::Array(vec![s("gb")]))])]),
    )]);
    assert!(read_source(&no_language).is_none());
}

#[test]
fn source_query_uses_the_article_id() {
    assert_eq!(source_query_ids(&article("t", "", "bbc")), Some(vec![String::from("id-t")]));
    assert_eq!(source_query_ids(&obj(vec![])), None);
}

#[test]
fn page_without_results_finishes() {
    let mut sync = NewsSync::new(at(2024, 3, 5, 8, 0), sources());
    assert!(matches!(sync.step(SyncEvent::Page(obj(vec![]))), SyncAction::Finish));
    assert_eq!(sync.phase(), SyncPhase::Finished);
}

#[test]
fn known_sources_are_stored_and_next_page_fetched() {
    let mut sync = NewsSync::new(at(2024, 3, 5, 8, 0), sources());
    let p = page(
        vec![article("a", "2024-03-05 09:00:00", "bbc"), article("b", "2024-03-05 08:30:00", "cnn")],
        Some("p2"),
    );
    let action = sync.step(SyncEvent::Page(p));
    assert_eq!(titles(&action), vec!["a", "b"]);
    if let SyncAction::StoreArticles(v) = &action {
        assert_eq!(v[0].source_id, 1);
        assert_eq!(v[1].source_id, 2);
    }
    match sync.step(SyncEvent::ArticlesStored) {
        SyncAction::FetchPage(t) => assert_eq!(t, "p2"),
        _ => panic!("expected the next page"),
    }
    assert!(matches!(sync.step(SyncEvent::PageFailed), SyncAction::Finish));
}

#[test]
fn an_older_article_ends_the_page() {
    let mut sync = NewsSync::new(at(2024, 3, 5, 8, 0), sources());
    let p = page(
        vec![
            article("new", "2024-03-05 09:00:00", "bbc"),
            article("old", "2024-03-05 07:00:00", "bbc"),
            article("never", "2024-03-05 09:30:00", "bbc"),
        ],
        None,
    );
    let action = sync.step(SyncEvent::Page(p));
    assert_eq!(titles(&action), vec!["new", "old"]);
    assert!(matches!(sync.step(SyncEvent::ArticlesStored), SyncAction::Finish));
}

#[test]
fn unknown_source_is_fetched_and_stored() {
    let mut sync = NewsSync::new(at(2024, 3, 5, 8, 0), sources());
    let p = page(vec![article("a", "2024-03-05 09:00:00", "fox"), article("b", "2024-03-05 09:00:00", "bbc")], None);
    match sync.step(SyncEvent::Page(p)) {
        SyncAction::FetchSource(ids) => assert_eq!(ids, Some(vec![String::from("id-a")])),
        _ => panic!("expected a source fetch"),
    }
    let answer = obj(vec![(
        "results",
        Json::Array(vec![obj(vec![
            ("name", s("Fox")),
            ("url", s("https://fox")),
            ("country", Json::Array(vec![s("us")])),
            ("language", Json::Array(vec![s("en")])),
        ])]),
    )]);
    match sync.step(SyncEvent::SourceFetched(answer)) {
        SyncAction::StoreSource(src) => assert_eq!(src.name, "Fox"),
        _ => panic!("expected a source to store"),
    }
    let action = sync.step(SyncEvent::SourceStored(42));
    assert_eq!(titles(&action), vec!["a", "b"]);
    if let SyncAction::StoreArticles(v) = &action {
        assert_eq!(v[0].source_id, 42);
    }
}

#[test]
fn after_a_failed_source_fetch_unknown_sources_are_skipped() {
    let mut sync = NewsSync::new(at(2024, 3, 5, 8, 0), sources());
    let p = page(
        vec![
            article("a", "2024-03-05 09:00:00", "fox"),
            article("b", "2024-03-05 09:00:00", "abc"),
            article("c", "2024-03-05 09:00:00", "bbc"),
        ],
        None,
    );
    assert!(matches!(sync.step(SyncEvent::Page(p)), SyncAction::FetchSource(_)));
    let action = sync.step(SyncEvent::SourceFetchFailed);
    assert_eq!(titles(&action), vec!["c"]);
}

#[test]
fn a_malformed_source_answer_fails() {
    let mut sync = NewsSync::new(at(2024, 3, 5, 8, 0), sources());
    let p = page(vec![article("a", "2024-03-05 09:00:00", "fox")], None);
    assert!(matches!(sync.step(SyncEvent::Page(p)), SyncAction::FetchSource(_)));
    match sync.step(SyncEvent::SourceFetched(obj(vec![]))) {
        SyncAction::Fail(f) => assert_eq!(f, SyncFailure::MalformedSource),
        _ => panic!("expected a failure"),
    }
}

#[test]
fn an_unreadable_pub_date_fails() {
    let mut sync = NewsSync::new(at(2024, 3, 5, 8, 0), sources());
    let p = page(vec![article("a", "March 5th", "bbc")], None);
    match sync.step(SyncEvent::Page(p)) {
        SyncAction::Fail(f) => assert_eq!(f, SyncFailure::NoPubDate),
        _ => panic!("expected a failure"),
    }
}

#[test]
fn an_article_without_a_text_source_is_not_stored_but_can_end_the_page() {
    let mut sync = NewsSync::new(at(2024, 3, 5, 8, 0), sources());
    let mut no_source = article("x", "2024-03-05 07:00:00", "bbc");
    if let Json::Object(members) = &mut no_source {
        members.retain(|(k, _)| k != "source_id");
    }
    let p = page(vec![no_source, article("y", "2024-03-05 09:00:00", "bbc")], None);
    let action = sync.step(SyncEvent::Page(p));
    assert_eq!(titles(&action), Vec::<String>::new());
}

#[test]
fn each_action_leaves_the_phase_that_takes_its_answer() {
    let mut sync = NewsSync::new(at(2024, 3, 5, 8, 0), sources());
    assert_eq!(sync.phase(), SyncPhase::AwaitPage);
    let p = page(vec![article("a", "2024-03-05 09:00:00", "fox")], Some("p2"));
    assert!(matches!(sync.step(SyncEvent::Page(p)), SyncAction::FetchSource(_)));
    assert_eq!(sync.phase(), SyncPhase::AwaitSource);
    let answer = obj(vec![(
        "results",
        Json::Array(vec![obj(vec![
            ("name", s("Fox")),
            ("url", s("https://fox")),
            ("country", Json::Array(vec![s("us")])),
            ("language", Json::Array(vec![s("en")])),
        ])]),
    )]);
    assert!(matches!(sync.step(SyncEvent::SourceFetched(answer)), SyncAction::StoreSource(_)));
    assert_eq!(sync.phase(), SyncPhase::AwaitSourceId);
    assert!(matches!(sync.step(SyncEvent::SourceStored(5)), SyncAction::StoreArticles(_)));
    assert_eq!(sync.phase(), SyncPhase::AwaitStored);
    assert!(matches!(sync.step(SyncEvent::ArticlesStored), SyncAction::FetchPage(_)));
    assert_eq!(sync.phase(), SyncPhase::AwaitPage);
    assert!(matches!(sync.step(SyncEvent::Page(page(vec![], None))), SyncAction::StoreArticles(_)));
    assert!(matches!(sync.step(SyncEvent::ArticlesStored), SyncAction::Finish));
    assert_eq!(sync.phase(), SyncPhase::Finished);
}

#[test]
fn a_new_page_resets_the_failed_fetch_flag() {
    let mut sync = NewsSync::new(at(2024, 3, 5, 8, 0), sources());
    let p = page(vec![article("a", "2024-03-05 09:00:00", "fox")], Some("p2"));
    assert!(matches!(sync.step(SyncEvent::Page(p)), SyncAction::FetchSource(_)));
    assert_eq!(titles(&sync.step(SyncEvent::SourceFetchFailed)), Vec::<String>::new());
    assert!(matches!(sync.step(SyncEvent::ArticlesStored), SyncAction::FetchPage(_)));
    let p2 = page(vec![article("b", "2024-03-05 09:00:00", "abc")], None);
    assert!(matches!(sync.step(SyncEvent::Page(p2)), SyncAction::FetchSource(_)));
}
