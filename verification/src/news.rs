//! Mirroring the latest news of the newsdata.io feed into the article store:
//! the query sent, what is read from each answer, and the decisions of the
//! sync, which pauses whenever it needs the feed or the store.
use vstd::prelude::*;

use crate::calendar::{before, parse_timestamp, parsed_timestamp, DateTime};
use crate::json::{
    field, field_string, field_string_or_empty, field_text, field_text_list, json_text, text_list,
    text_or_empty, Json,
};
use crate::models::{NewArticle, NewArticleView};
use crate::text::{same_text, strings_view};

verus! {

/// Parameters of a latest-news request.
pub struct LatestNewsQuery {
    pub country: Vec<String>,
    pub size: i32,
    pub page: Option<String>,
}

/// The text of an optional string slice.
pub open spec fn opt_str_text(o: Option<&str>) -> Option<Seq<char>> {
    match o {
        Some(s) => Some(s@),
        None => None,
    }
}

/// The text of an optional string.
pub open spec fn opt_string_text(o: Option<String>) -> Option<Seq<char>> {
    match o {
        Some(s) => Some(s@),
        None => None,
    }
}

/// The request for the latest news of Great Britain, the United States and
/// Hong Kong, ten articles a page, at the given page.
pub fn latest_news_query(page: Option<&str>) -> (q: LatestNewsQuery)
    ensures
        strings_view(q.country@) == seq!["gb"@, "us"@, "hk"@],
        q.size == 10,
        opt_string_text(q.page) == opt_str_text(page),
{
    let country = vec!["gb".to_owned(), "us".to_owned(), "hk".to_owned()];
    assert(strings_view(country@) =~= seq!["gb"@, "us"@, "hk"@]);
    LatestNewsQuery {
        country,
        size: 10,
        page: match page {
            Some(p) => Some(p.to_owned()),
            None => None,
        },
    }
}

/// The token of the next page of an answer: its `nextPage` member, when a
/// string.
pub fn next_page_token(page: &Json) -> (t: Option<String>)
    ensures
        opt_string_text(t) == field_text(*page, "nextPage"@),
{
    field_string(page, "nextPage")
}

/// The publication time of a feed article: its `pubDate` read as
/// `%Y-%m-%d %H:%M:%S` when it is a string (none when that cannot be
/// read); otherwise an hour before the newest stored article (none when
/// that is in the first hour of its day, which has no earlier hour).
pub open spec fn pub_date(article: Json, latest: DateTime) -> Option<DateTime> {
    match field(article, "pubDate"@) {
        Some(Json::Str(s)) => parsed_timestamp(s@),
        _ => if 1 <= latest.hour <= 24 {
            Some(DateTime { hour: (latest.hour - 1) as u32, ..latest })
        } else {
            None
        },
    }
}

/// The publication time of a feed article (see `pub_date`).
pub fn article_pub_date(article: &Json, latest: &DateTime) -> (r: Option<DateTime>)
    ensures
        r == pub_date(*article, *latest),
        latest.wf() && r is Some ==> r->0.wf(),
{
    let text: Option<&str> = match article.get("pubDate") {
        Some(v) => v.as_str(),
        None => None,
    };
    match text {
        Some(t) => parse_timestamp(t),
        None => if latest.hour >= 1 {
            latest.with_hour(latest.hour - 1)
        } else {
            None
        },
    }
}

/// A feed article's publication time is its `pubDate` read by chrono when
/// that member is a string; otherwise it is one hour before the date the
/// sync goes back to, same day, minute, second and nanosecond, which only
/// exists when that date is not in the first hour of its day.
pub proof fn law_pub_date_reads_the_member_or_goes_back_one_hour(a: Json, latest: DateTime)
    requires
        latest.wf(),
    ensures
        field(a, "pubDate"@) matches Some(Json::Str(text)) ==> pub_date(a, latest)
            == parsed_timestamp(text@),
        !(field(a, "pubDate"@) matches Some(Json::Str(_))) ==> {
            &&& latest.hour == 0 ==> pub_date(a, latest) is None
            &&& latest.hour >= 1 ==> (pub_date(a, latest) matches Some(t) && t.hour + 1
                == latest.hour && t.date == latest.date && t.minute == latest.minute && t.second
                == latest.second && t.nano == latest.nano)
        },
{
}

/// The article to store for a feed article, its publication time and its
/// source: the texts of its members (missing ones empty, lists of texts
/// keeping a hole for each non-text element), no sentiment.
pub open spec fn feed_article(a: Json, date: DateTime, source_id: i32) -> NewArticleView {
    NewArticleView {
        title: text_or_empty(a, "title"@),
        url: text_or_empty(a, "link"@),
        keywords: Some(text_list(a, "keywords"@)),
        creator: Some(text_list(a, "creator"@)),
        video_source: Some(text_or_empty(a, "video_url"@)),
        description: text_or_empty(a, "description"@),
        content: text_or_empty(a, "content"@),
        date,
        image_url: Some(text_or_empty(a, "image_url"@)),
        source_id,
        language: Some(text_or_empty(a, "language"@)),
        country: Some(text_list(a, "country"@)),
        category: Some(text_list(a, "category"@)),
        sentiment: None,
        sentiment_stat: None,
    }
}

/// The article to store takes each text from the feed article's member of
/// the same purpose (`link` for the address), an empty text when that member
/// is not a string; each list from the member of that name; and the given
/// publication time and source id.
pub proof fn law_feed_article_takes_each_member(a: Json, date: DateTime, source_id: i32)
    ensures
        ({
            let n = feed_article(a, date, source_id);
            let member = |key: Seq<char>|
                match field(a, key) {
                    Some(Json::Str(s)) => s@,
                    _ => Seq::<char>::empty(),
                };
            let list = |key: Seq<char>|
                match field(a, key) {
                    Some(Json::Array(items)) => items@.map_values(|x: Json| json_text(x)),
                    _ => Seq::<Option<Seq<char>>>::empty(),
                };
            &&& n.title == member("title"@)
            &&& n.url == member("link"@)
            &&& n.description == member("description"@)
            &&& n.content == member("content"@)
            &&& n.video_source == Some(member("video_url"@))
            &&& n.image_url == Some(member("image_url"@))
            &&& n.language == Some(member("language"@))
            &&& n.keywords == Some(list("keywords"@))
            &&& n.creator == Some(list("creator"@))
            &&& n.country == Some(list("country"@))
            &&& n.category == Some(list("category"@))
            &&& n.date == date
            &&& n.source_id == source_id
            &&& n.sentiment is None
            &&& n.sentiment_stat is None
        }),
{
}

/// Builds the article to store for a feed article (see `feed_article`).
pub fn build_feed_article(a: &Json, date: DateTime, source_id: i32) -> (n: NewArticle)
    ensures
        n@ == feed_article(*a, date, source_id),
{
    NewArticle {
        title: field_string_or_empty(a, "title"),
        url: field_string_or_empty(a, "link"),
        keywords: Some(field_text_list(a, "keywords")),
        creator: Some(field_text_list(a, "creator")),
        video_source: Some(field_string_or_empty(a, "video_url")),
        description: field_string_or_empty(a, "description"),
        content: field_string_or_empty(a, "content"),
        date,
        image_url: Some(field_string_or_empty(a, "image_url")),
        source_id,
        language: Some(field_string_or_empty(a, "language")),
        country: Some(field_text_list(a, "country")),
        category: Some(field_text_list(a, "category")),
        sentiment: None,
        sentiment_stat: None,
    }
}

/// The map of a list of key and id pairs, a later pair replacing an
/// earlier one with the same key.
pub open spec fn pairs_map(pairs: Seq<(String, i32)>) -> Map<Seq<char>, i32>
    decreases pairs.len(),
{
    if pairs.len() == 0 {
        Map::empty()
    } else {
        pairs_map(pairs.drop_last()).insert(pairs.last().0@, pairs.last().1)
    }
}

proof fn lemma_pairs_map_keys(pairs: Seq<(String, i32)>, key: Seq<char>)
    ensures
        pairs_map(pairs).contains_key(key) <==> exists|i: int|
            0 <= i < pairs.len() && (#[trigger] pairs[i]).0@ == key,
        pairs_map(pairs).contains_key(key) ==> exists|i: int|
            0 <= i < pairs.len() && (#[trigger] pairs[i]).0@ == key && pairs[i].1 == pairs_map(
                pairs,
            )[key] && forall|j: int| i < j < pairs.len() ==> (#[trigger] pairs[j]).0@ != key,
    decreases pairs.len(),
{
    if pairs.len() > 0 {
        let init = pairs.drop_last();
        lemma_pairs_map_keys(init, key);
        let n = pairs.len() - 1;
        if pairs[n].0@ == key {
            assert(pairs[n].0@ == key);
        } else {
            if pairs_map(pairs).contains_key(key) {
                let i = choose|i: int|
                    0 <= i < init.len() && (#[trigger] init[i]).0@ == key && init[i].1 == pairs_map(
                        init,
                    )[key] && forall|j: int| i < j < init.len() ==> (#[trigger] init[j]).0@ != key;
                assert(pairs[i] == init[i]);
                assert forall|j: int| i < j < pairs.len() implies (#[trigger] pairs[j]).0@ != key by {
                    if j < n {
                        assert(pairs[j] == init[j]);
                    }
                }
            }
            if exists|i: int| 0 <= i < pairs.len() && (#[trigger] pairs[i]).0@ == key {
                let i = choose|i: int| 0 <= i < pairs.len() && (#[trigger] pairs[i]).0@ == key;
                assert(init[i] == pairs[i]);
            }
        }
    }
}

/// A key is known exactly when some pair has it, and then its id is the one
/// of the last pair with that key.
pub proof fn law_last_pair_with_a_key_gives_its_id(pairs: Seq<(String, i32)>, key: Seq<char>, i: int)
    requires
        0 <= i < pairs.len(),
        pairs[i].0@ == key,
        forall|j: int| i < j < pairs.len() ==> (#[trigger] pairs[j]).0@ != key,
    ensures
        pairs_map(pairs).contains_key(key),
        pairs_map(pairs)[key] == pairs[i].1,
{
    lemma_pairs_map_keys(pairs, key);
    let k = choose|k: int|
        0 <= k < pairs.len() && (#[trigger] pairs[k]).0@ == key && pairs[k].1 == pairs_map(pairs)[key]
            && forall|j: int| k < j < pairs.len() ==> (#[trigger] pairs[j]).0@ != key;
    if k != i {
        if k < i {
            assert(pairs[i].0@ == key);
        } else {
            assert(pairs[k].0@ == key);
        }
    }
}

/// A key that no pair has is not known.
pub proof fn law_key_without_a_pair_is_unknown(pairs: Seq<(String, i32)>, key: Seq<char>)
    requires
        forall|j: int| 0 <= j < pairs.len() ==> (#[trigger] pairs[j]).0@ != key,
    ensures
        !pairs_map(pairs).contains_key(key),
{
    lemma_pairs_map_keys(pairs, key);
}

/// Known sources: source ids by key.
pub struct SourceMap {
    pub entries: Vec<(String, i32)>,
}

impl View for SourceMap {
    type V = Map<Seq<char>, i32>;

    open spec fn view(&self) -> Map<Seq<char>, i32> {
        pairs_map(self.entries@)
    }
}

impl SourceMap {
    /// The map of the given pairs; a later pair wins over an earlier one with
    /// the same key.
    pub fn from_pairs(pairs: Vec<(String, i32)>) -> (m: SourceMap)
        ensures
            m@ == pairs_map(pairs@),
    {
        SourceMap { entries: pairs }
    }

    /// The id of a key.
    pub fn get(&self, key: &str) -> (r: Option<i32>)
        ensures
            r == (if self@.contains_key(key@) {
                Some(self@[key@])
            } else {
                None
            }),
    {
        let mut i: usize = self.entries.len();
        assert(self.entries@.take(i as int) =~= self.entries@);
        while i > 0
            invariant
                i <= self.entries@.len(),
                self@.contains_key(key@) == pairs_map(self.entries@.take(i as int)).contains_key(
                    key@,
                ),
                self@.contains_key(key@) ==> self@[key@] == pairs_map(
                    self.entries@.take(i as int),
                )[key@],
            decreases i,
        {
            let ghost prefix = self.entries@.take(i as int);
            assert(prefix.drop_last() =~= self.entries@.take(i - 1));
            if same_text(self.entries[i - 1].0.as_str(), key) {
                return Some(self.entries[i - 1].1);
            }
            i = i - 1;
        }
        None
    }
}

/// A source to store.
pub struct NewSource {
    pub name: String,
    pub url: String,
    pub country: String,
    pub language: String,
}

/// The text of the first element of member `key`, when that member is an
/// array whose first element is a string.
pub open spec fn first_text(j: Json, key: Seq<char>) -> Option<Seq<char>> {
    match field(j, key) {
        Some(Json::Array(items)) => if items@.len() > 0 {
            json_text(items@[0])
        } else {
            None
        },
        _ => None,
    }
}

/// The first result of a sources answer, when `results` is an array whose
/// first element is an object.
pub open spec fn first_source(answer: Json) -> Option<Json> {
    match field(answer, "results"@) {
        Some(Json::Array(items)) => if items@.len() > 0 && items@[0] is Object {
            Some(items@[0])
        } else {
            None
        },
        _ => None,
    }
}

/// Whether a sources answer holds a source with a name, an address, a
/// country and a language.
pub open spec fn source_readable(answer: Json) -> bool {
    match first_source(answer) {
        Some(s) => {
            &&& field_text(s, "name"@) is Some
            &&& field_text(s, "url"@) is Some
            &&& first_text(s, "country"@) is Some
            &&& first_text(s, "language"@) is Some
        },
        None => false,
    }
}

/// A source with its texts as character sequences.
pub struct NewSourceView {
    pub name: Seq<char>,
    pub url: Seq<char>,
    pub country: Seq<char>,
    pub language: Seq<char>,
}

impl View for NewSource {
    type V = NewSourceView;

    open spec fn view(&self) -> NewSourceView {
        NewSourceView {
            name: self.name@,
            url: self.url@,
            country: self.country@,
            language: self.language@,
        }
    }
}

/// The source a sources answer describes: the first result's name and
/// address, and the first of its countries and of its languages.
pub open spec fn source_of(answer: Json) -> Option<NewSourceView> {
    if source_readable(answer) {
        let s = first_source(answer)->0;
        Some(
            NewSourceView {
                name: field_text(s, "name"@)->0,
                url: field_text(s, "url"@)->0,
                country: first_text(s, "country"@)->0,
                language: first_text(s, "language"@)->0,
            },
        )
    } else {
        None
    }
}

/// The source read from a sources answer has the first result's `name` as
/// its name and its `url` as its address, and the first of its `country`
/// and of its `language` lists.
pub proof fn law_source_takes_the_first_result_members(answer: Json)
    ensures
        source_of(answer) matches Some(v) ==> (field(answer, "results"@) matches Some(
            Json::Array(items),
        ) && items@.len() > 0 && {
            let first = items@[0];
            &&& (field(first, "name"@) matches Some(Json::Str(n)) && n@ == v.name)
            &&& (field(first, "url"@) matches Some(Json::Str(u)) && u@ == v.url)
            &&& (field(first, "country"@) matches Some(Json::Array(cs)) && cs@.len() > 0
                && (cs@[0] matches Json::Str(c) && c@ == v.country))
            &&& (field(first, "language"@) matches Some(Json::Array(ls)) && ls@.len() > 0
                && (ls@[0] matches Json::Str(l) && l@ == v.language))
        }),
{
}

/// The text of the first element of member `key`.
fn first_string(j: &Json, key: &str) -> (r: Option<String>)
    ensures
        opt_string_text(r) == first_text(*j, key@),
{
    match j.get(key) {
        Some(v) => match v.as_array() {
            Some(items) => {
                if items.len() > 0 {
                    match items[0].as_str() {
                        Some(t) => Some(t.to_owned()),
                        None => None,
                    }
                } else {
                    None
                }
            },
            None => None,
        },
        None => None,
    }
}

/// Reads the source of a sources answer (see `source_of`); none when the
/// answer lacks one of its parts.
pub fn read_source(answer: &Json) -> (r: Option<NewSource>)
    ensures
        match r {
            Some(s) => source_of(*answer) == Some(s@),
            None => source_of(*answer) is None,
        },
{
    let results = match answer.get("results") {
        Some(v) => v,
        None => return None,
    };
    let items = match results.as_array() {
        Some(items) => items,
        None => return None,
    };
    if items.len() == 0 {
        return None;
    }
    let s = &items[0];
    match s {
        Json::Object(_) => {},
        _ => return None,
    }
    let name = match field_string(s, "name") {
        Some(t) => t,
        None => return None,
    };
    let url = match field_string(s, "url") {
        Some(t) => t,
        None => return None,
    };
    let country = match first_string(s, "country") {
        Some(t) => t,
        None => return None,
    };
    let language = match first_string(s, "language") {
        Some(t) => t,
        None => return None,
    };
    Some(NewSource { name, url, country, language })
}

/// The ids to ask the sources endpoint for: the article's `article_id`,
/// when it is a string.
pub fn source_query_ids(article: &Json) -> (r: Option<Vec<String>>)
    ensures
        match r {
            Some(v) => field_text(*article, "article_id"@) == Some(v@[0]@) && v@.len() == 1,
            None => field_text(*article, "article_id"@) is None,
        },
{
    match field_string(article, "article_id") {
        Some(id) => Some(vec![id]),
        None => None,
    }
}


/// The newest date the sync goes back to: the newest stored article's date,
/// or two hours before now when nothing is stored. None when now is in the
/// first two hours of its day, which have no hour two hours earlier (this
/// is checked even when an article is stored).
pub open spec fn sync_start(newest_stored: Option<DateTime>, now: DateTime) -> Option<DateTime> {
    if 2 <= now.hour <= 25 {
        match newest_stored {
            Some(d) => Some(d),
            None => Some(DateTime { hour: (now.hour - 2) as u32, ..now }),
        }
    } else {
        None
    }
}

/// The sync goes back exactly to the newest stored article's date when one
/// is stored, and to two hours before now when none is; in both cases only
/// when now is past the first two hours of its day.
pub proof fn law_sync_goes_back_to_the_newest_stored_article(
    newest_stored: Option<DateTime>,
    now: DateTime,
)
    requires
        now.wf(),
    ensures
        now.hour >= 2 ==> match newest_stored {
            Some(d) => sync_start(newest_stored, now) == Some(d),
            None => sync_start(newest_stored, now) matches Some(t) && t.date == now.date && t.hour
                + 2 == now.hour && t.minute == now.minute && t.second == now.second && t.nano
                == now.nano,
        },
        now.hour < 2 ==> sync_start(newest_stored, now) is None,
{
}

/// The newest date the sync goes back to (see `sync_start`).
pub fn latest_article_date(newest_stored: Option<DateTime>, now: &DateTime) -> (r: Option<DateTime>)
    ensures
        r == sync_start(newest_stored, *now),
{
    if now.hour < 2 {
        return None;
    }
    let two_hours_earlier = match now.with_hour(now.hour - 2) {
        Some(t) => t,
        None => return None,
    };
    match newest_stored {
        Some(d) => Some(d),
        None => Some(two_hours_earlier),
    }
}

/// Where the sync stands: what it waits for next.
#[derive(Clone, Copy, Debug, PartialEq, Eq, Structural)]
pub enum SyncPhase {
    AwaitPage,
    AwaitSource,
    AwaitSourceId,
    AwaitStored,
    Finished,
}

/// Why the sync gives up.
#[derive(Clone, Copy, Debug, PartialEq, Eq, Structural)]
pub enum SyncFailure {
    /// An article's publication time cannot be read, and for one without
    /// a `pubDate` the hour before the newest stored article is not in the
    /// same day.
    NoPubDate,
    /// A sources answer lacks the first result, its name, address, country
    /// or language.
    MalformedSource,
}

/// What the caller reports to the sync.
pub enum SyncEvent {
    /// A page of latest news was fetched.
    Page(Json),
    /// A page of latest news could not be fetched.
    PageFailed,
    /// The sources answer for an article was fetched.
    SourceFetched(Json),
    /// The sources answer could not be fetched.
    SourceFetchFailed,
    /// The source was stored under this id.
    SourceStored(i32),
    /// The page's articles were stored.
    ArticlesStored,
}

/// What the sync asks the caller to do next.
pub enum SyncAction {
    /// Wait a second, then fetch the latest news page with this token.
    FetchPage(String),
    /// Wait a second, then ask the sources endpoint for these article ids.
    FetchSource(Option<Vec<String>>),
    /// Store this source and report its id.
    StoreSource(NewSource),
    /// Store these articles, skipping ones already stored.
    StoreArticles(Vec<NewArticle>),
    /// The sync is complete.
    Finish,
    /// The sync cannot go on.
    Fail(SyncFailure),
}

/// An action with its texts as character sequences.
pub enum SyncActionView {
    FetchPage(Seq<char>),
    FetchSource(Option<Seq<Seq<char>>>),
    StoreSource(NewSourceView),
    StoreArticles(Seq<NewArticleView>),
    Finish,
    Fail(SyncFailure),
}

/// The views of a list of articles.
pub open spec fn articles_view(v: Seq<NewArticle>) -> Seq<NewArticleView> {
    v.map_values(|n: NewArticle| n@)
}

impl View for SyncAction {
    type V = SyncActionView;

    open spec fn view(&self) -> SyncActionView {
        match self {
            SyncAction::FetchPage(p) => SyncActionView::FetchPage(p@),
            SyncAction::FetchSource(ids) => SyncActionView::FetchSource(
                match ids {
                    Some(v) => Some(strings_view(v@)),
                    None => None,
                },
            ),
            SyncAction::StoreSource(src) => SyncActionView::StoreSource(src@),
            SyncAction::StoreArticles(v) => SyncActionView::StoreArticles(articles_view(v@)),
            SyncAction::Finish => SyncActionView::Finish,
            SyncAction::Fail(f) => SyncActionView::Fail(*f),
        }
    }
}

/// The state of a sync: the date it goes back to, the known sources, the
/// articles of the current page and the next one to look at, the next
/// page's token, the articles taken from this page so far, whether a
/// source fetch of this page failed, and what it waits for.
pub struct SyncView {
    pub latest: DateTime,
    pub sources: Map<Seq<char>, i32>,
    pub results: Seq<Json>,
    pub position: int,
    pub next_page: Option<Seq<char>>,
    pub pending: Seq<NewArticleView>,
    pub on_error: bool,
    pub phase: SyncPhase,
}

/// The source id of an article, when its `source_id` is a known source.
pub open spec fn known_source(s: SyncView, a: Json) -> Option<i32> {
    match field_text(a, "source_id"@) {
        Some(k) => if s.sources.contains_key(k) {
            Some(s.sources[k])
        } else {
            None
        },
        None => None,
    }
}

/// Whether an article names a source that is not known.
pub open spec fn unknown_source(s: SyncView, a: Json) -> bool {
    match field_text(a, "source_id"@) {
        Some(k) => !s.sources.contains_key(k),
        None => false,
    }
}

/// The ids to ask the sources endpoint for an article.
pub open spec fn source_ids(a: Json) -> Option<Seq<Seq<char>>> {
    match field_text(a, "article_id"@) {
        Some(t) => Some(seq![t]),
        None => None,
    }
}

/// The page is done: its articles go to the store.
pub open spec fn end_page(s: SyncView) -> (SyncView, SyncActionView) {
    (
        SyncView { phase: SyncPhase::AwaitStored, pending: Seq::empty(), ..s },
        SyncActionView::StoreArticles(s.pending),
    )
}

/// Looks at the page's articles from the current one on: an article whose
/// time cannot be had stops the sync; one whose source is unknown waits
/// for that source to be fetched, unless a fetch on this page failed, in
/// which case it is skipped; the others are settled.
pub open spec fn scan(s: SyncView) -> (SyncView, SyncActionView)
    decreases s.results.len() - s.position, 1int,
{
    if s.position < 0 || s.position >= s.results.len() {
        end_page(s)
    } else {
        let a = s.results[s.position];
        match pub_date(a, s.latest) {
            None => (SyncView { phase: SyncPhase::Finished, ..s }, SyncActionView::Fail(
                SyncFailure::NoPubDate,
            )),
            Some(date) => if unknown_source(s, a) {
                if s.on_error {
                    scan(SyncView { position: s.position + 1, ..s })
                } else {
                    (
                        SyncView { phase: SyncPhase::AwaitSource, ..s },
                        SyncActionView::FetchSource(source_ids(a)),
                    )
                }
            } else {
                settle(s, date, known_source(s, a))
            },
        }
    }
}

/// Settles the current article: with a source it is taken for storing;
/// an article older than the date the sync goes back to ends the page,
/// otherwise the scan goes on with the next one.
pub open spec fn settle(s: SyncView, date: DateTime, source: Option<i32>) -> (
    SyncView,
    SyncActionView,
)
    decreases s.results.len() - s.position, 0int,
{
    let s2 = SyncView {
        pending: match source {
            Some(id) => s.pending.push(feed_article(s.results[s.position], date, id)),
            None => s.pending,
        },
        ..s
    };
    if before(date, s.latest) || s.position < 0 || s.position >= s.results.len() {
        end_page(s2)
    } else {
        scan(SyncView { position: s.position + 1, ..s2 })
    }
}

/// The publication time of the current article.
pub open spec fn current_date(s: SyncView) -> DateTime {
    pub_date(s.results[s.position], s.latest)->0
}

/// Whether the sync, in its phase, takes this event.
pub open spec fn accepts(phase: SyncPhase, e: SyncEvent) -> bool {
    match e {
        SyncEvent::Page(_) => phase == SyncPhase::AwaitPage,
        SyncEvent::PageFailed => phase == SyncPhase::AwaitPage,
        SyncEvent::SourceFetched(_) => phase == SyncPhase::AwaitSource,
        SyncEvent::SourceFetchFailed => phase == SyncPhase::AwaitSource,
        SyncEvent::SourceStored(_) => phase == SyncPhase::AwaitSourceId,
        SyncEvent::ArticlesStored => phase == SyncPhase::AwaitStored,
    }
}

/// One step of the sync: the state it moves to and what it asks for.
/// A page starts a fresh scan of its `results` (a page without them ends
/// the sync, as does a page that cannot be fetched); a fetched source is
/// stored, and a stored source settles its article; a failed source fetch
/// settles the article without a source and makes the rest of the page skip
/// unknown sources; once a page's articles are stored the next page is
/// fetched, if there is one.
pub open spec fn sync_step(s: SyncView, e: SyncEvent) -> (SyncView, SyncActionView) {
    match e {
        SyncEvent::Page(j) => match field(j, "results"@) {
            Some(Json::Array(items)) => scan(
                SyncView {
                    results: items@,
                    position: 0,
                    next_page: field_text(j, "nextPage"@),
                    pending: Seq::empty(),
                    on_error: false,
                    ..s
                },
            ),
            _ => (SyncView { phase: SyncPhase::Finished, ..s }, SyncActionView::Finish),
        },
        SyncEvent::PageFailed => (
            SyncView { phase: SyncPhase::Finished, ..s },
            SyncActionView::Finish,
        ),
        SyncEvent::SourceFetched(j) => match source_of(j) {
            Some(src) => (
                SyncView { phase: SyncPhase::AwaitSourceId, ..s },
                SyncActionView::StoreSource(src),
            ),
            None => (
                SyncView { phase: SyncPhase::Finished, ..s },
                SyncActionView::Fail(SyncFailure::MalformedSource),
            ),
        },
        SyncEvent::SourceFetchFailed => settle(
            SyncView { on_error: true, ..s },
            current_date(s),
            None,
        ),
        SyncEvent::SourceStored(id) => settle(s, current_date(s), Some(id)),
        SyncEvent::ArticlesStored => match s.next_page {
            Some(p) => (SyncView { phase: SyncPhase::AwaitPage, ..s }, SyncActionView::FetchPage(p)),
            None => (SyncView { phase: SyncPhase::Finished, ..s }, SyncActionView::Finish),
        },
    }
}

/// The phase a sync is in after asking for an action: the one that takes
/// the event answering it.
pub open spec fn phase_after(a: SyncActionView) -> SyncPhase {
    match a {
        SyncActionView::FetchPage(_) => SyncPhase::AwaitPage,
        SyncActionView::FetchSource(_) => SyncPhase::AwaitSource,
        SyncActionView::StoreSource(_) => SyncPhase::AwaitSourceId,
        SyncActionView::StoreArticles(_) => SyncPhase::AwaitStored,
        SyncActionView::Finish => SyncPhase::Finished,
        SyncActionView::Fail(_) => SyncPhase::Finished,
    }
}

proof fn lemma_scan_phase(s: SyncView)
    ensures
        scan(s).0.phase == phase_after(scan(s).1),
    decreases s.results.len() - s.position, 1int,
{
    if s.position < 0 || s.position >= s.results.len() {
    } else {
        let a = s.results[s.position];
        match pub_date(a, s.latest) {
            None => {},
            Some(date) => {
                if unknown_source(s, a) {
                    if s.on_error {
                        lemma_scan_phase(SyncView { position: s.position + 1, ..s });
                    }
                } else {
                    lemma_settle_phase(s, date, known_source(s, a));
                }
            },
        }
    }
}

proof fn lemma_settle_phase(s: SyncView, date: DateTime, source: Option<i32>)
    ensures
        settle(s, date, source).0.phase == phase_after(settle(s, date, source).1),
    decreases s.results.len() - s.position, 0int,
{
    let s2 = SyncView {
        pending: match source {
            Some(id) => s.pending.push(feed_article(s.results[s.position], date, id)),
            None => s.pending,
        },
        ..s
    };
    if before(date, s.latest) || s.position < 0 || s.position >= s.results.len() {
    } else {
        lemma_scan_phase(SyncView { position: s.position + 1, ..s2 });
    }
}

/// Every step leaves the sync in the phase that takes the answer to the
/// action it asks for: a page fetch is answered by a page (or its failure),
/// a source fetch by the source (or its failure), a source to store by its
/// id, articles to store by their being stored; after finishing or failing
/// the sync takes nothing more.
pub proof fn law_step_awaits_the_answer_to_its_action(s: SyncView, e: SyncEvent)
    ensures
        sync_step(s, e).0.phase == phase_after(sync_step(s, e).1),
{
    match e {
        SyncEvent::Page(j) => match field(j, "results"@) {
            Some(Json::Array(items)) => lemma_scan_phase(
                SyncView {
                    results: items@,
                    position: 0,
                    next_page: field_text(j, "nextPage"@),
                    pending: Seq::empty(),
                    on_error: false,
                    ..s
                },
            ),
            _ => {},
        },
        SyncEvent::SourceFetchFailed => lemma_settle_phase(
            SyncView { on_error: true, ..s },
            current_date(s),
            None,
        ),
        SyncEvent::SourceStored(id) => lemma_settle_phase(s, current_date(s), Some(id)),
        _ => {},
    }
}

/// An article older than the date the sync goes back to ends its page: it
/// is taken when its source is known, and nothing after it is looked at.
pub proof fn law_older_article_ends_the_page(s: SyncView, date: DateTime)
    requires
        0 <= s.position < s.results.len(),
        pub_date(s.results[s.position], s.latest) == Some(date),
        before(date, s.latest),
        !unknown_source(s, s.results[s.position]),
    ensures
        scan(s) == end_page(
            SyncView {
                pending: match known_source(s, s.results[s.position]) {
                    Some(id) => s.pending.push(feed_article(s.results[s.position], date, id)),
                    None => s.pending,
                },
                ..s
            },
        ),
{
    let a = s.results[s.position];
    assert(scan(s) == settle(s, date, known_source(s, a)));
}

/// An article at or after the date the sync goes back to, whose source is
/// known, is taken with that source's id and the scan goes on with the next
/// article; one naming no source as text is passed over the same way.
pub proof fn law_newer_article_is_taken_and_the_scan_goes_on(
    s: SyncView,
    date: DateTime,
    k: Seq<char>,
)
    requires
        0 <= s.position < s.results.len(),
        pub_date(s.results[s.position], s.latest) == Some(date),
        !before(date, s.latest),
    ensures
        field_text(s.results[s.position], "source_id"@) == Some(k) && s.sources.contains_key(k)
            ==> scan(s) == scan(
            SyncView {
                position: s.position + 1,
                pending: s.pending.push(
                    feed_article(s.results[s.position], date, s.sources[k]),
                ),
                ..s
            },
        ),
        field_text(s.results[s.position], "source_id"@) is None ==> scan(s) == scan(
            SyncView { position: s.position + 1, ..s },
        ),
{
    let a = s.results[s.position];
    if field_text(a, "source_id"@) is None || (field_text(a, "source_id"@) == Some(k)
        && s.sources.contains_key(k)) {
        assert(!unknown_source(s, a));
        assert(scan(s) == settle(s, date, known_source(s, a)));
    }
}

/// Once a source fetch of the page has failed, an article of an unknown
/// source is passed over without a fetch and without ending the page.
pub proof fn law_unknown_source_skipped_after_failed_fetch(s: SyncView)
    requires
        0 <= s.position < s.results.len(),
        pub_date(s.results[s.position], s.latest) is Some,
        unknown_source(s, s.results[s.position]),
        s.on_error,
    ensures
        scan(s) == scan(SyncView { position: s.position + 1, ..s }),
{
}

/// Whether an article to store is the one built from the page's article
/// `j`, with that article's publication time.
pub open spec fn drawn_at(n: NewArticleView, results: Seq<Json>, latest: DateTime, j: int) -> bool {
    &&& 0 <= j < results.len()
    &&& pub_date(results[j], latest) is Some
    &&& n == feed_article(results[j], pub_date(results[j], latest)->0, n.source_id)
}

/// Whether the articles to store are built from articles of the page that
/// stand before `bound`, one each, in page order.
pub open spec fn drawn_from(
    pending: Seq<NewArticleView>,
    results: Seq<Json>,
    latest: DateTime,
    bound: int,
) -> bool
    decreases pending.len(),
{
    if pending.len() == 0 {
        true
    } else {
        exists|j: int|
            #![trigger drawn_at(pending.last(), results, latest, j)]
            j < bound && drawn_at(pending.last(), results, latest, j) && drawn_from(
                pending.drop_last(),
                results,
                latest,
                j,
            )
    }
}

proof fn lemma_drawn_from_wider(
    pending: Seq<NewArticleView>,
    results: Seq<Json>,
    latest: DateTime,
    bound: int,
    wider: int,
)
    requires
        drawn_from(pending, results, latest, bound),
        bound <= wider || results.len() <= wider,
    ensures
        drawn_from(pending, results, latest, wider),
{
    if pending.len() > 0 {
        let j = choose|j: int|
            #![trigger drawn_at(pending.last(), results, latest, j)]
            j < bound && drawn_at(pending.last(), results, latest, j) && drawn_from(
                pending.drop_last(),
                results,
                latest,
                j,
            );
        assert(drawn_at(pending.last(), results, latest, j));
    }
}

/// The articles a state has taken are drawn from its page, before its
/// current article.
pub open spec fn taken_in_order(s: SyncView) -> bool {
    drawn_from(s.pending, s.results, s.latest, s.position)
}

/// What a step hands over for storing, if anything.
pub open spec fn handed_over(a: SyncActionView) -> Seq<NewArticleView> {
    match a {
        SyncActionView::StoreArticles(v) => v,
        _ => Seq::empty(),
    }
}

proof fn lemma_scan_keeps_order(s: SyncView)
    requires
        0 <= s.position,
        taken_in_order(s),
    ensures
        taken_in_order(scan(s).0),
        scan(s).0.results == s.results,
        scan(s).0.latest == s.latest,
        drawn_from(handed_over(scan(s).1), s.results, s.latest, s.results.len() as int),
    decreases s.results.len() - s.position, 1int,
{
    if s.position >= s.results.len() {
        lemma_drawn_from_wider(s.pending, s.results, s.latest, s.position, s.results.len() as int);
    } else {
        let a = s.results[s.position];
        match pub_date(a, s.latest) {
            None => {},
            Some(date) => {
                if unknown_source(s, a) {
                    if s.on_error {
                        let next = SyncView { position: s.position + 1, ..s };
                        lemma_drawn_from_wider(
                            s.pending,
                            s.results,
                            s.latest,
                            s.position,
                            s.position + 1,
                        );
                        lemma_scan_keeps_order(next);
                    }
                } else {
                    lemma_settle_keeps_order(s, date, known_source(s, a));
                }
            },
        }
    }
}

proof fn lemma_settle_keeps_order(s: SyncView, date: DateTime, source: Option<i32>)
    requires
        0 <= s.position < s.results.len(),
        pub_date(s.results[s.position], s.latest) == Some(date),
        taken_in_order(s),
    ensures
        taken_in_order(settle(s, date, source).0),
        settle(s, date, source).0.results == s.results,
        settle(s, date, source).0.latest == s.latest,
        drawn_from(
            handed_over(settle(s, date, source).1),
            s.results,
            s.latest,
            s.results.len() as int,
        ),
    decreases s.results.len() - s.position, 0int,
{
    let p = s.position;
    let pending2 = match source {
        Some(id) => s.pending.push(feed_article(s.results[p], date, id)),
        None => s.pending,
    };
    let s2 = SyncView { pending: pending2, ..s };
    match source {
        Some(id) => {
            assert(pending2.drop_last() =~= s.pending);
            assert(drawn_at(pending2.last(), s.results, s.latest, p));
            assert(drawn_from(pending2, s.results, s.latest, p + 1));
        },
        None => {
            lemma_drawn_from_wider(s.pending, s.results, s.latest, p, p + 1);
        },
    }
    if before(date, s.latest) {
        lemma_drawn_from_wider(pending2, s.results, s.latest, p + 1, s.results.len() as int);
    } else {
        lemma_scan_keeps_order(SyncView { position: p + 1, ..s2 });
    }
}

/// The articles a sync hands over for storing are built from articles of
/// the page being scanned, one each, in page order, each with its own
/// publication time; and every step keeps the articles taken so far so.
pub proof fn law_stored_articles_come_from_the_page_in_order(s: SyncView, e: SyncEvent)
    requires
        sync_wf(s),
        taken_in_order(s),
        accepts(s.phase, e),
    ensures
        taken_in_order(sync_step(s, e).0),
        drawn_from(
            handed_over(sync_step(s, e).1),
            sync_step(s, e).0.results,
            sync_step(s, e).0.latest,
            sync_step(s, e).0.results.len() as int,
        ),
{
    match e {
        SyncEvent::Page(j) => match field(j, "results"@) {
            Some(Json::Array(items)) => lemma_scan_keeps_order(
                SyncView {
                    results: items@,
                    position: 0,
                    next_page: field_text(j, "nextPage"@),
                    pending: Seq::empty(),
                    on_error: false,
                    ..s
                },
            ),
            _ => {},
        },
        SyncEvent::SourceFetchFailed => lemma_settle_keeps_order(
            SyncView { on_error: true, ..s },
            current_date(s),
            None,
        ),
        SyncEvent::SourceStored(id) => lemma_settle_keeps_order(s, current_date(s), Some(id)),
        _ => {},
    }
}

/// A sync of the latest news into the article store.
pub struct NewsSync {
    latest: DateTime,
    sources: SourceMap,
    results: Vec<Json>,
    position: usize,
    next_page: Option<String>,
    pending: Vec<NewArticle>,
    on_error: bool,
    phase: SyncPhase,
}

impl View for NewsSync {
    type V = SyncView;

    closed spec fn view(&self) -> SyncView {
        SyncView {
            latest: self.latest,
            sources: self.sources@,
            results: self.results@,
            position: self.position as int,
            next_page: opt_string_text(self.next_page),
            pending: articles_view(self.pending@),
            on_error: self.on_error,
            phase: self.phase,
        }
    }
}

/// A state the sync can be in: the current article exists, and while a
/// source is awaited for it its publication time can be had.
pub open spec fn sync_wf(s: SyncView) -> bool {
    &&& 0 <= s.position <= s.results.len()
    &&& (s.phase == SyncPhase::AwaitSource || s.phase == SyncPhase::AwaitSourceId) ==> {
        &&& s.position < s.results.len()
        &&& pub_date(s.results[s.position], s.latest) is Some
    }
}

impl NewsSync {
    /// A sync going back to `latest`, knowing `sources`, waiting for its
    /// first page.
    pub fn new(latest: DateTime, sources: SourceMap) -> (s: NewsSync)
        ensures
            s@ == (SyncView {
                latest,
                sources: sources@,
                results: Seq::empty(),
                position: 0,
                next_page: None,
                pending: Seq::empty(),
                on_error: false,
                phase: SyncPhase::AwaitPage,
            }),
            sync_wf(s@),
            taken_in_order(s@),
    {
        let s = NewsSync {
            latest,
            sources,
            results: Vec::new(),
            position: 0,
            next_page: None,
            pending: Vec::new(),
            on_error: false,
            phase: SyncPhase::AwaitPage,
        };
        assert(articles_view(s.pending@) =~= Seq::<NewArticleView>::empty());
        s
    }

    /// What the sync waits for.
    pub fn phase(&self) -> (p: SyncPhase)
        ensures
            p == self@.phase,
    {
        self.phase
    }

    /// Hands the page's articles over and waits for them to be stored.
    fn end_page(&mut self) -> (action: SyncAction)
        requires
            0 <= old(self)@.position <= old(self)@.results.len(),
        ensures
            (final(self)@, action@) == end_page(old(self)@),
            sync_wf(final(self)@),
    {
        let mut articles: Vec<NewArticle> = Vec::new();
        std::mem::swap(&mut articles, &mut self.pending);
        self.phase = SyncPhase::AwaitStored;
        assert(articles_view(self.pending@) =~= Seq::<NewArticleView>::empty());
        SyncAction::StoreArticles(articles)
    }

    /// Settles the current article (see `settle`); none when the scan is to
    /// go on from the next article, which it then stands at.
    fn settle(&mut self, date: DateTime, source: Option<i32>) -> (r: Option<SyncAction>)
        requires
            0 <= old(self)@.position < old(self)@.results.len(),
        ensures
            match r {
                Some(action) => {
                    &&& (final(self)@, action@) == settle(old(self)@, date, source)
                    &&& sync_wf(final(self)@)
                },
                None => {
                    &&& scan(final(self)@) == settle(old(self)@, date, source)
                    &&& final(self)@.position == old(self)@.position + 1
                    &&& final(self)@.results == old(self)@.results
                },
            },
    {
        match source {
            Some(id) => {
                let article = build_feed_article(&self.results[self.position], date, id);
                let ghost before = articles_view(self.pending@);
                self.pending.push(article);
                assert(articles_view(self.pending@) =~= before.push(article@));
            },
            None => {},
        }
        if date.is_before(&self.latest) {
            return Some(self.end_page());
        }
        let n = self.results.len();
        assert(self.position < n);
        self.position = self.position + 1;
        None
    }

    /// Scans the page from the current article on (see `scan`).
    fn scan(&mut self) -> (action: SyncAction)
        requires
            0 <= old(self)@.position <= old(self)@.results.len(),
        ensures
            (final(self)@, action@) == scan(old(self)@),
            sync_wf(final(self)@),
    {
        let ghost target = scan(self@);
        loop
            invariant
                0 <= self@.position <= self@.results.len(),
                scan(self@) == target,
                target == scan(old(self)@),
            decreases self.results@.len() - self.position,
        {
            if self.position >= self.results.len() {
                return self.end_page();
            }
            let date = match article_pub_date(&self.results[self.position], &self.latest) {
                Some(d) => d,
                None => {
                    self.phase = SyncPhase::Finished;
                    return SyncAction::Fail(SyncFailure::NoPubDate);
                },
            };
            let key = field_string(&self.results[self.position], "source_id");
            let source: Option<i32> = match key {
                Some(k) => match self.sources.get(k.as_str()) {
                    Some(id) => Some(id),
                    None => {
                        if self.on_error {
                            let n = self.results.len();
                            assert(self.position < n);
                            self.position = self.position + 1;
                            continue ;
                        }
                        let ids = source_query_ids(&self.results[self.position]);
                        self.phase = SyncPhase::AwaitSource;
                        proof {
                            assert(ids matches Some(v) ==> strings_view(v@) =~= seq![v@[0]@]);
                        }
                        return SyncAction::FetchSource(ids);
                    },
                },
                None => None,
            };
            match self.settle(date, source) {
                Some(action) => {
                    return action;
                },
                None => {},
            }
        }
    }

    /// Takes an event and says what to do next (see `sync_step`).
    pub fn step(&mut self, event: SyncEvent) -> (action: SyncAction)
        requires
            sync_wf(old(self)@),
            accepts(old(self)@.phase, event),
        ensures
            (final(self)@, action@) == sync_step(old(self)@, event),
            sync_wf(final(self)@),
    {
        match event {
            SyncEvent::Page(j) => {
                let next = next_page_token(&j);
                match j.into_field("results") {
                    Some(Json::Array(items)) => {
                        self.results = items;
                        self.position = 0;
                        self.next_page = next;
                        self.pending = Vec::new();
                        self.on_error = false;
                        assert(articles_view(self.pending@) =~= Seq::<NewArticleView>::empty());
                        self.scan()
                    },
                    _ => {
                        self.phase = SyncPhase::Finished;
                        SyncAction::Finish
                    },
                }
            },
            SyncEvent::PageFailed => {
                self.phase = SyncPhase::Finished;
                SyncAction::Finish
            },
            SyncEvent::SourceFetched(j) => match read_source(&j) {
                Some(src) => {
                    self.phase = SyncPhase::AwaitSourceId;
                    SyncAction::StoreSource(src)
                },
                None => {
                    self.phase = SyncPhase::Finished;
                    SyncAction::Fail(SyncFailure::MalformedSource)
                },
            },
            SyncEvent::SourceFetchFailed => {
                self.on_error = true;
                self.resume(None)
            },
            SyncEvent::SourceStored(id) => self.resume(Some(id)),
            SyncEvent::ArticlesStored => match &self.next_page {
                Some(p) => {
                    let token = p.clone();
                    self.phase = SyncPhase::AwaitPage;
                    SyncAction::FetchPage(token)
                },
                None => {
                    self.phase = SyncPhase::Finished;
                    SyncAction::Finish
                },
            },
        }
    }

    /// Settles the article whose source was awaited, then scans on.
    fn resume(&mut self, source: Option<i32>) -> (action: SyncAction)
        requires
            sync_wf(old(self)@),
            old(self)@.phase == SyncPhase::AwaitSource || old(self)@.phase
                == SyncPhase::AwaitSourceId,
        ensures
            (final(self)@, action@) == settle(old(self)@, current_date(old(self)@), source),
            sync_wf(final(self)@),
    {
        let date = match article_pub_date(&self.results[self.position], &self.latest) {
            Some(d) => d,
            None => {
                return SyncAction::Finish;
            },
        };
        match self.settle(date, source) {
            Some(action) => action,
            None => self.scan(),
        }
    }
}

} // verus!
