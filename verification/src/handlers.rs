//! What the service's routes compute: the root's answer, the stored
//! summary's fallback text, the prompts, the summary settings of each route
//! and the database address.
use vstd::prelude::*;
use vstd::string::StringExecFns;

use crate::calendar::{format_ymd, ymd_text, Date};
use crate::models::Article;
use crate::summarizer::SummaryOptions;
use crate::text::{joined, join_strings, strings_view};

verus! {

/// The answer of the service's root route.
pub fn index() -> (r: &'static str)
    ensures
        r@ == "OK"@,
{
    "OK"
}

/// The first stored summary of the day, or a note that the day has none.
pub fn summary_or_unavailable(contents: &Vec<String>, date: &Date) -> (s: String)
    requires
        date.wf(),
    ensures
        contents@.len() > 0 ==> s@ == contents@[0]@,
        contents@.len() == 0 ==> s@ == "The summary of "@ + ymd_text(*date) + " is not available."@,
{
    if contents.len() > 0 {
        contents[0].clone()
    } else {
        let mut s = "The summary of ".to_owned();
        let day = format_ymd(date);
        s.append(day.as_str());
        s.append(" is not available.");
        s
    }
}

/// The countries of an article as the prompt lists them: a missing list
/// counts as one empty name, a missing name as the empty name, joined by
/// commas.
pub open spec fn region_text(a: Article) -> Seq<char> {
    match a.country {
        Some(v) => joined(
            v@.map_values(
                |c: Option<String>|
                    match c {
                        Some(s) => s@,
                        None => Seq::empty(),
                    },
            ),
            ", "@,
        ),
        None => Seq::empty(),
    }
}

/// One article's part of the daily prompt.
pub open spec fn article_entry(a: Article) -> Seq<char> {
    "---\nContent: "@ + a.description@ + "\n Region: "@ + region_text(a) + "\n---\n"@
}

/// The articles' parts one after the other.
pub open spec fn article_entries(arts: Seq<Article>) -> Seq<char>
    decreases arts.len(),
{
    if arts.len() == 0 {
        Seq::empty()
    } else {
        article_entries(arts.drop_last()) + article_entry(arts.last())
    }
}

/// The opening of the daily prompt.
pub open spec fn daily_prompt_head() -> Seq<char> {
    "Summarize following articles in 200 words or less.\nProvided that --- is separator between articles.---\n"@
}

/// The countries of an article, joined by commas.
fn region_of(a: &Article) -> (r: String)
    ensures
        r@ == region_text(*a),
{
    match &a.country {
        Some(v) => {
            let mut names: Vec<String> = Vec::new();
            let n = v.len();
            let mut i: usize = 0;
            while i < n
                invariant
                    i <= n,
                    n == v@.len(),
                    strings_view(names@) == v@.take(i as int).map_values(
                        |c: Option<String>|
                            match c {
                                Some(s) => s@,
                                None => Seq::<char>::empty(),
                            },
                    ),
                decreases n - i,
            {
                let name = match &v[i] {
                    Some(s) => s.clone(),
                    None => String::new(),
                };
                let ghost before = strings_view(names@);
                names.push(name);
                proof {
                    assert(strings_view(names@) =~= before.push(name@));
                    assert(v@.take(i + 1).map_values(
                        |c: Option<String>|
                            match c {
                                Some(s) => s@,
                                None => Seq::<char>::empty(),
                            },
                    ) =~= v@.take(i as int).map_values(
                        |c: Option<String>|
                            match c {
                                Some(s) => s@,
                                None => Seq::<char>::empty(),
                            },
                    ).push(name@));
                }
                i = i + 1;
            }
            assert(v@.take(n as int) =~= v@);
            join_strings(&names, ", ")
        },
        None => String::new(),
    }
}

/// The prompt for the daily summary: the instruction, then each article's
/// description and countries between `---` separators.
pub fn daily_summary_prompt(articles: &Vec<Article>) -> (prompt: String)
    ensures
        prompt@ == daily_prompt_head() + article_entries(articles@),
{
    let mut prompt =
        "Summarize following articles in 200 words or less.\nProvided that --- is separator between articles.---\n".to_owned();
    let n = articles.len();
    let mut i: usize = 0;
    while i < n
        invariant
            i <= n,
            n == articles@.len(),
            prompt@ == daily_prompt_head() + article_entries(articles@.take(i as int)),
        decreases n - i,
    {
        let a = &articles[i];
        let region = region_of(a);
        prompt.append("---\nContent: ");
        prompt.append(a.description.as_str());
        prompt.append("\n Region: ");
        prompt.append(region.as_str());
        prompt.append("\n---\n");
        assert(articles@.take(i + 1).drop_last() =~= articles@.take(i as int));
        i = i + 1;
    }
    assert(articles@.take(n as int) =~= articles@);
    prompt
}

/// Settings of the daily summary: model `gpt-4o-mini`, an empty additional
/// instruction, chunks of at least 10000 tokens cut at commas, recursive and
/// verbose. (The route also asks for full detail.)
pub fn daily_summary_options() -> (o: SummaryOptions)
    ensures
        o.model@ == "gpt-4o-mini"@,
        o.minimal_chunk_size == 10000,
        o.chunk_delimiter@ == ","@,
        o.summarize_recursively,
        o.verbose,
{
    SummaryOptions::resolve(Some("gpt-4o-mini"), Some(10000), Some(","), Some(true), Some(true))
}

/// Settings of the New York Times summary: model `gpt-4-turbo`, an empty
/// additional instruction, chunks of at least 10000 tokens cut at commas,
/// recursive and verbose. (The route also asks for full detail.)
pub fn nytimes_summary_options() -> (o: SummaryOptions)
    ensures
        o.model@ == "gpt-4-turbo"@,
        o.minimal_chunk_size == 10000,
        o.chunk_delimiter@ == ","@,
        o.summarize_recursively,
        o.verbose,
{
    SummaryOptions::resolve(Some("gpt-4-turbo"), Some(10000), Some(","), Some(true), Some(true))
}

/// The PostgreSQL address for a user, password, host and database.
pub fn database_url(user: &str, password: &str, host: &str, db: &str) -> (url: String)
    ensures
        url@ == "postgres://"@ + user@ + ":"@ + password@ + "@"@ + host@ + "/"@ + db@,
{
    let mut url = "postgres://".to_owned();
    url.append(user);
    url.append(":");
    url.append(password);
    url.append("@");
    url.append(host);
    url.append("/");
    url.append(db);
    url
}

} // verus!
