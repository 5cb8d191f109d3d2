//! The summarisation conversation: a text is cut into chunks sized from the
//! requested level of detail, each chunk is sent to a chat model in turn
//! (optionally together with the summaries so far), and the answers are
//! joined into the final summary. The model calls are made by the caller:
//! this module says what to ask next and takes the answers.
use vstd::prelude::*;
use vstd::string::StringExecFns;

use crate::text::{joined, join_strings, strings_view};
use crate::tokenizer::{chunk_on_delimiter, delimited_chunks, p50k_tokens, tokenize};

verus! {

/// Model used when none is given.
pub open spec fn default_model() -> Seq<char> {
    "gpt-4-turbo"@
}

/// Options of a summary with their defaults filled in.
pub struct SummaryOptions {
    pub model: String,
    pub minimal_chunk_size: usize,
    pub chunk_delimiter: String,
    pub summarize_recursively: bool,
    pub verbose: bool,
}

/// The text or, when absent, the default.
pub open spec fn str_or(o: Option<&str>, default: Seq<char>) -> Seq<char> {
    match o {
        Some(s) => s@,
        None => default,
    }
}

impl SummaryOptions {
    /// Fills in the defaults: model `gpt-4-turbo`, minimal chunk size 500
    /// tokens, delimiter `.`, not recursive, not verbose.
    pub fn resolve(
        model: Option<&str>,
        minimal_chunk_size: Option<usize>,
        chunk_delimiter: Option<&str>,
        summarize_recursively: Option<bool>,
        verbose: Option<bool>,
    ) -> (o: SummaryOptions)
        ensures
            o.model@ == str_or(model, default_model()),
            o.minimal_chunk_size == (match minimal_chunk_size {
                Some(n) => n,
                None => 500,
            }),
            o.chunk_delimiter@ == str_or(chunk_delimiter, "."@),
            o.summarize_recursively == (match summarize_recursively {
                Some(b) => b,
                None => false,
            }),
            o.verbose == (match verbose {
                Some(b) => b,
                None => false,
            }),
    {
        let model = match model {
            Some(m) => m.to_owned(),
            None => "gpt-4-turbo".to_owned(),
        };
        let chunk_delimiter = match chunk_delimiter {
            Some(d) => d.to_owned(),
            None => ".".to_owned(),
        };
        SummaryOptions {
            model,
            minimal_chunk_size: match minimal_chunk_size {
                Some(n) => n,
                None => 500,
            },
            chunk_delimiter,
            summarize_recursively: match summarize_recursively {
                Some(b) => b,
                None => false,
            },
            verbose: match verbose {
                Some(b) => b,
                None => false,
            },
        }
    }
}

/// The most chunks a summary of the text can have: as many as the text has
/// when cut at the minimal chunk size. None when the tokenizer fails.
pub fn max_summary_chunks(input_str: &String, options: &SummaryOptions) -> (n: Option<usize>)
    ensures
        match n {
            Some(k) => delimited_chunks(
                input_str@,
                options.minimal_chunk_size,
                options.chunk_delimiter@,
            ) matches Some(cs) && cs.len() == k,
            None => delimited_chunks(
                input_str@,
                options.minimal_chunk_size,
                options.chunk_delimiter@,
            ) is None,
        },
{
    match chunk_on_delimiter(input_str, options.minimal_chunk_size, options.chunk_delimiter.as_str()) {
        Some(chunks) => Some(chunks.len()),
        None => None,
    }
}

/// Tokens per chunk for a document of `document_length` tokens cut into
/// `num_chunks` chunks, never below the minimal chunk size.
pub open spec fn chunk_size_for(minimal_chunk_size: usize, document_length: nat, num_chunks: nat) -> nat
    recommends
        num_chunks > 0,
{
    let even = document_length / num_chunks;
    if minimal_chunk_size >= even {
        minimal_chunk_size as nat
    } else {
        even
    }
}

/// The system message: the fixed instruction, then a blank line and the
/// additional instruction when one is given.
pub open spec fn system_message(additional_instruction: Option<&str>) -> Seq<char> {
    match additional_instruction {
        Some(extra) => "Rewrite this text in summarized form."@ + "\n\n"@ + extra@,
        None => "Rewrite this text in summarized form."@,
    }
}

/// The user message for a chunk: in recursive mode it first shows the
/// summaries so far, separated by blank lines.
pub open spec fn user_message(recursive: bool, summaries: Seq<Seq<char>>, chunk: Seq<char>) -> Seq<
    char,
> {
    if recursive {
        "Previous summaries:\n\n"@ + joined(summaries, "\n\n"@) + "\n\nText to summarize next:\n\n"@
            + chunk
    } else {
        chunk
    }
}

/// The system message is the fixed instruction alone, or followed by a
/// blank line and the additional instruction when one is given.
pub proof fn law_system_message_appends_the_extra_instruction(extra: &str)
    ensures
        system_message(None) == "Rewrite this text in summarized form."@,
        system_message(Some(extra)) == system_message(None) + "\n\n"@ + extra@,
{
}

/// The chunk size is the larger of the minimal chunk size and the
/// document's token count divided by the number of chunks: at least each,
/// and equal to one of them.
pub proof fn law_chunk_size_is_the_larger_of_minimum_and_even_share(
    minimal_chunk_size: usize,
    document_length: nat,
    num_chunks: nat,
)
    requires
        num_chunks > 0,
    ensures
        ({
            let size = chunk_size_for(minimal_chunk_size, document_length, num_chunks);
            &&& size >= minimal_chunk_size
            &&& size >= document_length / num_chunks
            &&& size == minimal_chunk_size || size == document_length / num_chunks
        }),
{
}

/// In recursive mode the request for a chunk shows every summary so far:
/// with none it is the two headings around nothing; with one it is that
/// summary between them; and taking one more summary keeps the text of the
/// earlier ones and adds a blank line and the new one after them. Outside
/// recursive mode it is the chunk alone.
pub proof fn law_recursive_request_carries_all_summaries(
    summaries: Seq<Seq<char>>,
    next: Seq<char>,
    chunk: Seq<char>,
)
    ensures
        user_message(false, summaries, chunk) == chunk,
        user_message(true, Seq::empty(), chunk) == "Previous summaries:\n\n"@
            + "\n\nText to summarize next:\n\n"@ + chunk,
        user_message(true, seq![next], chunk) == "Previous summaries:\n\n"@ + next
            + "\n\nText to summarize next:\n\n"@ + chunk,
        forall|first: Seq<char>|
            user_message(true, seq![first, next], chunk) == "Previous summaries:\n\n"@ + first
                + "\n\n"@ + next + "\n\nText to summarize next:\n\n"@ + chunk,
        summaries.len() >= 1 ==> ({
            let tail = "\n\nText to summarize next:\n\n"@ + chunk;
            let before = user_message(true, summaries, chunk);
            let earlier = before.take(before.len() - tail.len());
            &&& before == earlier + tail
            &&& user_message(true, summaries.push(next), chunk) == earlier + "\n\n"@ + next
                + tail
        }),
{
    assert(Seq::<Seq<char>>::empty().len() == 0);
    let p = "Previous summaries:\n\n"@;
    let t = "\n\nText to summarize next:\n\n"@;
    assert(p + joined(Seq::empty(), "\n\n"@) + t + chunk =~= p + t + chunk);
    assert(joined(seq![next], "\n\n"@) == next);
    assert forall|first: Seq<char>|
        user_message(true, seq![first, next], chunk) == p + first + "\n\n"@ + next + t
            + chunk by {
        assert(seq![first, next].drop_last() =~= seq![first]);
        assert(joined(seq![first], "\n\n"@) == first);
        assert(joined(seq![first, next], "\n\n"@) == first + "\n\n"@ + next);
        assert(user_message(true, seq![first, next], chunk) =~= p + first + "\n\n"@ + next + t
            + chunk);
    }
    if summaries.len() >= 1 {
        let tail = t + chunk;
        let before = user_message(true, summaries, chunk);
        let j = joined(summaries, "\n\n"@);
        assert(before =~= (p + j) + tail);
        assert(before.take(before.len() - tail.len()) =~= p + j);
        assert(summaries.push(next).drop_last() =~= summaries);
        assert(joined(summaries.push(next), "\n\n"@) == j + "\n\n"@ + next);
        assert(user_message(true, summaries.push(next), chunk) =~= (p + j) + "\n\n"@ + next
            + tail);
    }
}

/// One chat request: the model, the system message and the user message.
pub struct ChatRequest {
    pub model: String,
    pub system: String,
    pub user: String,
}

/// A summary in progress, with its texts as character sequences.
pub struct SummarizerView {
    pub model: Seq<char>,
    pub system_message: Seq<char>,
    pub chunks: Seq<Seq<char>>,
    pub summaries: Seq<Seq<char>>,
    pub summarize_recursively: bool,
    pub verbose: bool,
}

/// The summary a `Summarizer` starts with: no summary received yet.
pub open spec fn fresh_summary(
    options: SummaryOptions,
    additional_instruction: Option<&str>,
    chunks: Seq<Seq<char>>,
) -> SummarizerView {
    SummarizerView {
        model: options.model@,
        system_message: system_message(additional_instruction),
        chunks,
        summaries: Seq::empty(),
        summarize_recursively: options.summarize_recursively,
        verbose: options.verbose,
    }
}

/// A summary in progress: the chunks to summarise and the summaries
/// received so far, one per chunk in order, never more than the chunks.
pub struct Summarizer {
    model: String,
    system_message: String,
    chunks: Vec<String>,
    summaries: Vec<String>,
    summarize_recursively: bool,
    verbose: bool,
}

impl View for Summarizer {
    type V = SummarizerView;

    closed spec fn view(&self) -> SummarizerView {
        SummarizerView {
            model: self.model@,
            system_message: self.system_message@,
            chunks: strings_view(self.chunks@),
            summaries: strings_view(self.summaries@),
            summarize_recursively: self.summarize_recursively,
            verbose: self.verbose,
        }
    }
}

/// Whether every chunk has its summary.
pub open spec fn is_done(s: SummarizerView) -> bool {
    s.summaries.len() >= s.chunks.len()
}

impl Summarizer {
    #[verifier::type_invariant]
    spec fn no_more_summaries_than_chunks(&self) -> bool {
        self.summaries@.len() <= self.chunks@.len()
    }

    /// Starts a summary of `input_str` in `num_chunks` chunks (at least
    /// one; the caller picks it from the level of detail). The chunk size is
    /// the document's token count divided by `num_chunks`, but no less than
    /// the minimal chunk size. None when the tokenizer fails.
    pub fn start(
        input_str: &String,
        options: &SummaryOptions,
        additional_instruction: Option<&str>,
        num_chunks: usize,
    ) -> (s: Option<Summarizer>)
        requires
            num_chunks >= 1,
        ensures
            match p50k_tokens(input_str@) {
                Some(t) => match delimited_chunks(
                    input_str@,
                    chunk_size_for(options.minimal_chunk_size, t.len(), num_chunks as nat) as usize,
                    options.chunk_delimiter@,
                ) {
                    Some(cs) => s matches Some(z) && z@ == fresh_summary(
                        *options,
                        additional_instruction,
                        cs,
                    ),
                    None => s is None,
                },
                None => s is None,
            },
    {
        let document_length = match tokenize(input_str) {
            Some(t) => t.len(),
            None => return None,
        };
        let even = document_length / num_chunks;
        let chunk_size = if options.minimal_chunk_size >= even {
            options.minimal_chunk_size
        } else {
            even
        };
        let text_chunks = match chunk_on_delimiter(
            input_str,
            chunk_size,
            options.chunk_delimiter.as_str(),
        ) {
            Some(c) => c,
            None => return None,
        };
        let mut system_message_content = "Rewrite this text in summarized form.".to_owned();
        match additional_instruction {
            Some(extra) => {
                system_message_content.append("\n\n");
                system_message_content.append(extra);
            },
            None => {},
        }
        let s = Summarizer {
            model: options.model.clone(),
            system_message: system_message_content,
            chunks: text_chunks,
            summaries: Vec::new(),
            summarize_recursively: options.summarize_recursively,
            verbose: options.verbose,
        };
        assert(strings_view(s.summaries@) =~= Seq::<Seq<char>>::empty());
        Some(s)
    }

    /// The chunks to summarise.
    pub fn chunks(&self) -> (c: &Vec<String>)
        ensures
            strings_view(c@) == self@.chunks,
    {
        &self.chunks
    }

    /// The system message of every request.
    pub fn system_message(&self) -> (m: &String)
        ensures
            m@ == self@.system_message,
    {
        &self.system_message
    }

    /// Whether progress is to be reported.
    pub fn verbose(&self) -> (v: bool)
        ensures
            v == self@.verbose,
    {
        self.verbose
    }

    /// The next request to send: for the first chunk without a summary, or
    /// none once every chunk has one.
    pub fn next_request(&self) -> (r: Option<ChatRequest>)
        ensures
            is_done(self@) <==> r is None,
            r matches Some(req) ==> {
                &&& req.model@ == self@.model
                &&& req.system@ == self@.system_message
                &&& req.user@ == user_message(
                    self@.summarize_recursively,
                    self@.summaries,
                    self@.chunks[self@.summaries.len() as int],
                )
            },
    {
        proof {
            use_type_invariant(self);
        }
        let k = self.summaries.len();
        if k >= self.chunks.len() {
            return None;
        }
        let mut user = String::new();
        if self.summarize_recursively {
            let accumulated_summaries_string = join_strings(&self.summaries, "\n\n");
            user.append("Previous summaries:\n\n");
            user.append(accumulated_summaries_string.as_str());
            user.append("\n\nText to summarize next:\n\n");
        }
        user.append(self.chunks[k].as_str());
        proof {
            if !self.summarize_recursively {
                assert(user@ =~= self.chunks@[k as int]@);
            }
        }
        Some(ChatRequest { model: self.model.clone(), system: self.system_message.clone(), user })
    }

    /// Takes the model's answer for the chunk that `next_request` asked about.
    pub fn record_response(&mut self, response: String)
        requires
            !is_done(old(self)@),
        ensures
            final(self)@ == (SummarizerView {
                summaries: old(self)@.summaries.push(response@),
                ..old(self)@
            }),
    {
        let ghost before = strings_view(self.summaries@);
        let mut summaries = Vec::new();
        std::mem::swap(&mut summaries, &mut self.summaries);
        summaries.push(response);
        std::mem::swap(&mut summaries, &mut self.summaries);
        assert(strings_view(self.summaries@) =~= before.push(response@));
    }

    /// The summaries received so far, separated by blank lines.
    pub fn final_summary(&self) -> (s: String)
        ensures
            s@ == joined(self@.summaries, "\n\n"@),
    {
        join_strings(&self.summaries, "\n\n")
    }
}

} // verus!
