use news_summarizer::summarizer::{max_summary_chunks, Summarizer, SummaryOptions};
use news_summarizer::tokenizer::{chunk_on_delimiter, tokenize};

#[test]
fn options_default_to_turbo_500_tokens_at_periods() {
    let o = SummaryOptions::resolve(None, None, None, None, None);
    assert_eq!(o.model, "gpt-4-turbo");
    assert_eq!(o.minimal_chunk_size, 500);
    assert_eq!(o.chunk_delimiter, ".");
    assert!(!o.summarize_recursively);
    assert!(!o.verbose);
    let o = SummaryOptions::resolve(Some("m"), Some(7), Some(","), Some(true), Some(true));
    assert_eq!(o.model, "m");
    assert_eq!(o.minimal_chunk_size, 7);
    assert_eq!(o.chunk_delimiter, ",");
    assert!(o.summarize_recursively);
    assert!(o.verbose);
}

#[test]
fn max_chunks_is_the_chunk_count_at_the_minimal_size() {
    let text = String::from("One. Two. Three. Four");
    let o = SummaryOptions::resolve(None, Some(2), None, None, None);
    assert_eq!(max_summary_chunks(&text, &o), Some(chunk_on_delimiter(&text, 2, ".").unwrap().len()));
    let o = SummaryOptions::resolve(None, None, None, None, None);
    assert_eq!(max_summary_chunks(&text, &o), Some(1));
    assert_eq!(max_summary_chunks(&String::new(), &o), Some(1));
    let tiny = SummaryOptions::resolve(None, Some(0), None, None, None);
    assert_eq!(max_summary_chunks(&String::from("word word"), &tiny), Some(0));
}

#[test]
fn chunk_size_is_document_length_over_chunk_count_but_not_below_minimum() {
    let text = String::from("a, b, c, d, e, f, g, h");
    let doc_len = tokenize(&text).unwrap().len();
    let o = SummaryOptions::resolve(None, Some(1), Some(","), None, None);
    let s = Summarizer::start(&text, &o, None, 2).unwrap();
    assert_eq!(*s.chunks(), chunk_on_delimiter(&text, std::cmp::max(1, doc_len / 2), ",").unwrap());
    let o = SummaryOptions::resolve(None, Some(1000), Some(","), None, None);
    let s = Summarizer::start(&text, &o, None, 2).unwrap();
    assert_eq!(*s.chunks(), vec![String::from("a, b, c, d, e, f, g, h,")]);
}

#[test]
fn system_message_adds_the_extra_instruction_after_a_blank_line() {
    let o = SummaryOptions::resolve(None, None, None, None, None);
    let text = String::from("x");
    let s = Summarizer::start(&text, &o, None, 1).unwrap();
    assert_eq!(*s.system_message(), "Rewrite this text in summarized form.");
    let s = Summarizer::start(&text, &o, Some("Be brief."), 1).unwrap();
    assert_eq!(*s.system_message(), "Rewrite this text in summarized form.\n\nBe brief.");
    let s = Summarizer::start(&text, &o, Some(""), 1).unwrap();
    assert_eq!(*s.system_message(), "Rewrite this text in summarized form.\n\n");
}

#[test]
fn one_request_per_chunk_and_the_answers_joined_by_blank_lines() {
    let text = String::from("First part. Second part. Third part");
    let o = SummaryOptions::resolve(Some("model-x"), Some(3), None, Some(false), None);
    let mut s = Summarizer::start(&text, &o, None, 100).unwrap();
    let chunks = s.chunks().clone();
    assert!(chunks.len() >= 2);
    let mut answers = vec![];
    let mut k = 0;
    while let Some(req) = s.next_request() {
        assert_eq!(req.model, "model-x");
        assert_eq!(req.system, "Rewrite this text in summarized form.");
        assert_eq!(req.user, chunks[k]);
        let answer = format!("summary {}", k);
        answers.push(answer.clone());
        s.record_response(answer);
        k += 1;
    }
    assert_eq!(k, chunks.len());
    assert_eq!(s.final_summary(), answers.join("\n\n"));
}

#[test]
fn recursive_requests_carry_the_previous_summaries() {
    let text = String::from("First part. Second part");
    let o = SummaryOptions::resolve(None, Some(2), None, Some(true), None);
    let mut s = Summarizer::start(&text, &o, None, 100).unwrap();
    assert!(s.chunks().len() >= 2);
    let chunks = s.chunks().clone();
    let first = s.next_request().unwrap();
    assert_eq!(
        first.user,
        format!("Previous summaries:\n\n\n\nText to summarize next:\n\n{}", chunks[0])
    );
    s.record_response(String::from("S1"));
    let second = s.next_request().unwrap();
    assert_eq!(
        second.user,
        format!("Previous summaries:\n\nS1\n\nText to summarize next:\n\n{}", chunks[1])
    );
}

#[test]
fn final_summary_of_nothing_is_empty() {
    let o = SummaryOptions::resolve(None, None, None, None, None);
    let s = Summarizer::start(&String::from("x"), &o, None, 1).unwrap();
    assert_eq!(s.final_summary(), "");
}
