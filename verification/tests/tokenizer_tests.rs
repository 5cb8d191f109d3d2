use news_summarizer::tokenizer::{chunk_on_delimiter, combine_chunks_with_no_minimun, tokenize};

fn count(text: &str) -> usize {
    tokenize(&String::from(text)).unwrap().len()
}

#[test]
fn tokenize_gives_p50k_ranks() {
    assert_eq!(tokenize(&String::from("hello world")), Some(vec![31373, 995]));
    assert_eq!(tokenize(&String::from("")), Some(Vec::<usize>::new()));
    let direct: Vec<usize> = tiktoken_rs::p50k_base()
        .unwrap()
        .encode_with_special_tokens("A longer sentence, with punctuation.")
        .into_iter()
        .map(|r| r as usize)
        .collect();
    assert_eq!(tokenize(&String::from("A longer sentence, with punctuation.")), Some(direct));
}

#[test]
fn combine_keeps_everything_in_one_block_under_a_large_budget() {
    let chunks = vec!["one", "two", "three"];
    let (blocks, indices, dropped) =
        combine_chunks_with_no_minimun(&chunks, 1000, ".", None, true).unwrap();
    assert_eq!(blocks, vec![String::from("one.two.three")]);
    assert_eq!(indices, vec![vec![0, 1, 2]]);
    assert_eq!(dropped, 0);
}

#[test]
fn combine_closes_blocks_at_the_budget() {
    let chunks = vec!["alpha", "beta", "gamma", "delta"];
    let budget = count("alpha beta");
    let (blocks, indices, dropped) =
        combine_chunks_with_no_minimun(&chunks, budget, " ", None, false).unwrap();
    assert_eq!(dropped, 0);
    let flat: Vec<usize> = indices.iter().flatten().copied().collect();
    assert_eq!(flat, vec![0, 1, 2, 3]);
    assert_eq!(blocks.len(), indices.len());
    for (block, idx) in blocks.iter().zip(indices.iter()) {
        assert!(!idx.is_empty());
        let parts: Vec<&str> = idx.iter().map(|&i| chunks[i]).collect();
        assert_eq!(*block, parts.join(" "));
        assert!(count(block) <= budget);
    }
    assert_eq!(blocks[0], "alpha beta");
}

#[test]
fn combine_drops_and_counts_a_chunk_over_the_budget() {
    let chunks = vec![
        "a very long first chunk of text that goes on and on",
        "b",
        "another overly long chunk here that goes on and on",
        "c",
    ];
    let budget = count("b.c");
    assert!(count(chunks[0]) > budget && count(chunks[2]) > budget);
    let (blocks, indices, dropped) =
        combine_chunks_with_no_minimun(&chunks, budget, ".", None, false).unwrap();
    assert_eq!(blocks, vec![String::from("b.c")]);
    assert_eq!(indices, vec![vec![1, 3]]);
    assert_eq!(dropped, 2);
}

#[test]
fn combine_marks_a_dropped_chunk_with_an_ellipsis_when_it_fits() {
    let chunks = vec!["b", "a very long chunk of text that overflows the budget by far, really", "c"];
    let budget = count("b.....c");
    assert!(count(chunks[1]) > budget);
    let (blocks, indices, dropped) =
        combine_chunks_with_no_minimun(&chunks, budget, ".", None, true).unwrap();
    assert_eq!(dropped, 1);
    assert_eq!(blocks, vec![String::from("b.....c")]);
    assert_eq!(indices, vec![vec![0, 2]]);
}

#[test]
fn combine_leaves_the_ellipsis_out_when_it_does_not_fit() {
    let chunks = vec!["a very long chunk of text that overflows"];
    let (blocks, indices, dropped) = combine_chunks_with_no_minimun(&chunks, 0, ".", None, true).unwrap();
    assert!(blocks.is_empty());
    assert!(indices.is_empty());
    assert_eq!(dropped, 1);
}

#[test]
fn combine_with_header_starts_every_block_with_it() {
    let chunks = vec!["x", "y", "z"];
    let (blocks, indices, _) =
        combine_chunks_with_no_minimun(&chunks, 1000, "|", Some("H"), true).unwrap();
    assert_eq!(blocks, vec![String::from("H|x|y|z")]);
    assert_eq!(indices, vec![vec![0, 1, 2]]);
    let budget = count("H|x|y");
    let (blocks, indices, dropped) =
        combine_chunks_with_no_minimun(&chunks, budget, "|", Some("H"), false).unwrap();
    assert_eq!(dropped, 0);
    for (block, idx) in blocks.iter().zip(indices.iter()) {
        let mut parts = vec!["H"];
        parts.extend(idx.iter().map(|&i| chunks[i]));
        assert_eq!(*block, parts.join("|"));
        assert!(count(block) <= budget);
    }
    let flat: Vec<usize> = indices.iter().flatten().copied().collect();
    assert_eq!(flat, vec![0, 1, 2]);
    // A header that alone is over the budget leaves every chunk dropped.
    let (blocks, _, dropped) =
        combine_chunks_with_no_minimun(&chunks, 1, "|", Some("a long header text"), false).unwrap();
    assert!(blocks.is_empty());
    assert_eq!(dropped, 3);
}

#[test]
fn combine_of_no_chunks_gives_no_blocks() {
    let (blocks, indices, dropped) = combine_chunks_with_no_minimun(&vec![], 10, ".", None, true).unwrap();
    assert!(blocks.is_empty());
    assert!(indices.is_empty());
    assert_eq!(dropped, 0);
    let (blocks, _, _) = combine_chunks_with_no_minimun(&vec![], 10, ".", Some("H"), true).unwrap();
    assert!(blocks.is_empty());
}

#[test]
fn chunk_on_delimiter_ends_every_chunk_with_the_delimiter() {
    let text = String::from("First sentence. Second one. Third");
    assert_eq!(
        chunk_on_delimiter(&text, 1000, "."),
        Some(vec![String::from("First sentence. Second one. Third.")])
    );
    let budget = count(" Second one");
    let small = chunk_on_delimiter(&text, budget, ".").unwrap();
    assert!(small.len() >= 2);
    for c in small.iter() {
        assert!(c.ends_with('.'));
        assert!(count(&c[..c.len() - 1]) <= budget);
    }
}

#[test]
fn chunks_rejoin_to_the_text_when_nothing_is_dropped() {
    let text = String::from("One. Two. Three. Four");
    let chunks = chunk_on_delimiter(&text, 3, ".").unwrap();
    let rejoined: Vec<&str> = chunks.iter().map(|c| &c[..c.len() - 1]).collect();
    assert_eq!(rejoined.join("."), text);
}

#[test]
fn chunking_the_empty_text_gives_one_chunk() {
    assert_eq!(chunk_on_delimiter(&String::new(), 10, "."), Some(vec![String::from(".")]));
}

#[test]
fn chunking_drops_pieces_over_the_budget() {
    let text = String::from("ok,a much longer piece that will not fit in the budget at all here,ok");
    assert!(count("a much longer piece that will not fit in the budget at all here") > 10);
    assert_eq!(chunk_on_delimiter(&text, 10, ","), Some(vec![String::from("ok,...,ok,")]));
}
