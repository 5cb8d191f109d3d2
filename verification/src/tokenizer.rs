//! Token counting with tiktoken's `p50k_base` encoding, and greedy packing of
//! text chunks into blocks that fit a token budget.
use vstd::prelude::*;
use vstd::string::StringExecFns;

use crate::text::{
    joined, join_strs, law_split_then_join_restores_text, lemma_joined_concat, split_on, split_pieces,
    strings_view, strs_view,
};

verus! {

/// What tiktoken's `p50k_base` byte-pair encoder gives a text, special
/// tokens allowed: the token ranks, or none when its regex search fails
/// (its backtracking limit is reached, as on a very long run of
/// whitespace).
pub uninterp spec fn p50k_tokens(text: Seq<char>) -> Option<Seq<usize>>;

/// Calls `CoreBPE::encode_as::<usize>` of tiktoken's `p50k_base` encoder
/// with its special tokens allowed. Claimed: the result is `p50k_tokens` of
/// the prompt's characters, so that one text always gets the same answer;
/// an encoding error gives none.
#[verifier::external_body]
pub fn tokenize(prompt: &String) -> (tokens: Option<Vec<usize>>)
    ensures
        match tokens {
            Some(t) => p50k_tokens(prompt@) == Some(t@),
            None => p50k_tokens(prompt@) is None,
        },
{
    let bpe = tiktoken_rs::p50k_base_singleton();
    bpe.encode_as::<usize>(prompt, &bpe.special_tokens()).ok().map(|(tokens, _)| tokens)
}

/// Whether a text takes at most `max_token` tokens.
pub open spec fn fits(text: Seq<char>, max_token: usize) -> bool {
    p50k_tokens(text) matches Some(t) && t.len() <= max_token
}

/// Whether a text takes more than `max_token` tokens.
pub open spec fn overflows(text: Seq<char>, max_token: usize) -> bool {
    p50k_tokens(text) matches Some(t) && t.len() > max_token
}

/// The optional header as a list of zero or one pieces.
pub open spec fn header_part(header: Option<Seq<char>>) -> Seq<Seq<char>> {
    match header {
        Some(h) => seq![h],
        None => Seq::empty(),
    }
}

/// The character view of an optional string slice.
pub open spec fn opt_str_view(header: Option<&str>) -> Option<Seq<char>> {
    match header {
        Some(h) => Some(h@),
        None => None,
    }
}

/// The chunks at the given positions, in the order of the positions.
pub open spec fn pieces_at(chunks: Seq<Seq<char>>, idx: Seq<usize>) -> Seq<Seq<char>> {
    idx.map_values(|i: usize| chunks[i as int])
}

/// The mark put in a block where a chunk was dropped.
pub open spec fn ellipsis() -> Seq<char> {
    "..."@
}

/// A chunk as it would stand alone in a block: after the header, if any.
pub open spec fn alone(chunk: Seq<char>, delim: Seq<char>, header: Option<Seq<char>>) -> Seq<char> {
    joined(header_part(header).push(chunk), delim)
}

/// State of the greedy packing: the finished blocks with the chunk positions
/// each holds, the block being filled with its chunk positions, and the
/// count of dropped chunks.
pub struct Packing {
    pub blocks: Seq<Seq<char>>,
    pub block_indices: Seq<Seq<usize>>,
    pub candidate: Seq<Seq<char>>,
    pub candidate_indices: Seq<usize>,
    pub dropped: nat,
}

/// Packing before any chunk: the block being filled holds only the header.
pub open spec fn packing_start(header: Option<Seq<char>>) -> Packing {
    Packing {
        blocks: Seq::empty(),
        block_indices: Seq::empty(),
        candidate: header_part(header),
        candidate_indices: Seq::empty(),
        dropped: 0,
    }
}

/// Takes chunk `i`. A chunk that even alone (after the header) is over the
/// budget is dropped and counted; with the ellipsis flag, `...` then joins
/// the block being filled if the block still fits with it. Another chunk
/// joins the block being filled if the extended block fits the budget;
/// otherwise that block is closed and a new one starts with the header and
/// this chunk. None when the tokenizer fails on a text it is asked about.
pub open spec fn packing_step(
    p: Packing,
    chunks: Seq<Seq<char>>,
    i: int,
    max_token: usize,
    delim: Seq<char>,
    header: Option<Seq<char>>,
    add_ellipsis: bool,
) -> Option<Packing> {
    let c = chunks[i];
    if p50k_tokens(alone(c, delim, header)) is None {
        None
    } else if overflows(alone(c, delim, header), max_token) {
        let counted = Packing { dropped: p.dropped + 1, ..p };
        if add_ellipsis {
            let marked = joined(p.candidate.push(ellipsis()), delim);
            if p50k_tokens(marked) is None {
                None
            } else if fits(marked, max_token) {
                Some(Packing { candidate: p.candidate.push(ellipsis()), ..counted })
            } else {
                Some(counted)
            }
        } else {
            Some(counted)
        }
    } else {
        let extended = joined(p.candidate.push(c), delim);
        if p50k_tokens(extended) is None {
            None
        } else if fits(extended, max_token) {
            Some(
                Packing {
                    candidate: p.candidate.push(c),
                    candidate_indices: p.candidate_indices.push(i as usize),
                    ..p
                },
            )
        } else {
            Some(
                Packing {
                    blocks: p.blocks.push(joined(p.candidate, delim)),
                    block_indices: p.block_indices.push(p.candidate_indices),
                    candidate: header_part(header).push(c),
                    candidate_indices: seq![i as usize],
                    ..p
                },
            )
        }
    }
}

/// Packing after the first `k` chunks; none once the tokenizer has failed.
pub open spec fn packing_upto(
    chunks: Seq<Seq<char>>,
    k: int,
    max_token: usize,
    delim: Seq<char>,
    header: Option<Seq<char>>,
    add_ellipsis: bool,
) -> Option<Packing>
    decreases k,
{
    if k <= 0 {
        Some(packing_start(header))
    } else {
        match packing_upto(chunks, k - 1, max_token, delim, header, add_ellipsis) {
            Some(p) => packing_step(p, chunks, k - 1, max_token, delim, header, add_ellipsis),
            None => None,
        }
    }
}

/// The blocks, the chunk positions of each, and the count of dropped chunks
/// once every chunk is taken: the last block is kept when it holds more than
/// the header. None when the tokenizer fails on a text it is asked about.
pub open spec fn packed(
    chunks: Seq<Seq<char>>,
    max_token: usize,
    delim: Seq<char>,
    header: Option<Seq<char>>,
    add_ellipsis: bool,
) -> Option<(Seq<Seq<char>>, Seq<Seq<usize>>, nat)> {
    match packing_upto(chunks, chunks.len() as int, max_token, delim, header, add_ellipsis) {
        Some(p) => Some(
            if p.candidate.len() > header_part(header).len() {
                (
                    p.blocks.push(joined(p.candidate, delim)),
                    p.block_indices.push(p.candidate_indices),
                    p.dropped,
                )
            } else {
                (p.blocks, p.block_indices, p.dropped)
            },
        ),
        None => None,
    }
}

/// The lists of positions, each as a sequence.
pub open spec fn index_lists_view(v: Seq<Vec<usize>>) -> Seq<Seq<usize>> {
    v.map_values(|l: Vec<usize>| l@)
}

proof fn lemma_packing_stays_failed(
    chunks: Seq<Seq<char>>,
    k: int,
    later: int,
    max_token: usize,
    delim: Seq<char>,
    header: Option<Seq<char>>,
    add_ellipsis: bool,
)
    requires
        0 <= k <= later,
        packing_upto(chunks, k, max_token, delim, header, add_ellipsis) is None,
    ensures
        packing_upto(chunks, later, max_token, delim, header, add_ellipsis) is None,
    decreases later - k,
{
    if later > k {
        lemma_packing_stays_failed(chunks, k, later - 1, max_token, delim, header, add_ellipsis);
    }
}

/// The number of tokens of a text, or none when the tokenizer fails.
fn token_count(text: &String) -> (n: Option<usize>)
    ensures
        match n {
            Some(k) => p50k_tokens(text@) matches Some(t) && t.len() == k,
            None => p50k_tokens(text@) is None,
        },
{
    match tokenize(text) {
        Some(t) => Some(t.len()),
        None => None,
    }
}

/// Combines text chunks, in order, into blocks of at most `max_token` tokens
/// each. Each block starts with the header, when there is one, and its
/// pieces are joined with `chunk_delimer`. A chunk over the budget even
/// alone is dropped and counted; with `add_ellipsis_for_overflow`, `...`
/// takes its place in the block being filled when the block still fits with
/// it. Returns the blocks, the chunk positions in each block, and the count
/// of dropped chunks; none when the tokenizer fails on one of the texts it
/// is asked to count.
pub fn combine_chunks_with_no_minimun<'a>(
    chunks: &Vec<&'a str>,
    max_token: usize,
    chunk_delimer: &str,
    header: Option<&str>,
    add_ellipsis_for_overflow: bool,
) -> (res: Option<(Vec<String>, Vec<Vec<usize>>, usize)>)
    ensures
        match res {
            Some(r) => packed(
                strs_view(chunks@),
                max_token,
                chunk_delimer@,
                opt_str_view(header),
                add_ellipsis_for_overflow,
            ) == Some((strings_view(r.0@), index_lists_view(r.1@), r.2 as nat)),
            None => packed(
                strs_view(chunks@),
                max_token,
                chunk_delimer@,
                opt_str_view(header),
                add_ellipsis_for_overflow,
            ) is None,
        },
{
    let ghost cs = strs_view(chunks@);
    let ghost hv = opt_str_view(header);
    let ghost d = chunk_delimer@;
    let ghost ell = add_ellipsis_for_overflow;
    let mut dropped_chunk_count: usize = 0;
    let mut output: Vec<String> = Vec::new();
    let mut output_indices: Vec<Vec<usize>> = Vec::new();
    let mut candidate: Vec<&str> = match header {
        Some(c) => vec![c],
        None => Vec::new(),
    };
    let mut candidate_indices: Vec<usize> = Vec::new();
    proof {
        assert(strs_view(candidate@) =~= header_part(hv));
        assert(strings_view(output@) =~= Seq::<Seq<char>>::empty());
        assert(index_lists_view(output_indices@) =~= Seq::<Seq<usize>>::empty());
    }
    let n = chunks.len();
    let mut chunk_index: usize = 0;
    while chunk_index < n
        invariant
            chunk_index <= n,
            n == chunks@.len(),
            cs == strs_view(chunks@),
            hv == opt_str_view(header),
            d == chunk_delimer@,
            ell == add_ellipsis_for_overflow,
            dropped_chunk_count <= chunk_index,
            packing_upto(cs, chunk_index as int, max_token, d, hv, ell) == Some(
                Packing {
                    blocks: strings_view(output@),
                    block_indices: index_lists_view(output_indices@),
                    candidate: strs_view(candidate@),
                    candidate_indices: candidate_indices@,
                    dropped: dropped_chunk_count as nat,
                },
            ),
        decreases n - chunk_index,
    {
        let ghost p = packing_upto(cs, chunk_index as int, max_token, d, hv, ell)->0;
        let chunk = chunks[chunk_index];
        let chunk_with_header: Vec<&str> = match header {
            Some(h) => vec![h, chunk],
            None => vec![chunk],
        };
        proof {
            assert(strs_view(chunk_with_header@) =~= header_part(hv).push(cs[chunk_index as int]));
        }
        let joined_chunks = join_strs(&chunk_with_header, chunk_delimer);
        let alone_count = match token_count(&joined_chunks) {
            Some(k) => k,
            None => {
                proof {
                    lemma_packing_stays_failed(cs, chunk_index + 1, n as int, max_token, d, hv, ell);
                }
                return None;
            },
        };
        if alone_count > max_token {
            dropped_chunk_count = dropped_chunk_count + 1;
            if add_ellipsis_for_overflow {
                let mut marked = join_strs(&candidate, chunk_delimer);
                if candidate.len() > 0 {
                    marked.append(chunk_delimer);
                }
                marked.append("...");
                proof {
                    assert(strs_view(candidate@).push(ellipsis()).drop_last() =~= strs_view(
                        candidate@,
                    ));
                    if candidate@.len() == 0 {
                        assert(marked@ =~= ellipsis());
                    }
                }
                let marked_count = match token_count(&marked) {
                    Some(k) => k,
                    None => {
                        proof {
                            lemma_packing_stays_failed(
                                cs,
                                chunk_index + 1,
                                n as int,
                                max_token,
                                d,
                                hv,
                                ell,
                            );
                        }
                        return None;
                    },
                };
                if marked_count <= max_token {
                    let ghost before_cand = strs_view(candidate@);
                    candidate.push("...");
                    proof {
                        assert(strs_view(candidate@) =~= before_cand.push(ellipsis()));
                    }
                }
            }
            chunk_index = chunk_index + 1;
            continue ;
        }
        // The candidate extended by this chunk, joined as `join` would.
        let mut extended = join_strs(&candidate, chunk_delimer);
        if candidate.len() > 0 {
            extended.append(chunk_delimer);
        }
        extended.append(chunk);
        proof {
            assert(strs_view(candidate@).push(chunk@).drop_last() =~= strs_view(candidate@));
            if candidate@.len() == 0 {
                assert(extended@ =~= chunk@);
            }
        }
        let extended_candidate_token_count = match token_count(&extended) {
            Some(k) => k,
            None => {
                proof {
                    lemma_packing_stays_failed(cs, chunk_index + 1, n as int, max_token, d, hv, ell);
                }
                return None;
            },
        };
        if extended_candidate_token_count > max_token {
            let joined_candidate = join_strs(&candidate, chunk_delimer);
            let ghost before_out = strings_view(output@);
            let ghost before_idx = index_lists_view(output_indices@);
            output.push(joined_candidate);
            output_indices.push(candidate_indices);
            proof {
                assert(strings_view(output@) =~= before_out.push(joined_candidate@));
                assert(index_lists_view(output_indices@) =~= before_idx.push(p.candidate_indices));
            }
            candidate = chunk_with_header;
            candidate_indices = vec![chunk_index];
            proof {
                assert(candidate_indices@ =~= seq![chunk_index]);
            }
        } else {
            let ghost before_cand = strs_view(candidate@);
            candidate.push(chunk);
            candidate_indices.push(chunk_index);
            proof {
                assert(strs_view(candidate@) =~= before_cand.push(chunk@));
            }
        }
        chunk_index = chunk_index + 1;
    }
    let keep_last = match header {
        Some(_) => candidate.len() > 1,
        None => candidate.len() > 0,
    };
    if keep_last {
        let last = join_strs(&candidate, chunk_delimer);
        let ghost before_out = strings_view(output@);
        let ghost before_idx = index_lists_view(output_indices@);
        output.push(last);
        output_indices.push(candidate_indices);
        proof {
            assert(strings_view(output@) =~= before_out.push(last@));
            assert(index_lists_view(output_indices@) =~= before_idx.push(
                packing_upto(cs, n as int, max_token, d, hv, ell)->0.candidate_indices,
            ));
        }
    }
    Some((output, output_indices, dropped_chunk_count))
}

/// The chunks of a text cut at `delimiter` and packed into blocks of at most
/// `max_token` tokens (with `...` where a piece was dropped and it fits),
/// each block ending with the delimiter; none when the tokenizer fails.
pub open spec fn delimited_chunks(input: Seq<char>, max_token: usize, delimiter: Seq<char>) -> Option<
    Seq<Seq<char>>,
> {
    match packed(split_pieces(input, delimiter), max_token, delimiter, None, true) {
        Some(r) => Some(r.0.map_values(|b: Seq<char>| b + delimiter)),
        None => None,
    }
}

/// Splits the text on `delimiter`, packs the pieces into blocks of at most
/// `max_token` tokens (a piece over the budget alone is dropped, `...`
/// marking the place when it fits), and ends every block with the
/// delimiter. None when the tokenizer fails.
pub fn chunk_on_delimiter(input_str: &String, max_token: usize, delimiter: &str) -> (res: Option<
    Vec<String>,
>)
    ensures
        match res {
            Some(v) => delimited_chunks(input_str@, max_token, delimiter@) == Some(
                strings_view(v@),
            ),
            None => delimited_chunks(input_str@, max_token, delimiter@) is None,
        },
{
    let chunks = split_on(input_str.as_str(), delimiter);
    let (init_combined_chunks, _, _dropped_chunk_count) = match combine_chunks_with_no_minimun(
        &chunks,
        max_token,
        delimiter,
        None,
        true,
    ) {
        Some(r) => r,
        None => return None,
    };
    let ghost blocks = strings_view(init_combined_chunks@);
    let mut combined_chunks: Vec<String> = Vec::new();
    let n = init_combined_chunks.len();
    let mut i: usize = 0;
    while i < n
        invariant
            i <= n,
            n == init_combined_chunks@.len(),
            blocks == strings_view(init_combined_chunks@),
            strings_view(combined_chunks@) == blocks.take(i as int).map_values(
                |b: Seq<char>| b + delimiter@,
            ),
        decreases n - i,
    {
        let mut combined_chunk = init_combined_chunks[i].clone();
        combined_chunk.append(delimiter);
        let ghost before = strings_view(combined_chunks@);
        combined_chunks.push(combined_chunk);
        proof {
            assert(strings_view(combined_chunks@) =~= before.push(combined_chunk@));
            assert(blocks.take(i + 1).map_values(|b: Seq<char>| b + delimiter@) =~= blocks.take(
                i as int,
            ).map_values(|b: Seq<char>| b + delimiter@).push(blocks[i as int] + delimiter@));
        }
        i = i + 1;
    }
    proof {
        assert(blocks.take(n as int) =~= blocks);
    }
    Some(combined_chunks)
}


/// The positions, among the first `k`, of the chunks that are not over the
/// budget even alone (after the header): the ones packing keeps.
pub open spec fn kept_positions(
    chunks: Seq<Seq<char>>,
    k: int,
    max_token: usize,
    delim: Seq<char>,
    header: Option<Seq<char>>,
) -> Seq<usize>
    decreases k,
{
    if k <= 0 {
        Seq::empty()
    } else if overflows(alone(chunks[k - 1], delim, header), max_token) {
        kept_positions(chunks, k - 1, max_token, delim, header)
    } else {
        kept_positions(chunks, k - 1, max_token, delim, header).push((k - 1) as usize)
    }
}

/// The lists of positions laid end to end.
pub open spec fn flatten(lists: Seq<Seq<usize>>) -> Seq<usize>
    decreases lists.len(),
{
    if lists.len() == 0 {
        Seq::empty()
    } else {
        flatten(lists.drop_last()) + lists.last()
    }
}

/// What holds of the packing after `k` chunks.
pub open spec fn packing_inv(
    p: Packing,
    chunks: Seq<Seq<char>>,
    k: int,
    max_token: usize,
    delim: Seq<char>,
    header: Option<Seq<char>>,
    add_ellipsis: bool,
) -> bool {
    &&& p.blocks.len() == p.block_indices.len()
    &&& flatten(p.block_indices) + p.candidate_indices == kept_positions(
        chunks,
        k,
        max_token,
        delim,
        header,
    )
    &&& p.dropped + kept_positions(chunks, k, max_token, delim, header).len() == k
    &&& forall|j: int| 0 <= j < p.blocks.len() ==> fits(#[trigger] p.blocks[j], max_token)
    &&& p.candidate == header_part(header) || fits(joined(p.candidate, delim), max_token)
    &&& p.candidate.len() >= header_part(header).len() + p.candidate_indices.len()
    &&& (!add_ellipsis || p.dropped == 0) ==> {
        &&& p.candidate == header_part(header) + pieces_at(chunks, p.candidate_indices)
        &&& forall|j: int|
            0 <= j < p.blocks.len() ==> #[trigger] p.blocks[j] == joined(
                header_part(header) + pieces_at(chunks, p.block_indices[j]),
                delim,
            )
        &&& forall|j: int| 0 <= j < p.blocks.len() ==> #[trigger] p.block_indices[j].len() >= 1
    }
}

proof fn lemma_packing_inv(
    chunks: Seq<Seq<char>>,
    k: int,
    max_token: usize,
    delim: Seq<char>,
    header: Option<Seq<char>>,
    add_ellipsis: bool,
)
    requires
        0 <= k <= chunks.len(),
        chunks.len() <= usize::MAX,
        packing_upto(chunks, k, max_token, delim, header, add_ellipsis) is Some,
    ensures
        packing_inv(
            packing_upto(chunks, k, max_token, delim, header, add_ellipsis)->0,
            chunks,
            k,
            max_token,
            delim,
            header,
            add_ellipsis,
        ),
    decreases k,
{
    let p = packing_upto(chunks, k, max_token, delim, header, add_ellipsis)->0;
    if k == 0 {
        assert(flatten(p.block_indices) =~= Seq::<usize>::empty());
        assert(pieces_at(chunks, Seq::<usize>::empty()) =~= Seq::<Seq<char>>::empty());
        assert(p.candidate =~= header_part(header) + Seq::<Seq<char>>::empty());
        assert(flatten(p.block_indices) + p.candidate_indices =~= Seq::<usize>::empty());
    } else {
        lemma_packing_inv(chunks, k - 1, max_token, delim, header, add_ellipsis);
        let q = packing_upto(chunks, k - 1, max_token, delim, header, add_ellipsis)->0;
        let i = k - 1;
        let c = chunks[i];
        assert(header_part(header).push(c) == header_part(header).push(c));
        if overflows(alone(c, delim, header), max_token) {
            assert(kept_positions(chunks, k, max_token, delim, header) == kept_positions(
                chunks,
                i,
                max_token,
                delim,
                header,
            ));
        } else {
            let kept = kept_positions(chunks, k, max_token, delim, header);
            assert(kept == kept_positions(chunks, i, max_token, delim, header).push(i as usize));
            if fits(joined(q.candidate.push(c), delim), max_token) {
                assert(pieces_at(chunks, q.candidate_indices.push(i as usize)) =~= pieces_at(
                    chunks,
                    q.candidate_indices,
                ).push(c));
                assert(flatten(p.block_indices) + p.candidate_indices =~= (flatten(q.block_indices)
                    + q.candidate_indices).push(i as usize));
                if !add_ellipsis || p.dropped == 0 {
                    assert(p.candidate =~= header_part(header) + pieces_at(
                        chunks,
                        p.candidate_indices,
                    ));
                }
            } else {
                // The candidate was more than the header: with the header alone the
                // extension is the chunk alone, which fits.
                assert(q.candidate != header_part(header));
                assert(p.block_indices.drop_last() =~= q.block_indices);
                assert(flatten(p.block_indices) == flatten(q.block_indices) + q.candidate_indices);
                assert(flatten(p.block_indices) + p.candidate_indices =~= (flatten(q.block_indices)
                    + q.candidate_indices).push(i as usize));
                assert(pieces_at(chunks, seq![i as usize]) =~= seq![c]);
                assert forall|j: int| 0 <= j < p.blocks.len() implies fits(
                    #[trigger] p.blocks[j],
                    max_token,
                ) by {
                    if j < q.blocks.len() {
                        assert(p.blocks[j] == q.blocks[j]);
                    }
                }
                if !add_ellipsis || p.dropped == 0 {
                    assert(p.candidate =~= header_part(header) + pieces_at(
                        chunks,
                        p.candidate_indices,
                    ));
                    if q.candidate_indices.len() == 0 {
                        assert(pieces_at(chunks, q.candidate_indices) =~= Seq::<Seq<char>>::empty());
                        assert(q.candidate =~= header_part(header));
                    }
                    assert forall|j: int| 0 <= j < p.blocks.len() implies #[trigger] p.blocks[j]
                        == joined(
                        header_part(header) + pieces_at(chunks, p.block_indices[j]),
                        delim,
                    ) by {
                        if j < q.blocks.len() {
                            assert(p.blocks[j] == q.blocks[j]);
                            assert(p.block_indices[j] == q.block_indices[j]);
                        }
                    }
                    assert forall|j: int| 0 <= j < p.blocks.len() implies #[trigger] p.block_indices[j].len()
                        >= 1 by {
                        if j < q.blocks.len() {
                            assert(p.block_indices[j] == q.block_indices[j]);
                        }
                    }
                }
            }
        }
    }
}

proof fn lemma_packed_parts(
    chunks: Seq<Seq<char>>,
    max_token: usize,
    delim: Seq<char>,
    header: Option<Seq<char>>,
    add_ellipsis: bool,
)
    requires
        chunks.len() <= usize::MAX,
        packed(chunks, max_token, delim, header, add_ellipsis) is Some,
    ensures
        ({
            let r = packed(chunks, max_token, delim, header, add_ellipsis)->0;
            &&& r.0.len() == r.1.len()
            &&& flatten(r.1) == kept_positions(chunks, chunks.len() as int, max_token, delim, header)
            &&& r.2 + kept_positions(chunks, chunks.len() as int, max_token, delim, header).len()
                == chunks.len()
            &&& forall|j: int| 0 <= j < r.0.len() ==> fits(#[trigger] r.0[j], max_token)
            &&& (!add_ellipsis || r.2 == 0) ==> {
                &&& forall|j: int|
                    0 <= j < r.0.len() ==> #[trigger] r.0[j] == joined(
                        header_part(header) + pieces_at(chunks, r.1[j]),
                        delim,
                    )
                &&& forall|j: int| 0 <= j < r.0.len() ==> #[trigger] r.1[j].len() >= 1
            }
        }),
{
    let n = chunks.len() as int;
    lemma_packing_inv(chunks, n, max_token, delim, header, add_ellipsis);
    let p = packing_upto(chunks, n, max_token, delim, header, add_ellipsis)->0;
    let r = packed(chunks, max_token, delim, header, add_ellipsis)->0;
    if p.candidate.len() > header_part(header).len() {
        assert(p.candidate != header_part(header));
        assert(p.block_indices.push(p.candidate_indices).drop_last() =~= p.block_indices);
        assert forall|j: int| 0 <= j < r.0.len() implies fits(#[trigger] r.0[j], max_token) by {
            if j < p.blocks.len() {
                assert(r.0[j] == p.blocks[j]);
            }
        }
        if !add_ellipsis || r.2 == 0 {
            if p.candidate_indices.len() == 0 {
                assert(pieces_at(chunks, p.candidate_indices) =~= Seq::<Seq<char>>::empty());
                assert(p.candidate =~= header_part(header));
            }
            assert forall|j: int| 0 <= j < r.0.len() implies #[trigger] r.0[j] == joined(
                header_part(header) + pieces_at(chunks, r.1[j]),
                delim,
            ) by {
                if j < p.blocks.len() {
                    assert(r.0[j] == p.blocks[j]);
                    assert(r.1[j] == p.block_indices[j]);
                }
            }
            assert forall|j: int| 0 <= j < r.0.len() implies #[trigger] r.1[j].len() >= 1 by {
                if j < p.blocks.len() {
                    assert(r.1[j] == p.block_indices[j]);
                }
            }
        }
    } else {
        assert(p.candidate_indices =~= Seq::<usize>::empty());
        assert(flatten(p.block_indices) + p.candidate_indices =~= flatten(p.block_indices));
    }
}

/// Every block that packing gives fits the token budget.
pub proof fn law_packed_blocks_fit_the_budget(
    chunks: Seq<Seq<char>>,
    max_token: usize,
    delim: Seq<char>,
    header: Option<Seq<char>>,
    add_ellipsis: bool,
    r: (Seq<Seq<char>>, Seq<Seq<usize>>, nat),
    j: int,
)
    requires
        chunks.len() <= usize::MAX,
        packed(chunks, max_token, delim, header, add_ellipsis) == Some(r),
        0 <= j < r.0.len(),
    ensures
        fits(r.0[j], max_token),
{
    lemma_packed_parts(chunks, max_token, delim, header, add_ellipsis);
}

/// Packing keeps, in order and each in exactly one block, the chunks that
/// are not over the budget even alone; the others are dropped, and the
/// dropped count is their number.
pub proof fn law_packing_drops_exactly_the_chunks_over_budget(
    chunks: Seq<Seq<char>>,
    max_token: usize,
    delim: Seq<char>,
    header: Option<Seq<char>>,
    add_ellipsis: bool,
    r: (Seq<Seq<char>>, Seq<Seq<usize>>, nat),
)
    requires
        chunks.len() <= usize::MAX,
        packed(chunks, max_token, delim, header, add_ellipsis) == Some(r),
    ensures
        r.0.len() == r.1.len(),
        flatten(r.1) == kept_positions(chunks, chunks.len() as int, max_token, delim, header),
        r.2 + kept_positions(chunks, chunks.len() as int, max_token, delim, header).len()
            == chunks.len(),
{
    lemma_packed_parts(chunks, max_token, delim, header, add_ellipsis);
}

/// When no `...` mark can have been put in (no ellipsis asked for, or no
/// chunk dropped), each block is the header, when there is one, followed by
/// its chunks, at least one, joined by the delimiter.
pub proof fn law_unmarked_blocks_are_their_chunks_joined(
    chunks: Seq<Seq<char>>,
    max_token: usize,
    delim: Seq<char>,
    header: Option<Seq<char>>,
    add_ellipsis: bool,
    r: (Seq<Seq<char>>, Seq<Seq<usize>>, nat),
    j: int,
)
    requires
        chunks.len() <= usize::MAX,
        packed(chunks, max_token, delim, header, add_ellipsis) == Some(r),
        !add_ellipsis || r.2 == 0,
        0 <= j < r.0.len(),
    ensures
        r.0[j] == joined(header_part(header) + pieces_at(chunks, r.1[j]), delim),
        r.1[j].len() >= 1,
{
    lemma_packed_parts(chunks, max_token, delim, header, add_ellipsis);
}


proof fn lemma_kept_bounded(
    chunks: Seq<Seq<char>>,
    k: int,
    max_token: usize,
    delim: Seq<char>,
    header: Option<Seq<char>>,
)
    requires
        0 <= k <= usize::MAX + 1,
    ensures
        kept_positions(chunks, k, max_token, delim, header).len() <= k,
        kept_positions(chunks, k, max_token, delim, header).len() == k ==> kept_positions(
            chunks,
            k,
            max_token,
            delim,
            header,
        ) == Seq::new(k as nat, |i: int| i as usize),
    decreases k,
{
    if k > 0 {
        lemma_kept_bounded(chunks, k - 1, max_token, delim, header);
        let kept = kept_positions(chunks, k, max_token, delim, header);
        if kept.len() == k {
            assert(kept =~= Seq::new(k as nat, |i: int| i as usize));
        }
    }
}

proof fn lemma_joined_groups(
    chunks: Seq<Seq<char>>,
    blocks: Seq<Seq<char>>,
    groups: Seq<Seq<usize>>,
    d: Seq<char>,
)
    requires
        blocks.len() == groups.len(),
        forall|j: int| 0 <= j < groups.len() ==> #[trigger] groups[j].len() >= 1,
        forall|j: int|
            0 <= j < blocks.len() ==> #[trigger] blocks[j] == joined(pieces_at(chunks, groups[j]), d),
    ensures
        joined(blocks, d) == joined(pieces_at(chunks, flatten(groups)), d),
        groups.len() >= 1 ==> flatten(groups).len() >= 1,
    decreases groups.len(),
{
    if groups.len() == 0 {
        assert(pieces_at(chunks, flatten(groups)) =~= Seq::<Seq<char>>::empty());
    } else {
        let g2 = groups.drop_last();
        let b2 = blocks.drop_last();
        lemma_joined_groups(chunks, b2, g2, d);
        let last = groups.last();
        assert(groups[groups.len() - 1] == last);
        assert(blocks[blocks.len() - 1] == blocks.last());
        assert(pieces_at(chunks, flatten(g2) + last) =~= pieces_at(chunks, flatten(g2)) + pieces_at(
            chunks,
            last,
        ));
        if groups.len() == 1 {
            assert(flatten(g2) =~= Seq::<usize>::empty());
            assert(pieces_at(chunks, flatten(g2)) =~= Seq::<Seq<char>>::empty());
            assert(pieces_at(chunks, flatten(g2)) + pieces_at(chunks, last) =~= pieces_at(
                chunks,
                last,
            ));
            assert(joined(blocks, d) == blocks[0]);
        } else {
            assert(g2[g2.len() - 1].len() >= 1);
            lemma_joined_concat(pieces_at(chunks, flatten(g2)), pieces_at(chunks, last), d);
        }
    }
}

/// When no piece is dropped, the chunks of a text, each without its final
/// delimiter, joined with the delimiter give back the text.
pub proof fn law_chunks_rejoin_to_the_text(
    input: Seq<char>,
    max_token: usize,
    delim: Seq<char>,
    r: (Seq<Seq<char>>, Seq<Seq<usize>>, nat),
)
    requires
        split_pieces(input, delim).len() <= usize::MAX,
        packed(split_pieces(input, delim), max_token, delim, None, true) == Some(r),
        r.2 == 0,
    ensures
        joined(r.0, delim) == input,
{
    let chunks = split_pieces(input, delim);
    let n = chunks.len() as int;
    lemma_packed_parts(chunks, max_token, delim, None, true);
    lemma_kept_bounded(chunks, n, max_token, delim, None);
    assert forall|j: int| 0 <= j < r.0.len() implies #[trigger] r.0[j] == joined(
        pieces_at(chunks, r.1[j]),
        delim,
    ) by {
        assert(header_part(None) + pieces_at(chunks, r.1[j]) =~= pieces_at(chunks, r.1[j]));
    }
    assert forall|j: int| 0 <= j < r.1.len() implies #[trigger] r.1[j].len() >= 1 by {
        assert(r.1[j].len() >= 1);
    }
    lemma_joined_groups(chunks, r.0, r.1, delim);
    assert(pieces_at(chunks, Seq::new(n as nat, |i: int| i as usize)) =~= chunks);
    law_split_then_join_restores_text(input, delim);
}

} // verus!
