//! Character-level string helpers: joining pieces with a separator and
//! splitting a string on a delimiter.
use vstd::prelude::*;
use vstd::string::StrSliceExecFns;
use vstd::string::StringExecFns;

verus! {

broadcast use vstd::string::group_string_axioms;

/// `pieces` joined with `sep` between consecutive pieces.
pub open spec fn joined(pieces: Seq<Seq<char>>, sep: Seq<char>) -> Seq<char>
    decreases pieces.len(),
{
    if pieces.len() == 0 {
        Seq::empty()
    } else if pieces.len() == 1 {
        pieces[0]
    } else {
        joined(pieces.drop_last(), sep) + sep + pieces.last()
    }
}

/// The characters of `s`, in order.
pub fn chars_of(s: &str) -> (v: Vec<char>)
    ensures
        v@ == s@,
{
    let mut v: Vec<char> = Vec::new();
    for c in it: s.chars()
        invariant
            v@ == it.seq().take(it.index()),
    {
        v.push(c);
    }
    v
}


/// Whether `d` occurs in `s` starting at position `i`.
pub open spec fn occurs_at(s: Seq<char>, d: Seq<char>, i: int) -> bool {
    0 <= i && i + d.len() <= s.len() && s.subrange(i, i + d.len()) == d
}

/// Pieces of `s[start..]` cut at the leftmost non-overlapping occurrences of
/// the non-empty delimiter `d`, the search resuming at `pos`.
pub open spec fn split_from(s: Seq<char>, d: Seq<char>, start: int, pos: int) -> Seq<Seq<char>>
    recommends
        d.len() > 0,
        0 <= start <= pos <= s.len(),
    decreases s.len() - pos,
{
    if d.len() == 0 || pos < 0 || pos + d.len() > s.len() {
        seq![s.subrange(start, s.len() as int)]
    } else if occurs_at(s, d, pos) {
        seq![s.subrange(start, pos)] + split_from(s, d, pos + d.len(), pos + d.len())
    } else {
        split_from(s, d, start, pos + 1)
    }
}

/// The pieces of `s` between occurrences of `d`, as `str::split` with a
/// string pattern yields them. An empty delimiter matches at every
/// character boundary, which gives an empty piece at each end and one piece
/// per character between them.
pub open spec fn split_pieces(s: Seq<char>, d: Seq<char>) -> Seq<Seq<char>> {
    if d.len() == 0 {
        seq![Seq::<char>::empty()] + Seq::new(s.len(), |i: int| seq![s[i]]) + seq![
            Seq::<char>::empty(),
        ]
    } else {
        split_from(s, d, 0, 0)
    }
}

/// Whether `d` occurs in `s` at position `pos`, decided character by character.
fn occurs_at_exec(s: &Vec<char>, d: &Vec<char>, pos: usize) -> (b: bool)
    requires
        pos + d@.len() <= s@.len(),
    ensures
        b == occurs_at(s@, d@, pos as int),
{
    let sl = s.len();
    let mut k: usize = 0;
    while k < d.len()
        invariant
            k <= d@.len(),
            sl == s@.len(),
            pos + d@.len() <= sl,
            forall|j: int| 0 <= j < k ==> s@[pos + j] == d@[j],
        decreases d@.len() - k,
    {
        if s[pos + k] != d[k] {
            assert(s@.subrange(pos as int, pos + d@.len())[k as int] != d@[k as int]);
            return false;
        }
        k = k + 1;
    }
    assert(s@.subrange(pos as int, pos + d@.len()) =~= d@);
    true
}

/// Splits `s` on every leftmost non-overlapping occurrence of `delimiter`,
/// as `str::split` does with a string pattern.
pub fn split_on<'a>(s: &'a str, delimiter: &str) -> (pieces: Vec<&'a str>)
    ensures
        pieces@.map_values(|p: &str| p@) == split_pieces(s@, delimiter@),
{
    let sv = chars_of(s);
    let dv = chars_of(delimiter);
    let n = sv.len();
    let mut pieces: Vec<&'a str> = Vec::new();
    if dv.len() == 0 {
        pieces.push(s.substring_char(0, 0));
        let mut i: usize = 0;
        while i < n
            invariant
                i <= n,
                n == s@.len(),
                pieces@.len() == i + 1,
                pieces@[0]@ == Seq::<char>::empty(),
                forall|j: int| 1 <= j <= i ==> #[trigger] pieces@[j]@ == seq![s@[j - 1]],
            decreases n - i,
        {
            let p = s.substring_char(i, i + 1);
            assert(p@ =~= seq![s@[i as int]]);
            pieces.push(p);
            i = i + 1;
        }
        let last = s.substring_char(n, n);
        assert(last@ =~= Seq::<char>::empty());
        pieces.push(last);
        let ghost got = pieces@.map_values(|p: &str| p@);
        let ghost want = split_pieces(s@, delimiter@);
        assert(got.len() == want.len());
        assert forall|j: int| 0 <= j < got.len() implies got[j] == want[j] by {
            if 1 <= j <= n {
                assert(want[j] == seq![s@[j - 1]]);
            }
        }
        assert(got =~= want);
        return pieces;
    }
    let dl = dv.len();
    let mut start: usize = 0;
    let mut pos: usize = 0;
    while pos <= n && dl <= n - pos
        invariant
            dl == delimiter@.len(),
            dl > 0,
            n == s@.len(),
            sv@ == s@,
            dv@ == delimiter@,
            start <= pos <= n,
            pieces@.map_values(|p: &str| p@) + split_from(s@, delimiter@, start as int, pos as int)
                == split_pieces(s@, delimiter@),
        decreases n - pos,
    {
        if occurs_at_exec(&sv, &dv, pos) {
            let p = s.substring_char(start, pos);
            let ghost before = pieces@.map_values(|p: &str| p@);
            pieces.push(p);
            assert(pieces@.map_values(|p: &str| p@) =~= before.push(p@));
            assert(before + split_from(s@, delimiter@, start as int, pos as int) =~= before.push(
                p@,
            ) + split_from(s@, delimiter@, (pos + dl) as int, (pos + dl) as int));
            pos = pos + dl;
            start = pos;
        } else {
            pos = pos + 1;
        }
    }
    let p = s.substring_char(start, n);
    let ghost before = pieces@.map_values(|p: &str| p@);
    pieces.push(p);
    assert(pieces@.map_values(|p: &str| p@) =~= before.push(p@));
    assert(before.push(p@) =~= before + split_from(s@, delimiter@, start as int, pos as int));
    pieces
}


/// The character sequences of a list of string slices.
pub open spec fn strs_view(v: Seq<&str>) -> Seq<Seq<char>> {
    v.map_values(|p: &str| p@)
}

/// The character sequences of a list of strings.
pub open spec fn strings_view(v: Seq<String>) -> Seq<Seq<char>> {
    v.map_values(|p: String| p@)
}

/// Joins string slices with `sep` between consecutive ones.
pub fn join_strs(pieces: &Vec<&str>, sep: &str) -> (res: String)
    ensures
        res@ == joined(strs_view(pieces@), sep@),
{
    let mut res = String::new();
    let n = pieces.len();
    let mut i: usize = 0;
    while i < n
        invariant
            i <= n,
            n == pieces@.len(),
            res@ == joined(strs_view(pieces@).take(i as int), sep@),
        decreases n - i,
    {
        if i != 0 {
            res.append(sep);
        }
        res.append(pieces[i]);
        assert(strs_view(pieces@).take(i + 1).drop_last() =~= strs_view(pieces@).take(i as int));
        i = i + 1;
    }
    assert(strs_view(pieces@).take(n as int) =~= strs_view(pieces@));
    res
}

/// Joins strings with `sep` between consecutive ones.
pub fn join_strings(pieces: &Vec<String>, sep: &str) -> (res: String)
    ensures
        res@ == joined(strings_view(pieces@), sep@),
{
    let mut res = String::new();
    let n = pieces.len();
    let mut i: usize = 0;
    while i < n
        invariant
            i <= n,
            n == pieces@.len(),
            res@ == joined(strings_view(pieces@).take(i as int), sep@),
        decreases n - i,
    {
        if i != 0 {
            res.append(sep);
        }
        res.append(pieces[i].as_str());
        assert(strings_view(pieces@).take(i + 1).drop_last() =~= strings_view(pieces@).take(
            i as int,
        ));
        i = i + 1;
    }
    assert(strings_view(pieces@).take(n as int) =~= strings_view(pieces@));
    res
}


proof fn lemma_split_from_nonempty(s: Seq<char>, d: Seq<char>, start: int, pos: int)
    ensures
        split_from(s, d, start, pos).len() >= 1,
    decreases s.len() - pos,
{
    if d.len() == 0 || pos < 0 || pos + d.len() > s.len() {
    } else if occurs_at(s, d, pos) {
        lemma_split_from_nonempty(s, d, pos + d.len(), pos + d.len());
    } else {
        lemma_split_from_nonempty(s, d, start, pos + 1);
    }
}

proof fn lemma_split_from_bounded(s: Seq<char>, d: Seq<char>, start: int, pos: int)
    requires
        0 <= pos <= s.len(),
    ensures
        split_from(s, d, start, pos).len() <= s.len() - pos + 1,
    decreases s.len() - pos,
{
    if d.len() == 0 || pos < 0 || pos + d.len() > s.len() {
    } else if occurs_at(s, d, pos) {
        lemma_split_from_bounded(s, d, pos + d.len(), pos + d.len());
    } else {
        lemma_split_from_bounded(s, d, start, pos + 1);
    }
}

/// Splitting gives at least one piece, and at most two more pieces than
/// the text has characters.
pub proof fn lemma_split_pieces_nonempty(s: Seq<char>, d: Seq<char>)
    ensures
        1 <= split_pieces(s, d).len() <= s.len() + 2,
{
    if d.len() > 0 {
        lemma_split_from_nonempty(s, d, 0, 0);
        lemma_split_from_bounded(s, d, 0, 0);
    }
}


proof fn lemma_joined_prepend(x: Seq<char>, rest: Seq<Seq<char>>, sep: Seq<char>)
    requires
        rest.len() >= 1,
    ensures
        joined(seq![x] + rest, sep) == x + sep + joined(rest, sep),
    decreases rest.len(),
{
    let all = seq![x] + rest;
    if rest.len() == 1 {
        assert(all.drop_last() =~= seq![x]);
        assert(all.last() == rest[0]);
        assert(joined(seq![x], sep) == x);
        assert(joined(all, sep) == joined(all.drop_last(), sep) + sep + all.last());
        assert(joined(rest, sep) == rest[0]);
    } else {
        lemma_joined_prepend(x, rest.drop_last(), sep);
        assert(all.drop_last() =~= seq![x] + rest.drop_last());
        assert(all.last() == rest.last());
        assert(joined(all, sep) == joined(all.drop_last(), sep) + sep + all.last());
        assert(joined(rest, sep) == joined(rest.drop_last(), sep) + sep + rest.last());
        assert((x + sep + joined(rest.drop_last(), sep)) + sep + rest.last() =~= x + sep + (joined(
            rest.drop_last(),
            sep,
        ) + sep + rest.last()));
    }
}

proof fn lemma_split_from_rejoins(s: Seq<char>, d: Seq<char>, start: int, pos: int)
    requires
        d.len() > 0,
        0 <= start <= pos <= s.len(),
    ensures
        joined(split_from(s, d, start, pos), d) == s.subrange(start, s.len() as int),
    decreases s.len() - pos,
{
    if pos + d.len() > s.len() {
    } else if occurs_at(s, d, pos) {
        let rest = split_from(s, d, pos + d.len(), pos + d.len());
        lemma_split_from_rejoins(s, d, pos + d.len(), pos + d.len());
        lemma_split_from_nonempty(s, d, pos + d.len(), pos + d.len());
        lemma_joined_prepend(s.subrange(start, pos), rest, d);
        assert(s.subrange(start, pos) + d + s.subrange(pos + d.len(), s.len() as int) =~= s.subrange(
            start,
            s.len() as int,
        ));
    } else {
        lemma_split_from_rejoins(s, d, start, pos + 1);
    }
}

proof fn lemma_joined_singletons(s: Seq<char>)
    ensures
        joined(Seq::new(s.len(), |i: int| seq![s[i]]), Seq::empty()) == s,
    decreases s.len(),
{
    let parts = Seq::new(s.len(), |i: int| seq![s[i]]);
    if s.len() == 0 {
    } else if s.len() == 1 {
        assert(parts[0] =~= s);
    } else {
        lemma_joined_singletons(s.drop_last());
        assert(parts.drop_last() =~= Seq::new(s.drop_last().len(), |i: int| seq![s.drop_last()[i]]));
        assert(s.drop_last() + Seq::<char>::empty() + seq![s.last()] =~= s);
    }
}

proof fn lemma_joined_append_empty(parts: Seq<Seq<char>>)
    requires
        parts.len() >= 1,
    ensures
        joined(parts.push(Seq::empty()), Seq::empty()) == joined(parts, Seq::empty()),
{
    assert(parts.push(Seq::empty()).drop_last() =~= parts);
    assert(joined(parts, Seq::empty()) + Seq::<char>::empty() + Seq::<char>::empty() =~= joined(
        parts,
        Seq::empty(),
    ));
}

/// Splitting a text on a delimiter and joining the pieces back with that
/// delimiter gives the text again.
pub proof fn law_split_then_join_restores_text(s: Seq<char>, d: Seq<char>)
    ensures
        joined(split_pieces(s, d), d) == s,
{
    if d.len() > 0 {
        lemma_split_from_rejoins(s, d, 0, 0);
        assert(s.subrange(0, s.len() as int) =~= s);
    } else {
        let singles = Seq::new(s.len(), |i: int| seq![s[i]]);
        let front = seq![Seq::<char>::empty()] + singles;
        assert(split_pieces(s, d) =~= front.push(Seq::empty()));
        lemma_joined_append_empty(front);
        assert(d =~= Seq::<char>::empty());
        lemma_joined_singletons(s);
        if s.len() == 0 {
            assert(front =~= seq![Seq::<char>::empty()]);
        } else {
            lemma_joined_prepend(Seq::empty(), singles, Seq::empty());
            assert(Seq::<char>::empty() + Seq::<char>::empty() + joined(singles, Seq::empty()) =~= s);
        }
    }
}

/// Joining puts the separator between consecutive pieces and nowhere else:
/// no pieces give the empty text, one piece gives itself, and joining lists
/// laid end to end gives their joinings with one separator between.
pub proof fn law_join_puts_separators_between_pieces(
    x: Seq<Seq<char>>,
    y: Seq<Seq<char>>,
    piece: Seq<char>,
    sep: Seq<char>,
)
    ensures
        joined(Seq::empty(), sep) == Seq::<char>::empty(),
        joined(seq![piece], sep) == piece,
        x.len() >= 1 && y.len() >= 1 ==> joined(x + y, sep) == joined(x, sep) + sep + joined(y, sep),
{
    if x.len() >= 1 && y.len() >= 1 {
        lemma_joined_concat(x, y, sep);
    }
}

pub(crate) proof fn lemma_joined_concat(x: Seq<Seq<char>>, y: Seq<Seq<char>>, d: Seq<char>)
    requires
        x.len() >= 1,
        y.len() >= 1,
    ensures
        joined(x + y, d) == joined(x, d) + d + joined(y, d),
    decreases y.len(),
{
    let xy = x + y;
    assert(xy.last() == y.last());
    if y.len() == 1 {
        assert(xy.drop_last() =~= x);
        assert(joined(y, d) == y[0]);
    } else {
        assert(xy.drop_last() =~= x + y.drop_last());
        lemma_joined_concat(x, y.drop_last(), d);
        assert(joined(y, d) == joined(y.drop_last(), d) + d + y.last());
        assert(joined(x, d) + d + joined(y.drop_last(), d) + d + y.last() =~= joined(x, d) + d + (
        joined(y.drop_last(), d) + d + y.last()));
    }
}

/// Whether two string slices hold the same characters.
pub fn same_text(a: &str, b: &str) -> (r: bool)
    ensures
        r == (a@ == b@),
{
    let av = chars_of(a);
    let bv = chars_of(b);
    if av.len() != bv.len() {
        proof {
            if a@ == b@ {
                assert(av@.len() == bv@.len());
            }
        }
        return false;
    }
    let n = av.len();
    let mut i: usize = 0;
    while i < n
        invariant
            i <= n,
            n == av@.len(),
            n == bv@.len(),
            av@ == a@,
            bv@ == b@,
            forall|j: int| 0 <= j < i ==> av@[j] == bv@[j],
        decreases n - i,
    {
        if av[i] != bv[i] {
            proof {
                if a@ == b@ {
                    assert(av@[i as int] == bv@[i as int]);
                }
            }
            return false;
        }
        i = i + 1;
    }
    assert(av@ =~= bv@);
    true
}

} // verus!
