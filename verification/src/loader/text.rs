//! Character-level vocabulary shared by the line parsers: whitespace, trimming,
//! searching, counting and splitting, each as a mathematical definition over
//! `Seq<char>` together with an executable routine proved to compute it.

use vstd::prelude::*;

verus! {

/// The characters Unicode classifies as `White_Space`.
pub open spec fn is_whitespace(c: char) -> bool {
    let n = c as u32;
    ||| (0x09 <= n && n <= 0x0D)
    ||| n == 0x20
    ||| n == 0x85
    ||| n == 0xA0
    ||| n == 0x1680
    ||| (0x2000 <= n && n <= 0x200A)
    ||| n == 0x2028
    ||| n == 0x2029
    ||| n == 0x202F
    ||| n == 0x205F
    ||| n == 0x3000
}

/// Every character of `s` is whitespace (vacuously so for the empty sequence).
pub open spec fn all_whitespace(s: Seq<char>) -> bool {
    forall|i: int| 0 <= i < s.len() ==> is_whitespace(#[trigger] s[i])
}

/// Length of `s` once its trailing whitespace is removed.
pub open spec fn trim_end_len(s: Seq<char>) -> nat
    decreases s.len(),
{
    if s.len() == 0 {
        0
    } else if is_whitespace(s.last()) {
        trim_end_len(s.drop_last())
    } else {
        s.len()
    }
}

/// Number of leading whitespace characters of `s`.
pub open spec fn trim_start_len(s: Seq<char>) -> nat
    decreases s.len(),
{
    if s.len() == 0 {
        0
    } else if is_whitespace(s.first()) {
        1 + trim_start_len(s.drop_first())
    } else {
        0
    }
}

/// `s` without its trailing whitespace.
pub open spec fn trim_end(s: Seq<char>) -> Seq<char> {
    s.take(trim_end_len(s) as int)
}

/// `s` without its leading whitespace.
pub open spec fn trim_start(s: Seq<char>) -> Seq<char> {
    s.skip(trim_start_len(s) as int)
}

/// `s` without leading and trailing whitespace.
pub open spec fn trim(s: Seq<char>) -> Seq<char> {
    trim_start(trim_end(s))
}

/// Position of the first occurrence of `c` in `s`, or `s.len()` when there is none.
pub open spec fn index_of(s: Seq<char>, c: char) -> int
    decreases s.len(),
{
    if s.len() == 0 {
        0
    } else if s.first() == c {
        0
    } else {
        1 + index_of(s.drop_first(), c)
    }
}

/// Number of occurrences of `c` in `s`.
pub open spec fn count_char(s: Seq<char>, c: char) -> nat
    decreases s.len(),
{
    if s.len() == 0 {
        0
    } else {
        count_char(s.drop_last(), c) + if s.last() == c {
            1nat
        } else {
            0nat
        }
    }
}

/// The pieces of `s` between occurrences of `sep`. There is always at least one
/// piece; a separator at either end, or two in a row, delimit an empty piece.
pub open spec fn split(s: Seq<char>, sep: char) -> Seq<Seq<char>>
    decreases s.len(),
{
    let i = index_of(s, sep);
    if 0 <= i < s.len() {
        seq![s.take(i)] + split(s.skip(i + 1), sep)
    } else {
        seq![s]
    }
}

/// The sub-sequences of `s` delimited by the index pairs in `spans`.
pub open spec fn pieces(s: Seq<char>, spans: Seq<(usize, usize)>) -> Seq<Seq<char>> {
    Seq::new(spans.len(), |k: int| s.subrange(spans[k].0 as int, spans[k].1 as int))
}

/// The spans cover a sequence of length `len` from its start to its end, in
/// order, with exactly one position left out between one span and the next.
pub open spec fn spans_cover(spans: Seq<(usize, usize)>, len: nat) -> bool {
    &&& spans.len() >= 1
    &&& spans[0].0 == 0
    &&& spans[spans.len() - 1].1 == len
    &&& forall|k: int| 0 <= k < spans.len() ==> (#[trigger] spans[k]).0 <= spans[k].1
    &&& forall|k: int| 0 <= k < spans.len() - 1 ==> (#[trigger] spans[k + 1]).0 == spans[k].1 + 1
}

/// Spans that cover a sequence lie inside it.
pub proof fn lemma_spans_cover_within(spans: Seq<(usize, usize)>, len: nat, k: int)
    requires
        spans_cover(spans, len),
        0 <= k < spans.len(),
    ensures
        spans[k].0 <= spans[k].1 <= len,
    decreases spans.len() - k,
{
    if k < spans.len() - 1 {
        lemma_spans_cover_within(spans, len, k + 1);
    }
}

/// What trimming the end leaves: nothing longer than `s`, nothing that ends in
/// whitespace, and nothing but whitespace cut away.
pub proof fn lemma_trim_end_len(s: Seq<char>)
    ensures
        trim_end_len(s) <= s.len(),
        trim_end_len(s) > 0 ==> !is_whitespace(s[trim_end_len(s) - 1]),
        forall|i: int| trim_end_len(s) <= i < s.len() ==> is_whitespace(#[trigger] s[i]),
    decreases s.len(),
{
    if s.len() > 0 && is_whitespace(s.last()) {
        let front = s.drop_last();
        lemma_trim_end_len(front);
        assert forall|i: int| trim_end_len(s) <= i < s.len() implies is_whitespace(
            #[trigger] s[i],
        ) by {
            if i < front.len() {
                assert(s[i] == front[i]);
            }
        }
    }
}

/// A cut point with only whitespace after it and none just before it is the
/// trimmed length.
pub proof fn lemma_trim_end_len_unique(s: Seq<char>, e: int)
    requires
        0 <= e <= s.len(),
        e > 0 ==> !is_whitespace(s[e - 1]),
        forall|i: int| e <= i < s.len() ==> is_whitespace(#[trigger] s[i]),
    ensures
        trim_end_len(s) == e,
    decreases s.len(),
{
    if s.len() > 0 && is_whitespace(s.last()) {
        lemma_trim_end_len_unique(s.drop_last(), e);
    }
}

/// Trimming the end twice changes nothing more.
pub proof fn lemma_trim_end_idempotent(s: Seq<char>)
    ensures
        trim_end(trim_end(s)) == trim_end(s),
{
    lemma_trim_end_len(s);
    let t = trim_end(s);
    lemma_trim_end_len_unique(t, t.len() as int);
}

/// A sequence is all whitespace exactly when trimming its end leaves nothing.
pub proof fn lemma_all_whitespace_trims_to_empty(s: Seq<char>)
    ensures
        all_whitespace(s) <==> trim_end_len(s) == 0,
{
    lemma_trim_end_len(s);
    if all_whitespace(s) {
        lemma_trim_end_len_unique(s, 0);
    }
}

/// A whitespace prefix that stops at a character that is not whitespace is the
/// one that trimming the start removes.
pub proof fn lemma_trim_start_len_unique(s: Seq<char>, b: int)
    requires
        0 <= b <= s.len(),
        b < s.len() ==> !is_whitespace(s[b]),
        forall|i: int| 0 <= i < b ==> is_whitespace(#[trigger] s[i]),
    ensures
        trim_start_len(s) == b,
    decreases s.len(),
{
    if s.len() > 0 && is_whitespace(s.first()) {
        let rest = s.drop_first();
        assert forall|i: int| 0 <= i < b - 1 implies is_whitespace(#[trigger] rest[i]) by {
            assert(rest[i] == s[i + 1]);
        }
        lemma_trim_start_len_unique(rest, b - 1);
    }
}

/// `index_of` finds an occurrence, and nothing before it is one.
pub proof fn lemma_index_of(s: Seq<char>, c: char)
    ensures
        0 <= index_of(s, c) <= s.len(),
        index_of(s, c) < s.len() ==> s[index_of(s, c)] == c,
        forall|i: int| 0 <= i < index_of(s, c) ==> #[trigger] s[i] != c,
    decreases s.len(),
{
    if s.len() > 0 && s.first() != c {
        let rest = s.drop_first();
        lemma_index_of(rest, c);
        assert forall|i: int| 0 <= i < index_of(s, c) implies #[trigger] s[i] != c by {
            if i > 0 {
                assert(s[i] == rest[i - 1]);
            }
        }
    }
}

/// A position that holds `c` (or is the end) with no `c` before it is the one
/// `index_of` reports.
pub proof fn lemma_index_of_unique(s: Seq<char>, c: char, k: int)
    requires
        0 <= k <= s.len(),
        k < s.len() ==> s[k] == c,
        forall|i: int| 0 <= i < k ==> #[trigger] s[i] != c,
    ensures
        index_of(s, c) == k,
    decreases s.len(),
{
    if s.len() > 0 && s.first() != c {
        let rest = s.drop_first();
        assert forall|i: int| 0 <= i < k - 1 implies #[trigger] rest[i] != c by {
            assert(rest[i] == s[i + 1]);
        }
        lemma_index_of_unique(rest, c, k - 1);
    }
}

/// A split always yields at least one piece, and the first is what stands
/// before the first separator.
pub proof fn lemma_split_nonempty(s: Seq<char>, sep: char)
    ensures
        split(s, sep).len() >= 1,
        split(s, sep)[0] == s.take(index_of(s, sep)),
{
    lemma_index_of(s, sep);
}

/// Whether `c` is a whitespace character.
pub fn is_whitespace_char(c: char) -> (b: bool)
    ensures
        b == is_whitespace(c),
{
    let n: u32 = c as u32;
    (0x09 <= n && n <= 0x0D) || n == 0x20 || n == 0x85 || n == 0xA0 || n == 0x1680 || (0x2000 <= n
        && n <= 0x200A) || n == 0x2028 || n == 0x2029 || n == 0x202F || n == 0x205F || n == 0x3000
}

/// The characters of `s`, in order.
pub fn chars_of(s: &str) -> (v: Vec<char>)
    ensures
        v@ == s@,
{
    let mut v: Vec<char> = Vec::new();
    for c in it: s.chars()
        invariant
            v@ == it.seq().take(it.index() as int),
            it.seq() == s@,
    {
        v.push(c);
    }
    v
}

/// Where the first `end` characters of `v` stop once trailing whitespace is cut.
pub fn trim_end_index(v: &Vec<char>, end: usize) -> (e: usize)
    requires
        end <= v@.len(),
    ensures
        e == trim_end_len(v@.take(end as int)),
        e <= end,
{
    let mut e: usize = end;
    while e > 0 && is_whitespace_char(v[e - 1])
        invariant
            e <= end <= v@.len(),
            forall|i: int| e <= i < end ==> is_whitespace(#[trigger] v@[i]),
        decreases e,
    {
        e = e - 1;
    }
    proof {
        lemma_trim_end_len_unique(v@.take(end as int), e as int);
    }
    e
}

/// Where the characters of `v` from `start` up to `end` begin once leading
/// whitespace is skipped.
pub fn trim_start_index(v: &Vec<char>, start: usize, end: usize) -> (b: usize)
    requires
        start <= end <= v@.len(),
    ensures
        b == start + trim_start_len(v@.subrange(start as int, end as int)),
        start <= b <= end,
{
    let mut b: usize = start;
    while b < end && is_whitespace_char(v[b])
        invariant
            start <= b <= end <= v@.len(),
            forall|i: int| start <= i < b ==> is_whitespace(#[trigger] v@[i]),
        decreases end - b,
    {
        b = b + 1;
    }
    proof {
        lemma_trim_start_len_unique(v@.subrange(start as int, end as int), b - start);
    }
    b
}

/// Position of the first `c` among the characters of `v` from `start` up to
/// `end`, or `end` when there is none.
pub fn find_char(v: &Vec<char>, start: usize, end: usize, c: char) -> (k: usize)
    requires
        start <= end <= v@.len(),
    ensures
        k == start + index_of(v@.subrange(start as int, end as int), c),
        start <= k <= end,
{
    let mut k: usize = start;
    while k < end && v[k] != c
        invariant
            start <= k <= end <= v@.len(),
            forall|i: int| start <= i < k ==> #[trigger] v@[i] != c,
        decreases end - k,
    {
        k = k + 1;
    }
    proof {
        lemma_index_of_unique(v@.subrange(start as int, end as int), c, k - start);
    }
    k
}

/// Number of occurrences of `c` among the characters of `v` from `start` up to
/// `end`.
pub fn count_char_in(v: &Vec<char>, start: usize, end: usize, c: char) -> (n: usize)
    requires
        start <= end <= v@.len(),
    ensures
        n == count_char(v@.subrange(start as int, end as int), c),
{
    let mut n: usize = 0;
    let mut k: usize = start;
    while k < end
        invariant
            start <= k <= end <= v@.len(),
            n == count_char(v@.subrange(start as int, k as int), c),
            n <= k - start,
        decreases end - k,
    {
        proof {
            let next = v@.subrange(start as int, k + 1);
            assert(next.drop_last() =~= v@.subrange(start as int, k as int));
        }
        if v[k] == c {
            n = n + 1;
        }
        k = k + 1;
    }
    n
}

/// The spans of the pieces that `sep` cuts `v` into: one span for each
/// piece, in order, each separator left out between two of them.
pub fn split_spans(v: &Vec<char>, sep: char) -> (spans: Vec<(usize, usize)>)
    ensures
        pieces(v@, spans@) == split(v@, sep),
        spans_cover(spans@, v@.len()),
{
    let n: usize = v.len();
    let mut spans: Vec<(usize, usize)> = Vec::new();
    let mut start: usize = 0;
    proof {
        assert(v@.skip(0) =~= v@);
    }
    loop
        invariant_except_break
            start <= n,
            n == v@.len(),
            spans@.len() == 0 ==> start == 0,
            spans@.len() > 0 ==> spans@[0].0 == 0 && start == spans@[spans@.len() - 1].1 + 1,
            forall|k: int| 0 <= k < spans@.len() ==> (#[trigger] spans@[k]).0 <= spans@[k].1,
            forall|k: int|
                0 <= k < spans@.len() - 1 ==> (#[trigger] spans@[k + 1]).0 == spans@[k].1 + 1,
            split(v@, sep) == pieces(v@, spans@) + split(v@.skip(start as int), sep),
        ensures
            pieces(v@, spans@) == split(v@, sep),
            spans_cover(spans@, v@.len()),
        decreases n - start,
    {
        let k: usize = find_char(v, start, n, sep);
        let ghost rest = v@.skip(start as int);
        proof {
            assert(rest.take(k - start) =~= v@.subrange(start as int, k as int));
        }
        spans.push((start, k));
        if k == n {
            break ;
        }
        proof {
            assert(rest.skip(k - start + 1) =~= v@.skip(k + 1));
        }
        start = k + 1;
    }
    spans
}

} // verus!
