//! The hypothesis generator: the candidate patterns examples' outputs give,
//! and the words a generalisation keeps; with the word splitting and word
//! counting they rest on.
use vstd::prelude::*;
use crate::text::{
    chars_of, contains_chars, contains_seq, is_whitespace, is_ws, lowercase, push_string, push_text, str_eq,
    string_from_chars, string_of, texts, unicode_lowercase, utf8_len,
};

verus! {

/// How many examples a pattern needs to become a hypothesis.
pub const MIN_SUPPORT: usize = 2;

/// The longest pattern, in words, the generator considers.
pub const MAX_PATTERN_LENGTH: usize = 10;

/// Generates candidate hypotheses from examples.
pub struct HypothesisGenerator {
    pub min_support: usize,
    pub max_pattern_length: usize,
}

impl HypothesisGenerator {
    /// A generator asking two supporting examples of patterns up to ten words.
    pub fn new() -> (g: HypothesisGenerator)
        ensures
            g.min_support == MIN_SUPPORT,
            g.max_pattern_length == MAX_PATTERN_LENGTH,
    {
        HypothesisGenerator { min_support: MIN_SUPPORT, max_pattern_length: MAX_PATTERN_LENGTH }
    }
}

impl Default for HypothesisGenerator {
    fn default() -> (g: HypothesisGenerator)
        ensures
            g.min_support == MIN_SUPPORT,
            g.max_pattern_length == MAX_PATTERN_LENGTH,
    {
        HypothesisGenerator::new()
    }
}

/// The word a run of characters read so far gives: none when it is empty.
pub open spec fn word_of(cur: Seq<char>) -> Seq<Seq<char>> {
    if cur.len() > 0 {
        seq![cur]
    } else {
        Seq::empty()
    }
}

/// The words of `s` from position `i` on, with `cur` the part of the word in
/// progress read so far: the maximal runs of characters that are not
/// whitespace.
pub open spec fn words_from(s: Seq<char>, i: int, cur: Seq<char>) -> Seq<Seq<char>>
    decreases s.len() - i,
{
    if i >= s.len() {
        word_of(cur)
    } else if is_ws(s[i]) {
        word_of(cur) + words_from(s, i + 1, Seq::empty())
    } else {
        words_from(s, i + 1, cur.push(s[i]))
    }
}

/// The whitespace-separated words of a text, as `str::split_whitespace`
/// gives them.
pub open spec fn words_of(s: Seq<char>) -> Seq<Seq<char>> {
    words_from(s, 0, Seq::empty())
}

/// The texts of a list of character vectors.
pub open spec fn rows(v: Seq<Vec<char>>) -> Seq<Seq<char>> {
    v.map_values(|w: Vec<char>| w@)
}

/// Appends the word a run gives, if any.
fn emit_run(out: &mut Vec<Vec<char>>, cur: Vec<char>)
    ensures
        rows(final(out)@) == rows(old(out)@) + word_of(cur@),
{
    let ghost c = cur@;
    if cur.len() > 0 {
        out.push(cur);
    }
    assert(rows(out@) =~= rows(old(out)@) + word_of(c));
}

/// The whitespace-separated words of a text.
pub fn split_words(text: &[char]) -> (r: Vec<Vec<char>>)
    ensures
        rows(r@) == words_of(text@),
{
    let mut out: Vec<Vec<char>> = Vec::new();
    let mut cur: Vec<char> = Vec::new();
    let mut i: usize = 0;
    while i < text.len()
        invariant
            i <= text@.len(),
            rows(out@) + words_from(text@, i as int, cur@) == words_of(text@),
        decreases text@.len() - i,
    {
        let c = text[i];
        if is_whitespace(c) {
            let ghost before = rows(out@);
            let ghost run = cur@;
            let mut done: Vec<char> = Vec::new();
            std::mem::swap(&mut done, &mut cur);
            emit_run(&mut out, done);
            proof {
                assert(rows(out@) + words_from(text@, i + 1, Seq::empty()) =~= before + (word_of(
                    run,
                ) + words_from(text@, i + 1, Seq::empty())));
            }
        } else {
            cur.push(c);
        }
        i = i + 1;
    }
    emit_run(&mut out, cur);
    out
}

/// Words joined with single spaces, as `[&str]::join(" ")` joins them.
pub open spec fn join_spaced(ws: Seq<Seq<char>>) -> Seq<char>
    decreases ws.len(),
{
    if ws.len() == 0 {
        Seq::empty()
    } else if ws.len() == 1 {
        ws[0]
    } else {
        join_spaced(ws.drop_last()) + " "@ + ws.last()
    }
}

/// The runs of `len` consecutive words, in order, each joined with spaces,
/// as `slice::windows` gives them: none when there are fewer than `len`.
pub open spec fn runs_of(words: Seq<Seq<char>>, len: int) -> Seq<Seq<char>> {
    if 0 < len <= words.len() {
        Seq::new(
            (words.len() - len + 1) as nat,
            |k: int| join_spaced(words.subrange(k, k + len)),
        )
    } else {
        Seq::empty()
    }
}

/// A pattern long enough to become a candidate: more than three bytes.
pub open spec fn long_enough(p: Seq<char>) -> bool {
    utf8_len(p) > 3
}

/// The long enough runs of `len` words among the first `k` runs.
pub open spec fn long_runs_prefix(words: Seq<Seq<char>>, len: int, k: int) -> Seq<Seq<char>> {
    runs_of(words, len).take(k).filter(|p: Seq<char>| long_enough(p))
}

/// The runs of `len` words long enough to become candidates.
pub open spec fn long_runs(words: Seq<Seq<char>>, len: int) -> Seq<Seq<char>> {
    long_runs_prefix(words, len, runs_of(words, len).len() as int)
}

/// One more run either joins the long enough runs or does not.
proof fn lemma_long_runs_step(words: Seq<Seq<char>>, len: int, k: int)
    requires
        0 <= k < runs_of(words, len).len(),
    ensures
        long_runs_prefix(words, len, k + 1) == long_runs_prefix(words, len, k) + (if long_enough(
            runs_of(words, len)[k],
        ) {
            seq![runs_of(words, len)[k]]
        } else {
            Seq::empty()
        }),
{
    reveal(Seq::filter);
    let t = runs_of(words, len).take(k + 1);
    assert(t.drop_last() =~= runs_of(words, len).take(k));
    assert(t.last() == runs_of(words, len)[k]);
    assert(long_runs_prefix(words, len, k + 1) =~= long_runs_prefix(words, len, k) + (
    if long_enough(runs_of(words, len)[k]) {
        seq![runs_of(words, len)[k]]
    } else {
        Seq::empty()
    }));
}

/// The longest run the generator tries in an example of `n` words: `n`
/// bounded by the generator's limit, and at least two.
pub open spec fn longest_run(n: nat, max_len: nat) -> int {
    let m = if n < max_len {
        n
    } else {
        max_len
    };
    if m < 2 {
        2
    } else {
        m as int
    }
}

/// The long enough runs of 2 to `upto` words, shorter runs first.
pub open spec fn patterns_upto(words: Seq<Seq<char>>, upto: int) -> Seq<Seq<char>>
    decreases upto,
{
    if upto < 2 {
        Seq::empty()
    } else {
        patterns_upto(words, upto - 1) + long_runs(words, upto)
    }
}

/// The candidate patterns one example's words give.
pub open spec fn example_patterns(words: Seq<Seq<char>>, max_len: nat) -> Seq<Seq<char>> {
    patterns_upto(words, longest_run(words.len(), max_len))
}

/// The candidate patterns of all examples' outputs, example by example.
pub open spec fn all_patterns(outputs: Seq<Seq<char>>, max_len: nat) -> Seq<Seq<char>>
    decreases outputs.len(),
{
    if outputs.len() == 0 {
        Seq::empty()
    } else {
        all_patterns(outputs.drop_last(), max_len) + example_patterns(
            words_of(outputs.last()),
            max_len,
        )
    }
}

/// The words `start .. start + len` joined with spaces.
pub(crate) fn join_run(words: &Vec<Vec<char>>, start: usize, len: usize) -> (r: Vec<char>)
    requires
        0 < len,
        start + len <= words@.len(),
    ensures
        r@ == join_spaced(rows(words@).subrange(start as int, start + len)),
{
    let ghost ws = rows(words@);
    let mut r: Vec<char> = Vec::new();
    let first = &words[start];
    let mut t: usize = 0;
    while t < first.len()
        invariant
            t <= first@.len(),
            r@ == first@.subrange(0, t as int),
        decreases first@.len() - t,
    {
        r.push(first[t]);
        t = t + 1;
        assert(r@ =~= first@.subrange(0, t as int));
    }
    assert(r@ =~= first@);
    assert(ws.subrange(start as int, start + 1) =~= seq![first@]);
    let total = words.len();
    let mut j: usize = 1;
    while j < len
        invariant
            1 <= j <= len,
            total == words@.len(),
            start + len <= words@.len(),
            ws == rows(words@),
            r@ == join_spaced(ws.subrange(start as int, start + j)),
        decreases len - j,
    {
        let idx: usize = start + j;
        let w = &words[idx];
        let ghost before = r@;
        r.push(' ');
        proof {
            reveal_strlit(" ");
        }
        assert(r@ =~= before + " "@ + Seq::<char>::empty());
        let mut t: usize = 0;
        assert(w@.subrange(0, 0) =~= Seq::<char>::empty());
        while t < w.len()
            invariant
                t <= w@.len(),
                r@ == before + " "@ + w@.subrange(0, t as int),
            decreases w@.len() - t,
        {
            r.push(w[t]);
            t = t + 1;
            assert(r@ =~= before + " "@ + w@.subrange(0, t as int));
        }
        assert(w@.subrange(0, t as int) =~= w@);
        let ghost next = ws.subrange(start as int, start + j + 1);
        assert(next.drop_last() =~= ws.subrange(start as int, start + j));
        assert(next.last() == w@);
        j = j + 1;
    }
    r
}

/// Appends the long enough runs of `len` words.
fn push_long_runs(out: &mut Vec<String>, words: &Vec<Vec<char>>, len: usize)
    requires
        0 < len,
    ensures
        texts(final(out)@) == texts(old(out)@) + long_runs(rows(words@), len as int),
{
    let ghost ws = rows(words@);
    if len > words.len() {
        assert(runs_of(ws, len as int).take(0) =~= Seq::<Seq<char>>::empty());
        proof {
            reveal(Seq::filter);
        }
        assert(texts(out@) =~= texts(old(out)@) + long_runs(ws, len as int));
        return;
    }
    let count = words.len() - len + 1;
    let mut start: usize = 0;
    proof {
        reveal(Seq::filter);
    }
    assert(runs_of(ws, len as int).take(0) =~= Seq::<Seq<char>>::empty());
    assert(texts(out@) =~= texts(old(out)@) + long_runs_prefix(ws, len as int, 0));
    while start < count
        invariant
            0 < len <= words@.len(),
            count == words@.len() - len + 1,
            count == runs_of(ws, len as int).len(),
            start <= count,
            ws == rows(words@),
            texts(out@) == texts(old(out)@) + long_runs_prefix(ws, len as int, start as int),
        decreases count - start,
    {
        let run = join_run(words, start, len);
        let s = string_from_chars(run.as_slice());
        let ghost before = texts(out@);
        proof {
            lemma_long_runs_step(ws, len as int, start as int);
            assert(runs_of(ws, len as int)[start as int] == s@);
        }
        let bytes = s.as_str().as_bytes().len();
        assert(bytes == utf8_len(s@));
        if bytes > 3 {
            push_string(out, s);
            assert(texts(out@) =~= texts(old(out)@) + long_runs_prefix(ws, len as int, start + 1));
        } else {
            assert(texts(out@) =~= texts(old(out)@) + long_runs_prefix(ws, len as int, start + 1));
        }
        start = start + 1;
    }
}

/// Appends the candidate patterns one example's words give.
fn push_example_patterns(out: &mut Vec<String>, words: &Vec<Vec<char>>, max_len: usize)
    ensures
        texts(final(out)@) == texts(old(out)@) + example_patterns(rows(words@), max_len as nat),
{
    let n = if words.len() < max_len {
        words.len()
    } else {
        max_len
    };
    let longest = if n < 2 {
        2
    } else {
        n
    };
    let mut len: usize = 2;
    let mut done: bool = false;
    assert(patterns_upto(rows(words@), 1) =~= Seq::<Seq<char>>::empty());
    assert(texts(out@) =~= texts(old(out)@) + patterns_upto(rows(words@), 1));
    while !done
        invariant
            2 <= len <= longest,
            longest == longest_run(rows(words@).len(), max_len as nat),
            done ==> texts(out@) == texts(old(out)@) + patterns_upto(rows(words@), longest as int),
            !done ==> texts(out@) == texts(old(out)@) + patterns_upto(rows(words@), len - 1),
        decreases longest - len + (if done {
            0int
        } else {
            1int
        }),
    {
        push_long_runs(out, words, len);
        assert(texts(out@) =~= texts(old(out)@) + patterns_upto(rows(words@), len as int));
        if len == longest {
            done = true;
        } else {
            len = len + 1;
        }
    }
}

/// The candidate patterns of all outputs, example by example.
pub fn all_candidate_patterns(outputs: &[String], max_len: usize) -> (r: Vec<String>)
    ensures
        texts(r@) == all_patterns(texts(outputs@), max_len as nat),
{
    let mut out: Vec<String> = Vec::new();
    let mut i: usize = 0;
    while i < outputs.len()
        invariant
            i <= outputs@.len(),
            texts(out@) == all_patterns(texts(outputs@).take(i as int), max_len as nat),
        decreases outputs@.len() - i,
    {
        let text = chars_of(outputs[i].as_str());
        let words = split_words(text.as_slice());
        push_example_patterns(&mut out, &words, max_len);
        proof {
            let ts = texts(outputs@).take(i + 1);
            assert(ts.drop_last() =~= texts(outputs@).take(i as int));
            assert(ts.last() == outputs@[i as int]@);
        }
        i = i + 1;
    }
    assert(texts(outputs@).take(i as int) =~= texts(outputs@));
    out
}

/// Whether the pattern at `i` shares its lowercase form with an earlier one.
pub open spec fn seen_before(ps: Seq<Seq<char>>, i: int) -> bool {
    exists|j: int| 0 <= j < i && unicode_lowercase(#[trigger] ps[j]) == unicode_lowercase(ps[i])
}

/// The patterns without repeats, ignoring case: the first of each kept, in
/// order.
pub open spec fn dedup_lower(ps: Seq<Seq<char>>) -> Seq<Seq<char>>
    decreases ps.len(),
{
    if ps.len() == 0 {
        Seq::empty()
    } else if seen_before(ps, ps.len() - 1) {
        dedup_lower(ps.drop_last())
    } else {
        dedup_lower(ps.drop_last()).push(ps.last())
    }
}

/// The indices among the first `k` outputs of those that contain the
/// pattern, ignoring case.
pub open spec fn support_upto(outputs: Seq<Seq<char>>, pattern: Seq<char>, k: int) -> Seq<usize>
    decreases k,
{
    if k <= 0 {
        Seq::empty()
    } else {
        support_upto(outputs, pattern, k - 1) + (if contains_seq(
            unicode_lowercase(outputs[k - 1]),
            unicode_lowercase(pattern),
        ) {
            seq![(k - 1) as usize]
        } else {
            Seq::empty()
        })
    }
}

/// The indices of the outputs that contain the pattern, ignoring case.
pub open spec fn support_of(outputs: Seq<Seq<char>>, pattern: Seq<char>) -> Seq<usize> {
    support_upto(outputs, pattern, outputs.len() as int)
}

/// Whether enough outputs support a pattern.
pub open spec fn well_supported(outputs: Seq<Seq<char>>, min_support: nat, p: Seq<char>) -> bool {
    support_of(outputs, p).len() >= min_support
}

/// The well supported patterns among the first `k` distinct ones.
pub open spec fn candidates_prefix(
    outputs: Seq<Seq<char>>,
    max_len: nat,
    min_support: nat,
    k: int,
) -> Seq<Seq<char>> {
    dedup_lower(all_patterns(outputs, max_len)).take(k).filter(
        |p: Seq<char>| well_supported(outputs, min_support, p),
    )
}

/// The candidate patterns of a generator: the patterns of all outputs,
/// without repeats ignoring case, that enough outputs contain.
pub open spec fn candidates_spec(outputs: Seq<Seq<char>>, max_len: nat, min_support: nat) -> Seq<
    Seq<char>,
> {
    candidates_prefix(
        outputs,
        max_len,
        min_support,
        dedup_lower(all_patterns(outputs, max_len)).len() as int,
    )
}

proof fn lemma_candidates_step(outputs: Seq<Seq<char>>, max_len: nat, min_support: nat, k: int)
    requires
        0 <= k < dedup_lower(all_patterns(outputs, max_len)).len(),
    ensures
        ({
            let d = dedup_lower(all_patterns(outputs, max_len));
            candidates_prefix(outputs, max_len, min_support, k + 1) == candidates_prefix(
                outputs,
                max_len,
                min_support,
                k,
            ) + (if well_supported(outputs, min_support, d[k]) {
                seq![d[k]]
            } else {
                Seq::empty()
            })
        }),
{
    reveal(Seq::filter);
    let d = dedup_lower(all_patterns(outputs, max_len));
    let t = d.take(k + 1);
    assert(t.drop_last() =~= d.take(k));
    assert(t.last() == d[k]);
    assert(candidates_prefix(outputs, max_len, min_support, k + 1) =~= candidates_prefix(
        outputs,
        max_len,
        min_support,
        k,
    ) + (if well_supported(outputs, min_support, d[k]) {
        seq![d[k]]
    } else {
        Seq::empty()
    }));
}

/// The position of a text among texts, if it is there.
fn position_of(keys: &Vec<String>, key: &str) -> (r: Option<usize>)
    ensures
        r matches Some(t) ==> t < keys@.len() && keys@[t as int]@ == key@,
        r is None ==> forall|t: int| 0 <= t < keys@.len() ==> (#[trigger] keys@[t])@ != key@,
{
    let mut t: usize = 0;
    while t < keys.len()
        invariant
            t <= keys@.len(),
            forall|u: int| 0 <= u < t ==> (#[trigger] keys@[u])@ != key@,
        decreases keys@.len() - t,
    {
        if str_eq(keys[t].as_str(), key) {
            return Some(t);
        }
        t = t + 1;
    }
    None
}

/// Whether some text of `s` has the lowercase form `key`.
pub open spec fn lowered_has(s: Seq<Seq<char>>, key: Seq<char>) -> bool {
    exists|j: int| 0 <= j < s.len() && unicode_lowercase(#[trigger] s[j]) == key
}

/// Dropping repeats keeps every lowercase form that occurs.
proof fn lemma_dedup_keys(s: Seq<Seq<char>>, key: Seq<char>)
    ensures
        lowered_has(dedup_lower(s), key) == lowered_has(s, key),
    decreases s.len(),
{
    if s.len() > 0 {
        let p = s.drop_last();
        let n = s.len() - 1;
        lemma_dedup_keys(p, key);
        let d = dedup_lower(p);
        let ds = dedup_lower(s);
        // lowered_has(s) == lowered_has(p) || lower(last) == key
        assert(lowered_has(s, key) == (lowered_has(p, key) || unicode_lowercase(s[n]) == key)) by {
            if lowered_has(s, key) {
                let j = choose|j: int| 0 <= j < s.len() && unicode_lowercase(#[trigger] s[j]) == key;
                if j < n {
                    assert(p[j] == s[j]);
                }
            }
            if lowered_has(p, key) {
                let j = choose|j: int| 0 <= j < p.len() && unicode_lowercase(#[trigger] p[j]) == key;
                assert(s[j] == p[j]);
            }
        }
        if seen_before(s, n) {
            assert(ds == d);
            if unicode_lowercase(s[n]) == key {
                let jj = choose|jj: int|
                    0 <= jj < n && unicode_lowercase(#[trigger] s[jj]) == unicode_lowercase(s[n]);
                assert(p[jj] == s[jj]);
                assert(lowered_has(p, key));
            }
        } else {
            assert(ds == d.push(s[n]));
            assert(lowered_has(ds, key) == (lowered_has(d, key) || unicode_lowercase(s[n]) == key))
                by {
                if lowered_has(ds, key) {
                    let t = choose|t: int| 0 <= t < ds.len() && unicode_lowercase(#[trigger] ds[t]) == key;
                    if t < d.len() {
                        assert(ds[t] == d[t]);
                    }
                }
                if lowered_has(d, key) {
                    let t = choose|t: int| 0 <= t < d.len() && unicode_lowercase(#[trigger] d[t]) == key;
                    assert(ds[t] == d[t]);
                }
                if unicode_lowercase(s[n]) == key {
                    assert(ds[d.len() as int] == s[n]);
                }
            }
        }
    }
}

/// One more pattern: it is seen before exactly when its lowercase form is
/// among those of the patterns kept so far.
proof fn lemma_dedup_step(all: Seq<Seq<char>>, i: int, key: Seq<char>)
    requires
        0 <= i < all.len(),
        key == unicode_lowercase(all[i]),
    ensures
        seen_before(all.take(i + 1), i) == lowered_has(dedup_lower(all.take(i)), key),
        all.take(i + 1).drop_last() == all.take(i),
        all.take(i + 1).last() == all[i],
{
    let ts = all.take(i + 1);
    assert(ts.drop_last() =~= all.take(i));
    lemma_dedup_keys(all.take(i), key);
    if seen_before(ts, i) {
        let j = choose|j: int| 0 <= j < i && unicode_lowercase(#[trigger] ts[j]) == unicode_lowercase(ts[i]);
        assert(all.take(i)[j] == ts[j]);
    }
    if lowered_has(all.take(i), key) {
        let j = choose|j: int| 0 <= j < i && unicode_lowercase(#[trigger] all.take(i)[j]) == key;
        assert(ts[j] == all.take(i)[j]);
    }
}

/// The patterns without repeats, ignoring case.
fn dedup_lowercase(ps: &Vec<String>) -> (r: Vec<String>)
    ensures
        texts(r@) == dedup_lower(texts(ps@)),
{
    let ghost all = texts(ps@);
    let mut kept: Vec<String> = Vec::new();
    let mut keys: Vec<String> = Vec::new();
    let mut i: usize = 0;
    assert(all.take(0) =~= Seq::<Seq<char>>::empty());
    while i < ps.len()
        invariant
            i <= ps@.len(),
            all == texts(ps@),
            texts(kept@) == dedup_lower(all.take(i as int)),
            keys@.len() == kept@.len(),
            forall|t: int| 0 <= t < keys@.len() ==> (#[trigger] keys@[t])@ == unicode_lowercase(
                kept@[t]@,
            ),
        decreases ps@.len() - i,
    {
        let key = lowercase(ps[i].as_str());
        proof {
            lemma_dedup_step(all, i as int, key@);
        }
        let ghost d = dedup_lower(all.take(i as int));
        match position_of(&keys, key.as_str()) {
            Some(t) => {
                assert(d[t as int] == kept@[t as int]@);
                assert(lowered_has(d, key@));
            },
            None => {
                assert(!lowered_has(d, key@)) by {
                    if lowered_has(d, key@) {
                        let t = choose|t: int| 0 <= t < d.len() && unicode_lowercase(#[trigger] d[t]) == key@;
                        assert(d[t] == kept@[t]@);
                        assert(keys@[t]@ == key@);
                    }
                }
                let ghost pb = kept@;
                let p = string_of(ps[i].as_str());
                kept.push(p);
                keys.push(key);
                assert(texts(kept@) =~= texts(pb).push(all[i as int]));
            },
        }
        i = i + 1;
    }
    assert(all.take(i as int) =~= all);
    kept
}

/// The indices of the outputs, given in lower case, that contain the
/// lowercase key.
fn support_in(
    lows: &Vec<Vec<char>>,
    key: &[char],
    Ghost(outputs): Ghost<Seq<Seq<char>>>,
    Ghost(pattern): Ghost<Seq<char>>,
) -> (r: Vec<usize>)
    requires
        lows@.len() == outputs.len(),
        forall|i: int| 0 <= i < outputs.len() ==> (#[trigger] lows@[i])@ == unicode_lowercase(
            outputs[i],
        ),
        key@ == unicode_lowercase(pattern),
    ensures
        r@ == support_of(outputs, pattern),
{
    let mut r: Vec<usize> = Vec::new();
    let mut i: usize = 0;
    while i < lows.len()
        invariant
            i <= lows@.len(),
            lows@.len() == outputs.len(),
            forall|k: int| 0 <= k < outputs.len() ==> (#[trigger] lows@[k])@ == unicode_lowercase(
                outputs[k],
            ),
            key@ == unicode_lowercase(pattern),
            r@ == support_upto(outputs, pattern, i as int),
        decreases lows@.len() - i,
    {
        assert(lows@[i as int]@ == unicode_lowercase(outputs[i as int]));
        if contains_chars(lows[i].as_slice(), key) {
            r.push(i);
        }
        assert(r@ =~= support_upto(outputs, pattern, i + 1));
        i = i + 1;
    }
    r
}

/// A candidate pattern and the examples whose output contains it.
#[derive(Debug, Clone)]
pub struct CandidatePattern {
    pub pattern: String,
    pub supporting_examples: Vec<usize>,
}

impl HypothesisGenerator {
    /// The candidate patterns the examples' outputs give: every run of two
    /// up to `max_pattern_length` consecutive words of an output (at least
    /// two), joined with spaces and longer than three bytes, example by
    /// example and shorter runs first; the first of each set of patterns
    /// equal ignoring case; each with the examples whose output contains it
    /// ignoring case, and kept when there are at least `min_support` of them.
    pub fn candidate_patterns(&self, outputs: &[String]) -> (r: Vec<CandidatePattern>)
        ensures
            r@.len() == candidates_spec(
                texts(outputs@),
                self.max_pattern_length as nat,
                self.min_support as nat,
            ).len(),
            forall|i: int|
                0 <= i < r@.len() ==> (#[trigger] r@[i]).pattern@ == candidates_spec(
                    texts(outputs@),
                    self.max_pattern_length as nat,
                    self.min_support as nat,
                )[i] && r@[i].supporting_examples@ == support_of(texts(outputs@), r@[i].pattern@),
    {
        let ghost outs = texts(outputs@);
        let ghost ml = self.max_pattern_length as nat;
        let ghost ms = self.min_support as nat;
        let all = all_candidate_patterns(outputs, self.max_pattern_length);
        let distinct = dedup_lowercase(&all);
        let mut lows: Vec<Vec<char>> = Vec::new();
        let mut i: usize = 0;
        while i < outputs.len()
            invariant
                i <= outputs@.len(),
                outs == texts(outputs@),
                lows@.len() == i,
                forall|k: int| 0 <= k < i ==> (#[trigger] lows@[k])@ == unicode_lowercase(outs[k]),
            decreases outputs@.len() - i,
        {
            let low = lowercase(outputs[i].as_str());
            lows.push(chars_of(low.as_str()));
            i = i + 1;
        }
        let ghost d = dedup_lower(all_patterns(outs, ml));
        let mut r: Vec<CandidatePattern> = Vec::new();
        let mut k: usize = 0;
        proof {
            reveal(Seq::filter);
        }
        assert(d.take(0) =~= Seq::<Seq<char>>::empty());
        assert(r@.map_values(|c: CandidatePattern| c.pattern@) =~= candidates_prefix(
            outs,
            ml,
            ms,
            0,
        ));
        while k < distinct.len()
            invariant
                k <= distinct@.len(),
                texts(distinct@) == d,
                d == dedup_lower(all_patterns(outs, ml)),
                outs == texts(outputs@),
                ml == self.max_pattern_length as nat,
                ms == self.min_support as nat,
                lows@.len() == outs.len(),
                forall|j: int| 0 <= j < outs.len() ==> (#[trigger] lows@[j])@ == unicode_lowercase(
                    outs[j],
                ),
                r@.map_values(|c: CandidatePattern| c.pattern@) == candidates_prefix(
                    outs,
                    ml,
                    ms,
                    k as int,
                ),
                forall|t: int|
                    0 <= t < r@.len() ==> (#[trigger] r@[t]).supporting_examples@ == support_of(
                        outs,
                        r@[t].pattern@,
                    ),
            decreases distinct@.len() - k,
        {
            let p = &distinct[k];
            assert(p@ == d[k as int]);
            let key = lowercase(p.as_str());
            let key_chars = chars_of(key.as_str());
            let sup = support_in(&lows, key_chars.as_slice(), Ghost(outs), Ghost(p@));
            proof {
                lemma_candidates_step(outs, ml, ms, k as int);
            }
            let ghost before = r@;
            if sup.len() >= self.min_support {
                let c = CandidatePattern { pattern: string_of(p.as_str()), supporting_examples: sup };
                r.push(c);
                assert(r@.map_values(|c: CandidatePattern| c.pattern@) =~= before.map_values(
                    |c: CandidatePattern| c.pattern@,
                ).push(d[k as int]));
            } else {
                assert(r@.map_values(|c: CandidatePattern| c.pattern@) =~= before.map_values(
                    |c: CandidatePattern| c.pattern@,
                ));
            }
            k = k + 1;
        }
        proof {
            let m = r@.map_values(|c: CandidatePattern| c.pattern@);
            assert forall|i: int| 0 <= i < r@.len() implies (#[trigger] r@[i]).pattern@
                == candidates_spec(outs, ml, ms)[i] by {
                assert(m[i] == r@[i].pattern@);
            }
        }
        r
    }
}

/// What `char::is_alphanumeric` returns for a character: whether it is
/// alphabetic or numeric in Unicode's sense.
pub uninterp spec fn unicode_alphanumeric(c: char) -> bool;

/// Calls `char::is_alphanumeric`; its result is named by
/// `unicode_alphanumeric`.
#[verifier::external_body]
fn is_alphanumeric(c: char) -> (b: bool)
    ensures
        b == unicode_alphanumeric(c),
{
    c.is_alphanumeric()
}

/// A word without its leading characters that are not alphanumeric.
pub open spec fn strip_leading_non_alnum(w: Seq<char>) -> Seq<char>
    decreases w.len(),
{
    if w.len() > 0 && !unicode_alphanumeric(w[0]) {
        strip_leading_non_alnum(w.drop_first())
    } else {
        w
    }
}

/// A word without its trailing characters that are not alphanumeric.
pub open spec fn strip_trailing_non_alnum(w: Seq<char>) -> Seq<char>
    decreases w.len(),
{
    if w.len() > 0 && !unicode_alphanumeric(w.last()) {
        strip_trailing_non_alnum(w.drop_last())
    } else {
        w
    }
}

/// The cleaned form of a word: without the characters that are not
/// alphanumeric at either end (`str::trim_matches`), in lower case.
pub open spec fn clean_word(w: Seq<char>) -> Seq<char> {
    unicode_lowercase(strip_trailing_non_alnum(strip_leading_non_alnum(w)))
}

/// The cleaned words of a list of words, kept when longer than `min_bytes`
/// bytes.
pub open spec fn cleaned(ws: Seq<Seq<char>>, min_bytes: nat) -> Seq<Seq<char>>
    decreases ws.len(),
{
    if ws.len() == 0 {
        Seq::empty()
    } else {
        cleaned(ws.drop_last(), min_bytes) + (if utf8_len(clean_word(ws.last())) > min_bytes {
            seq![clean_word(ws.last())]
        } else {
            Seq::empty()
        })
    }
}

/// The cleaned words of all outputs, output by output.
pub open spec fn cleaned_outputs(outputs: Seq<Seq<char>>, min_bytes: nat) -> Seq<Seq<char>>
    decreases outputs.len(),
{
    if outputs.len() == 0 {
        Seq::empty()
    } else {
        cleaned_outputs(outputs.drop_last(), min_bytes) + cleaned(
            words_of(outputs.last()),
            min_bytes,
        )
    }
}

/// How often a word occurs in a list.
pub open spec fn occurrences(ws: Seq<Seq<char>>, w: Seq<char>) -> nat
    decreases ws.len(),
{
    if ws.len() == 0 {
        0
    } else {
        occurrences(ws.drop_last(), w) + (if ws.last() == w {
            1nat
        } else {
            0nat
        })
    }
}

/// The distinct words of a list, in the order they first occur.
pub open spec fn first_occurrences(ws: Seq<Seq<char>>) -> Seq<Seq<char>>
    decreases ws.len(),
{
    if ws.len() == 0 {
        Seq::empty()
    } else if ws.drop_last().contains(ws.last()) {
        first_occurrences(ws.drop_last())
    } else {
        first_occurrences(ws.drop_last()).push(ws.last())
    }
}

/// The total number of characters of a list of texts.
pub open spec fn total_len(ts: Seq<Seq<char>>) -> nat
    decreases ts.len(),
{
    if ts.len() == 0 {
        0
    } else {
        total_len(ts.drop_last()) + ts.last().len()
    }
}

/// A word and how often it occurs.
#[derive(Debug, Clone)]
pub struct WordCount {
    pub word: String,
    pub count: usize,
}

/// Whether a list of word counts holds each distinct word of `ws` once, in
/// order of first occurrence, with the number of its occurrences.
pub open spec fn counts_of(r: Seq<WordCount>, ws: Seq<Seq<char>>) -> bool {
    &&& r.len() == first_occurrences(ws).len()
    &&& forall|i: int|
        0 <= i < r.len() ==> (#[trigger] r[i]).word@ == first_occurrences(ws)[i] && r[i].count
            == occurrences(ws, first_occurrences(ws)[i])
}

proof fn lemma_occurrences_bound(ws: Seq<Seq<char>>, w: Seq<char>)
    ensures
        occurrences(ws, w) <= ws.len(),
    decreases ws.len(),
{
    if ws.len() > 0 {
        lemma_occurrences_bound(ws.drop_last(), w);
    }
}

proof fn lemma_first_occurrences_contains(ws: Seq<Seq<char>>, w: Seq<char>)
    ensures
        first_occurrences(ws).contains(w) == ws.contains(w),
    decreases ws.len(),
{
    if ws.len() > 0 {
        let p = ws.drop_last();
        let n = ws.len() - 1;
        lemma_first_occurrences_contains(p, w);
        let f = first_occurrences(p);
        let fw = first_occurrences(ws);
        assert(ws.contains(w) == (p.contains(w) || ws[n] == w)) by {
            if ws.contains(w) {
                let j = choose|j: int| 0 <= j < ws.len() && ws[j] == w;
                if j < n {
                    assert(p[j] == w);
                }
            }
            if p.contains(w) {
                let j = choose|j: int| 0 <= j < p.len() && p[j] == w;
                assert(ws[j] == w);
            }
        }
        if p.contains(ws[n]) {
            assert(fw == f);
        } else {
            assert(fw == f.push(ws[n]));
            assert(fw.contains(w) == (f.contains(w) || ws[n] == w)) by {
                if fw.contains(w) {
                    let t = choose|t: int| 0 <= t < fw.len() && fw[t] == w;
                    if t < f.len() {
                        assert(fw[t] == f[t]);
                    }
                }
                if f.contains(w) {
                    let t = choose|t: int| 0 <= t < f.len() && f[t] == w;
                    assert(fw[t] == f[t]);
                }
                if ws[n] == w {
                    assert(fw[f.len() as int] == w);
                }
            }
        }
    }
}

/// Adds one occurrence of a word to the counts.
fn count_word(r: &mut Vec<WordCount>, w: String, Ghost(ws): Ghost<Seq<Seq<char>>>)
    requires
        counts_of(old(r)@, ws),
        ws.len() < usize::MAX,
    ensures
        counts_of(final(r)@, ws.push(w@)),
{
    let ghost nw = ws.push(w@);
    assert(nw.drop_last() =~= ws);
    assert(nw.last() == w@);
    proof {
        lemma_first_occurrences_contains(ws, w@);
    }
    let mut t: usize = 0;
    while t < r.len()
        invariant
            t <= r@.len(),
            counts_of(r@, ws),
            r@ == old(r)@,
            ws.len() < usize::MAX,
            nw == ws.push(w@),
            nw.drop_last() == ws,
            nw.last() == w@,
            first_occurrences(ws).contains(w@) == ws.contains(w@),
            forall|u: int| 0 <= u < t ==> (#[trigger] r@[u]).word@ != w@,
        decreases r@.len() - t,
    {
        if str_eq(r[t].word.as_str(), w.as_str()) {
            let ghost fo = first_occurrences(ws);
            assert(fo[t as int] == w@);
            assert(fo.contains(w@));
            assert(first_occurrences(nw) == fo);
            proof {
                lemma_occurrences_bound(ws, w@);
                assert forall|i: int| 0 <= i < fo.len() implies occurrences(nw, #[trigger] fo[i])
                    == occurrences(ws, fo[i]) + (if fo[i] == w@ {
                    1nat
                } else {
                    0nat
                }) by {}
                assert forall|i: int| 0 <= i < fo.len() && i != t implies fo[i] != w@ by {
                    if fo[i] == w@ {
                        // distinct words occur once among the first occurrences
                        lemma_first_occurrences_distinct(ws, i, t as int);
                    }
                }
            }
            let bumped = WordCount { word: string_of(r[t].word.as_str()), count: r[t].count + 1 };
            let ghost before = r@;
            r[t] = bumped;
            assert forall|i: int| 0 <= i < r@.len() implies (#[trigger] r@[i]).word@
                == first_occurrences(nw)[i] && r@[i].count == occurrences(
                nw,
                first_occurrences(nw)[i],
            ) by {
                if i != t {
                    assert(r@[i] == before[i]);
                }
            }
            return;
        }
        t = t + 1;
    }
    let ghost fo = first_occurrences(ws);
    assert(!fo.contains(w@)) by {
        if fo.contains(w@) {
            let i = choose|i: int| 0 <= i < fo.len() && fo[i] == w@;
            assert(r@[i].word@ == w@);
        }
    }
    assert(first_occurrences(nw) == fo.push(w@));
    proof {
        assert(!ws.contains(w@));
        lemma_occurrences_absent(ws, w@);
        assert forall|i: int| 0 <= i < fo.len() implies occurrences(nw, #[trigger] fo[i])
            == occurrences(ws, fo[i]) by {}
    }
    let ghost before = r@;
    r.push(WordCount { word: w, count: 1 });
    assert forall|i: int| 0 <= i < r@.len() implies (#[trigger] r@[i]).word@ == first_occurrences(
        nw,
    )[i] && r@[i].count == occurrences(nw, first_occurrences(nw)[i]) by {
        if i < before.len() {
            assert(r@[i] == before[i]);
        }
    }
}

/// A word that does not occur has no occurrences.
proof fn lemma_occurrences_absent(ws: Seq<Seq<char>>, w: Seq<char>)
    requires
        !ws.contains(w),
    ensures
        occurrences(ws, w) == 0,
    decreases ws.len(),
{
    if ws.len() > 0 {
        let p = ws.drop_last();
        assert(!p.contains(w)) by {
            if p.contains(w) {
                let j = choose|j: int| 0 <= j < p.len() && p[j] == w;
                assert(ws[j] == w);
            }
        }
        lemma_occurrences_absent(p, w);
    }
}

/// The first occurrences are distinct.
proof fn lemma_first_occurrences_distinct(ws: Seq<Seq<char>>, i: int, j: int)
    requires
        0 <= i < first_occurrences(ws).len(),
        0 <= j < first_occurrences(ws).len(),
        i != j,
    ensures
        first_occurrences(ws)[i] != first_occurrences(ws)[j],
    decreases ws.len(),
{
    if ws.len() > 0 {
        let p = ws.drop_last();
        let f = first_occurrences(p);
        if p.contains(ws.last()) {
            lemma_first_occurrences_distinct(p, i, j);
        } else {
            if i < f.len() && j < f.len() {
                lemma_first_occurrences_distinct(p, i, j);
            } else {
                lemma_first_occurrences_contains(p, ws.last());
                let k = if i < f.len() {
                    i
                } else {
                    j
                };
                assert(f[k] != ws.last()) by {
                    if f[k] == ws.last() {
                        assert(f.contains(ws.last()));
                    }
                }
            }
        }
    }
}

/// A suffix of a word that starts with a character that is not
/// alphanumeric strips to what the next suffix strips to.
proof fn lemma_strip_leading_non_alnum_step(w: Seq<char>, i: int)
    requires
        0 <= i < w.len(),
        !unicode_alphanumeric(w[i]),
    ensures
        strip_leading_non_alnum(w.subrange(i, w.len() as int)) == strip_leading_non_alnum(
            w.subrange(i + 1, w.len() as int),
        ),
{
    assert(w.subrange(i, w.len() as int).drop_first() =~= w.subrange(i + 1, w.len() as int));
}

/// The same for trailing characters.
proof fn lemma_strip_trailing_non_alnum_step(w: Seq<char>, j: int)
    requires
        0 < j <= w.len(),
        !unicode_alphanumeric(w[j - 1]),
    ensures
        strip_trailing_non_alnum(w.subrange(0, j)) == strip_trailing_non_alnum(
            w.subrange(0, j - 1),
        ),
{
    assert(w.subrange(0, j).drop_last() =~= w.subrange(0, j - 1));
}

/// The cleaned form of a word.
fn clean_word_exec(w: &[char]) -> (r: String)
    ensures
        r@ == clean_word(w@),
{
    let mut a: usize = 0;
    assert(w@.subrange(0, w@.len() as int) =~= w@);
    while a < w.len() && !is_alphanumeric(w[a])
        invariant
            a <= w@.len(),
            strip_leading_non_alnum(w@.subrange(a as int, w@.len() as int))
                == strip_leading_non_alnum(w@),
        decreases w@.len() - a,
    {
        proof {
            lemma_strip_leading_non_alnum_step(w@, a as int);
        }
        a = a + 1;
    }
    let ghost lead = w@.subrange(a as int, w@.len() as int);
    assert(strip_leading_non_alnum(lead) == lead);
    let mut b: usize = w.len();
    while b > a && !is_alphanumeric(w[b - 1])
        invariant
            a <= b <= w@.len(),
            lead == w@.subrange(a as int, w@.len() as int),
            strip_trailing_non_alnum(w@.subrange(a as int, b as int))
                == strip_trailing_non_alnum(lead),
        decreases b - a,
    {
        proof {
            let u = w@.subrange(a as int, b as int);
            lemma_strip_trailing_non_alnum_step(u, (b - a) as int);
            assert(u.subrange(0, (b - a) as int) =~= u);
            assert(u.subrange(0, (b - a - 1) as int) =~= w@.subrange(a as int, b - 1));
        }
        b = b - 1;
    }
    let ghost core = w@.subrange(a as int, b as int);
    assert(strip_trailing_non_alnum(core) == core);
    let mut t: Vec<char> = Vec::new();
    let mut k: usize = a;
    while k < b
        invariant
            a <= k <= b,
            b <= w@.len(),
            t@ == w@.subrange(a as int, k as int),
        decreases b - k,
    {
        t.push(w[k]);
        k = k + 1;
        assert(t@ =~= w@.subrange(a as int, k as int));
    }
    let trimmed = string_from_chars(t.as_slice());
    lowercase(trimmed.as_str())
}

/// A text has no more words than characters.
proof fn lemma_words_bound(s: Seq<char>, i: int, cur: Seq<char>)
    requires
        0 <= i <= s.len(),
    ensures
        words_from(s, i, cur).len() <= s.len() - i + (if cur.len() > 0 {
            1int
        } else {
            0int
        }),
    decreases s.len() - i,
{
    if i < s.len() {
        if is_ws(s[i]) {
            lemma_words_bound(s, i + 1, Seq::empty());
        } else {
            lemma_words_bound(s, i + 1, cur.push(s[i]));
        }
    }
}

/// The words of all outputs, cleaned and kept when longer than `min_bytes`
/// bytes, with how often each occurs: each distinct word once, in the order
/// it first occurs.
pub fn word_counts(outputs: &[String], min_bytes: usize) -> (r: Vec<WordCount>)
    requires
        total_len(texts(outputs@)) < usize::MAX,
    ensures
        counts_of(r@, cleaned_outputs(texts(outputs@), min_bytes as nat)),
{
    let ghost outs = texts(outputs@);
    let ghost mb = min_bytes as nat;
    let mut r: Vec<WordCount> = Vec::new();
    let mut i: usize = 0;
    assert(outs.take(0) =~= Seq::<Seq<char>>::empty());
    while i < outputs.len()
        invariant
            i <= outputs@.len(),
            outs == texts(outputs@),
            mb == min_bytes as nat,
            total_len(outs) < usize::MAX,
            total_len(outs.take(i as int)) <= total_len(outs),
            counts_of(r@, cleaned_outputs(outs.take(i as int), mb)),
            cleaned_outputs(outs.take(i as int), mb).len() <= total_len(outs.take(i as int)),
        decreases outputs@.len() - i,
    {
        let text = chars_of(outputs[i].as_str());
        let words = split_words(text.as_slice());
        let ghost ts = outs.take(i + 1);
        proof {
            lemma_words_bound(text@, 0, Seq::empty());
            assert(ts.drop_last() =~= outs.take(i as int));
            assert(ts.last() == text@);
            lemma_total_len_prefix(outs, i + 1);
        }
        let ghost base = cleaned_outputs(outs.take(i as int), mb);
        let ghost ws = rows(words@);
        let mut k: usize = 0;
        assert(ws.take(0) =~= Seq::<Seq<char>>::empty());
        assert(base + cleaned(ws.take(0), mb) =~= base);
        while k < words.len()
            invariant
                k <= words@.len(),
                ws == rows(words@),
                ws.len() <= text@.len(),
                total_len(outs.take(i as int)) + text@.len() <= total_len(outs),
                total_len(outs) < usize::MAX,
                mb == min_bytes as nat,
                base.len() <= total_len(outs.take(i as int)),
                counts_of(r@, base + cleaned(ws.take(k as int), mb)),
                (base + cleaned(ws.take(k as int), mb)).len() <= base.len() + k,
            decreases words@.len() - k,
        {
            let cw = clean_word_exec(words[k].as_slice());
            let ghost prefix = base + cleaned(ws.take(k as int), mb);
            proof {
                let t = ws.take(k + 1);
                assert(t.drop_last() =~= ws.take(k as int));
                assert(t.last() == words@[k as int]@);
            }
            if cw.as_str().as_bytes().len() > min_bytes {
                let ghost w = cw@;
                count_word(&mut r, cw, Ghost(prefix));
                assert(base + cleaned(ws.take(k + 1), mb) =~= prefix.push(w));
            } else {
                assert(base + cleaned(ws.take(k + 1), mb) =~= prefix);
            }
            k = k + 1;
        }
        assert(ws.take(k as int) =~= ws);
        assert(cleaned_outputs(ts, mb) =~= base + cleaned(ws, mb));
        i = i + 1;
    }
    assert(outs.take(i as int) =~= outs);
    r
}

/// The total length of a prefix grows by the next text and never exceeds
/// the whole.
proof fn lemma_total_len_prefix(ts: Seq<Seq<char>>, k: int)
    requires
        0 < k <= ts.len(),
    ensures
        total_len(ts.take(k)) == total_len(ts.take(k - 1)) + ts[k - 1].len(),
        total_len(ts.take(k)) <= total_len(ts),
    decreases ts.len() - k,
{
    assert(ts.take(k).drop_last() =~= ts.take(k - 1));
    if k < ts.len() {
        lemma_total_len_prefix(ts, k + 1);
    } else {
        assert(ts.take(k) =~= ts);
    }
}

/// The words of `ws`, each once in order of first occurrence, that occur at
/// least `threshold` times.
pub open spec fn frequent_words(ws: Seq<Seq<char>>, threshold: nat) -> Seq<Seq<char>> {
    first_occurrences(ws).filter(|w: Seq<char>| occurrences(ws, w) >= threshold)
}

impl HypothesisGenerator {
    /// The words a generalisation over more examples keeps: the cleaned
    /// words of their outputs (see `clean_word`) that are not empty and occur
    /// at least half as many times (rounded down) as there are outputs, each
    /// once, in the order they first occur.
    pub fn generalized_words(&self, outputs: &[String]) -> (r: Vec<String>)
        requires
            total_len(texts(outputs@)) < usize::MAX,
        ensures
            texts(r@) == frequent_words(
                cleaned_outputs(texts(outputs@), 0),
                (outputs@.len() / 2) as nat,
            ),
    {
        let counts = word_counts(outputs, 0);
        let threshold = outputs.len() / 2;
        let ghost c = cleaned_outputs(texts(outputs@), 0);
        let ghost f = first_occurrences(c);
        let ghost th = threshold as nat;
        let mut r: Vec<String> = Vec::new();
        let mut i: usize = 0;
        proof {
            reveal(Seq::filter);
        }
        assert(f.take(0) =~= Seq::<Seq<char>>::empty());
        while i < counts.len()
            invariant
                i <= counts@.len(),
                counts_of(counts@, c),
                f == first_occurrences(c),
                th == threshold as nat,
                texts(r@) == f.take(i as int).filter(|w: Seq<char>| occurrences(c, w) >= th),
            decreases counts@.len() - i,
        {
            let ghost before = texts(r@);
            proof {
                reveal(Seq::filter);
                let t = f.take(i + 1);
                assert(t.drop_last() =~= f.take(i as int));
                assert(t.last() == counts@[i as int].word@);
            }
            if counts[i].count >= threshold {
                push_text(&mut r, counts[i].word.as_str());
            }
            proof {
                reveal(Seq::filter);
            }
            assert(texts(r@) =~= f.take(i + 1).filter(|w: Seq<char>| occurrences(c, w) >= th));
            i = i + 1;
        }
        assert(f.take(i as int) =~= f);
        r
    }
}

/// No two patterns left after dropping repeats are equal ignoring case.
pub proof fn law_dedup_distinct_ignoring_case(ps: Seq<Seq<char>>, i: int, j: int)
    requires
        0 <= i < j < dedup_lower(ps).len(),
    ensures
        unicode_lowercase(dedup_lower(ps)[i]) != unicode_lowercase(dedup_lower(ps)[j]),
    decreases ps.len(),
{
    let p = ps.drop_last();
    let d = dedup_lower(p);
    if seen_before(ps, ps.len() - 1) {
        law_dedup_distinct_ignoring_case(p, i, j);
    } else if j < d.len() {
        law_dedup_distinct_ignoring_case(p, i, j);
    } else {
        // the last pattern was not seen before, so no kept one shares its form
        lemma_dedup_keys(p, unicode_lowercase(ps.last()));
        if unicode_lowercase(d[i]) == unicode_lowercase(ps.last()) {
            assert(lowered_has(d, unicode_lowercase(ps.last())));
            let k = choose|k: int|
                0 <= k < p.len() && unicode_lowercase(#[trigger] p[k]) == unicode_lowercase(
                    ps.last(),
                );
            assert(ps[k] == p[k]);
        }
    }
}

/// Every candidate pattern has at least `min_support` supporting examples.
pub proof fn law_candidates_well_supported(
    outputs: Seq<Seq<char>>,
    max_len: nat,
    min_support: nat,
    i: int,
)
    requires
        0 <= i < candidates_spec(outputs, max_len, min_support).len(),
    ensures
        support_of(outputs, candidates_spec(outputs, max_len, min_support)[i]).len()
            >= min_support,
{
    let d = dedup_lower(all_patterns(outputs, max_len));
    d.take(d.len() as int).lemma_filter_pred(
        |p: Seq<char>| well_supported(outputs, min_support, p),
        i,
    );
}


proof fn lemma_strip_leading_at(w: Seq<char>, i: int)
    requires
        0 <= i <= w.len(),
        forall|k: int| 0 <= k < i ==> !unicode_alphanumeric(#[trigger] w[k]),
        i < w.len() ==> unicode_alphanumeric(w[i]),
    ensures
        strip_leading_non_alnum(w) == w.subrange(i, w.len() as int),
    decreases i,
{
    if i == 0 {
        assert(w.subrange(0, w.len() as int) =~= w);
    } else {
        let d = w.drop_first();
        assert forall|k: int| 0 <= k < i - 1 implies !unicode_alphanumeric(#[trigger] d[k]) by {
            assert(d[k] == w[k + 1]);
        }
        if i - 1 < d.len() {
            assert(d[i - 1] == w[i]);
        }
        lemma_strip_leading_at(d, i - 1);
        assert(d.subrange(i - 1, d.len() as int) =~= w.subrange(i, w.len() as int));
    }
}

proof fn lemma_strip_trailing_at(w: Seq<char>, j: int)
    requires
        0 <= j <= w.len(),
        forall|k: int| j <= k < w.len() ==> !unicode_alphanumeric(#[trigger] w[k]),
        j > 0 ==> unicode_alphanumeric(w[j - 1]),
    ensures
        strip_trailing_non_alnum(w) == w.subrange(0, j),
    decreases w.len() - j,
{
    if j == w.len() {
        assert(w.subrange(0, j) =~= w);
    } else {
        let d = w.drop_last();
        assert forall|k: int| j <= k < d.len() implies !unicode_alphanumeric(#[trigger] d[k]) by {
            assert(d[k] == w[k]);
        }
        if j > 0 {
            assert(d[j - 1] == w[j - 1]);
        }
        assert(!unicode_alphanumeric(w[w.len() - 1]));
        lemma_strip_trailing_at(d, j);
        assert(d.subrange(0, j) =~= w.subrange(0, j));
    }
}

/// A word's cleaned form is its core in lower case: the part from its first
/// alphanumeric character to its last, with everything that is not
/// alphanumeric dropped from both ends (nothing is left of a word with no
/// alphanumeric character). Whatever characters that are not alphanumeric
/// surround the core, the cleaned form is the same.
pub proof fn law_clean_word_is_the_lowercase_core(w: Seq<char>, i: int, j: int)
    requires
        0 <= i <= j <= w.len(),
        forall|k: int| 0 <= k < i ==> !unicode_alphanumeric(#[trigger] w[k]),
        forall|k: int| j <= k < w.len() ==> !unicode_alphanumeric(#[trigger] w[k]),
        i < j ==> unicode_alphanumeric(w[i]) && unicode_alphanumeric(w[j - 1]),
    ensures
        clean_word(w) == unicode_lowercase(w.subrange(i, j)),
{
    if i < j {
        lemma_strip_leading_at(w, i);
        let u = w.subrange(i, w.len() as int);
        assert forall|k: int| j - i <= k < u.len() implies !unicode_alphanumeric(#[trigger] u[k]) by {
            assert(u[k] == w[k + i]);
        }
        assert(u[j - i - 1] == w[j - 1]);
        lemma_strip_trailing_at(u, j - i);
        assert(u.subrange(0, j - i) =~= w.subrange(i, j));
    } else {
        assert forall|k: int| 0 <= k < w.len() implies !unicode_alphanumeric(#[trigger] w[k]) by {
            if k >= i {
                assert(j <= k);
            }
        }
        lemma_strip_leading_at(w, w.len() as int);
        let u = w.subrange(w.len() as int, w.len() as int);
        assert(u.len() == 0);
        assert(strip_trailing_non_alnum(u) == u);
        assert(u =~= w.subrange(i, j));
    }
}

/// Characters that are not alphanumeric added around a word do not change
/// its cleaned form.
pub proof fn law_clean_word_ignores_padding(p: Seq<char>, w: Seq<char>, s: Seq<char>, i: int, j: int)
    requires
        forall|k: int| 0 <= k < p.len() ==> !unicode_alphanumeric(#[trigger] p[k]),
        forall|k: int| 0 <= k < s.len() ==> !unicode_alphanumeric(#[trigger] s[k]),
        0 <= i <= j <= w.len(),
        forall|k: int| 0 <= k < i ==> !unicode_alphanumeric(#[trigger] w[k]),
        forall|k: int| j <= k < w.len() ==> !unicode_alphanumeric(#[trigger] w[k]),
        i < j ==> unicode_alphanumeric(w[i]) && unicode_alphanumeric(w[j - 1]),
    ensures
        clean_word(p + w + s) == clean_word(w),
{
    let x = p + w + s;
    let pl = p.len() as int;
    assert forall|k: int| 0 <= k < pl + i implies !unicode_alphanumeric(#[trigger] x[k]) by {
        if k < pl {
            assert(x[k] == p[k]);
        } else {
            assert(x[k] == w[k - pl]);
        }
    }
    assert forall|k: int| pl + j <= k < x.len() implies !unicode_alphanumeric(#[trigger] x[k]) by {
        if k < pl + w.len() {
            assert(x[k] == w[k - pl]);
        } else {
            assert(x[k] == s[k - pl - w.len()]);
        }
    }
    if i < j {
        assert(x[pl + i] == w[i]);
        assert(x[pl + j - 1] == w[j - 1]);
    }
    law_clean_word_is_the_lowercase_core(x, pl + i, pl + j);
    law_clean_word_is_the_lowercase_core(w, i, j);
    assert(x.subrange(pl + i, pl + j) =~= w.subrange(i, j));
}


/// The cleaned words of a list are exactly the cleaned forms longer than
/// the byte limit, in order: every word kept is longer than the limit and is
/// the cleaned form of a word of the list, and the cleaned form of every word
/// of the list that is longer than the limit is kept.
pub proof fn law_cleaned_keeps_the_long_cleaned_words(ws: Seq<Seq<char>>, min_bytes: nat)
    ensures
        forall|k: int|
            0 <= k < cleaned(ws, min_bytes).len() ==> utf8_len(#[trigger] cleaned(ws, min_bytes)[k])
                > min_bytes && exists|i: int| 0 <= i < ws.len() && clean_word(ws[i]) == cleaned(ws, min_bytes)[k],
        forall|i: int|
            0 <= i < ws.len() && utf8_len(clean_word(#[trigger] ws[i])) > min_bytes ==> cleaned(
                ws,
                min_bytes,
            ).contains(clean_word(ws[i])),
        cleaned(ws, min_bytes).len() <= ws.len(),
    decreases ws.len(),
{
    if ws.len() > 0 {
        let d = ws.drop_last();
        law_cleaned_keeps_the_long_cleaned_words(d, min_bytes);
        let prev = cleaned(d, min_bytes);
        let cur = cleaned(ws, min_bytes);
        let tail = if utf8_len(clean_word(ws.last())) > min_bytes {
            seq![clean_word(ws.last())]
        } else {
            Seq::<Seq<char>>::empty()
        };
        assert(cur == prev + tail);
        assert forall|k: int| 0 <= k < cur.len() implies utf8_len(#[trigger] cur[k]) > min_bytes
            && exists|i: int| 0 <= i < ws.len() && clean_word(ws[i]) == cur[k] by {
            if k < prev.len() {
                assert(cur[k] == prev[k]);
                let i = choose|i: int| 0 <= i < d.len() && clean_word(d[i]) == prev[k];
                assert(ws[i] == d[i]);
            } else {
                assert(cur[k] == tail[k - prev.len()]);
                assert(ws[ws.len() - 1] == ws.last());
            }
        }
        assert forall|i: int|
            0 <= i < ws.len() && utf8_len(clean_word(#[trigger] ws[i])) > min_bytes implies cur.contains(
            clean_word(ws[i]),
        ) by {
            if i < ws.len() - 1 {
                assert(d[i] == ws[i]);
                assert(prev.contains(clean_word(d[i])));
                let k = choose|k: int| 0 <= k < prev.len() && prev[k] == clean_word(d[i]);
                assert(cur[k] == prev[k]);
            } else {
                assert(cur[prev.len() as int] == tail[0]);
            }
        }
    }
}

} // verus!
