//! Few-shot learning: hypothesis identifiers, the pattern a domain's
//! examples share, and how two patterns' words overlap.
pub mod hypothesis;

use vstd::prelude::*;
use crate::learning::hypothesis::{
    cleaned_outputs, first_occurrences, occurrences, rows, split_words, total_len, word_counts,
    words_of, WordCount,
};
use crate::text::{
    chars_equal, chars_of, concat3, contains_chars, contains_seq, lowercase, string_of, texts,
    unicode_lowercase,
};

verus! {

/// The identifier of a hypothesis: a random 64-bit value.
#[derive(Debug, Clone, Copy, PartialEq, Eq, Hash, Structural)]
pub struct HypothesisId(u64);

/// Calls `rand::random::<u64>()`: a value drawn from the thread-local
/// generator. Nothing is stated of it: it is chance.
#[verifier::external_body]
fn random_u64() -> u64 {
    rand::random::<u64>()
}

impl HypothesisId {
    /// A fresh identifier, drawn at random.
    pub fn new() -> (id: HypothesisId) {
        HypothesisId(random_u64())
    }
}

/// Whether position `i` of the distinct words of `ws` holds the first of the
/// most frequent ones.
pub open spec fn is_top(ws: Seq<Seq<char>>, i: int) -> bool {
    let f = first_occurrences(ws);
    &&& 0 <= i < f.len()
    &&& forall|j: int| 0 <= j < f.len() ==> occurrences(ws, #[trigger] f[j]) <= occurrences(ws, f[i])
    &&& forall|j: int| 0 <= j < i ==> occurrences(ws, #[trigger] f[j]) < occurrences(ws, f[i])
}

/// Whether position `i` holds the first of the most frequent distinct words
/// but the one at `top`: the second place in an order by frequency, highest
/// first, that keeps ties in order of first occurrence.
pub open spec fn is_runner_up(ws: Seq<Seq<char>>, top: int, i: int) -> bool {
    let f = first_occurrences(ws);
    &&& 0 <= i < f.len()
    &&& i != top
    &&& forall|j: int|
        0 <= j < f.len() && j != top ==> occurrences(ws, #[trigger] f[j]) <= occurrences(ws, f[i])
    &&& forall|j: int|
        0 <= j < i && j != top ==> occurrences(ws, #[trigger] f[j]) < occurrences(ws, f[i])
}

/// The first position of a highest count, skipping `skip` when it is a position.
fn first_highest(counts: &Vec<WordCount>, skip: usize) -> (r: usize)
    requires
        counts@.len() >= 1,
        skip < counts@.len() ==> counts@.len() >= 2,
    ensures
        r < counts@.len(),
        r != skip,
        forall|j: int|
            0 <= j < counts@.len() && j != skip ==> (#[trigger] counts@[j]).count
                <= counts@[r as int].count,
        forall|j: int| 0 <= j < r && j != skip ==> (#[trigger] counts@[j]).count < counts@[r as int].count,
{
    let mut best: usize = if skip == 0 {
        1
    } else {
        0
    };
    let mut i: usize = best + 1;
    while i < counts.len()
        invariant
            best < counts@.len(),
            best != skip,
            best < i <= counts@.len(),
            skip < counts@.len() ==> counts@.len() >= 2,
            forall|j: int| 0 <= j < i && j != skip ==> (#[trigger] counts@[j]).count <= counts@[best as int].count,
            forall|j: int| 0 <= j < best && j != skip ==> (#[trigger] counts@[j]).count < counts@[best as int].count,
        decreases counts@.len() - i,
    {
        if i != skip && counts[i].count > counts[best].count {
            best = i;
        }
        i = i + 1;
    }
    best
}

/// The pattern the few-shot learner forms from a domain's outputs: their
/// cleaned words (see `clean_word`) longer than two bytes, counted; the two
/// most frequent joined as "first + second", ties going to the word that
/// occurs first; the only word when there is one; "unknown" when there is
/// none.
pub fn common_pattern(outputs: &[String]) -> (r: String)
    requires
        total_len(texts(outputs@)) < usize::MAX,
    ensures
        ({
            let ws = cleaned_outputs(texts(outputs@), 2);
            let f = first_occurrences(ws);
            &&& f.len() == 0 ==> r@ == "unknown"@
            &&& f.len() == 1 ==> r@ == f[0]
            &&& f.len() >= 2 ==> exists|a: int, b: int|
                is_top(ws, a) && is_runner_up(ws, a, b) && r@ == f[a] + " + "@ + f[b]
        }),
{
    let counts = word_counts(outputs, 2);
    let ghost ws = cleaned_outputs(texts(outputs@), 2);
    let ghost f = first_occurrences(ws);
    if counts.len() == 0 {
        return string_of("unknown");
    }
    if counts.len() == 1 {
        return string_of(counts[0].word.as_str());
    }
    let a = first_highest(&counts, counts.len());
    let b = first_highest(&counts, a);
    assert(is_top(ws, a as int)) by {
        assert forall|j: int| 0 <= j < f.len() implies occurrences(ws, #[trigger] f[j])
            <= occurrences(ws, f[a as int]) by {
            assert(counts@[j].count == occurrences(ws, f[j]));
        }
        assert forall|j: int| 0 <= j < a implies occurrences(ws, #[trigger] f[j]) < occurrences(
            ws,
            f[a as int],
        ) by {
            assert(counts@[j].count == occurrences(ws, f[j]));
        }
    }
    assert(is_runner_up(ws, a as int, b as int)) by {
        assert forall|j: int| 0 <= j < f.len() && j != a implies occurrences(ws, #[trigger] f[j])
            <= occurrences(ws, f[b as int]) by {
            assert(counts@[j].count == occurrences(ws, f[j]));
        }
        assert forall|j: int| 0 <= j < b && j != a implies occurrences(ws, #[trigger] f[j])
            < occurrences(ws, f[b as int]) by {
            assert(counts@[j].count == occurrences(ws, f[j]));
        }
    }
    let r = concat3(counts[a].word.as_str(), " + ", counts[b].word.as_str());
    assert(r@ == f[a as int] + " + "@ + f[b as int]);
    r
}

/// Whether a text contains a pattern, both taken in lower case.
pub fn contains_ignoring_case(text: &str, pattern: &str) -> (b: bool)
    ensures
        b == contains_seq(unicode_lowercase(text@), unicode_lowercase(pattern@)),
{
    let t = lowercase(text);
    let p = lowercase(pattern);
    let tc = chars_of(t.as_str());
    let pc = chars_of(p.as_str());
    contains_chars(tc.as_slice(), pc.as_slice())
}

/// How many words of `a`, counted with repeats, occur among the words of `b`.
pub open spec fn shared_words(a: Seq<Seq<char>>, b: Seq<Seq<char>>) -> nat
    decreases a.len(),
{
    if a.len() == 0 {
        0
    } else {
        shared_words(a.drop_last(), b) + (if b.contains(a.last()) {
            1nat
        } else {
            0nat
        })
    }
}

/// The overlap of two patterns' whitespace-separated words: how many words
/// of the first occur among those of the second, and the larger word count.
pub fn word_overlap(first: &str, second: &str) -> (r: (usize, usize))
    ensures
        r.0 == shared_words(words_of(first@), words_of(second@)),
        r.1 == if words_of(first@).len() >= words_of(second@).len() {
            words_of(first@).len()
        } else {
            words_of(second@).len()
        },
{
    let fc = chars_of(first);
    let sc = chars_of(second);
    let a = split_words(fc.as_slice());
    let b = split_words(sc.as_slice());
    let ghost wa = rows(a@);
    let ghost wb = rows(b@);
    let mut shared: usize = 0;
    let mut i: usize = 0;
    assert(wa.take(0) =~= Seq::<Seq<char>>::empty());
    while i < a.len()
        invariant
            i <= a@.len(),
            wa == rows(a@),
            wb == rows(b@),
            shared == shared_words(wa.take(i as int), wb),
            shared <= i,
        decreases a@.len() - i,
    {
        let mut found = false;
        let mut j: usize = 0;
        while j < b.len() && !found
            invariant
                i < a@.len(),
                j <= b@.len(),
                wb == rows(b@),
                found ==> wb.contains(a@[i as int]@),
                !found ==> forall|k: int| 0 <= k < j ==> (#[trigger] wb[k]) != a@[i as int]@,
            decreases b@.len() - j + (if found {
                0int
            } else {
                1int
            }),
        {
            if chars_equal(b[j].as_slice(), a[i].as_slice()) {
                assert(wb[j as int] == a@[i as int]@);
                found = true;
            } else {
                j = j + 1;
            }
        }
        proof {
            let t = wa.take(i + 1);
            assert(t.drop_last() =~= wa.take(i as int));
            assert(t.last() == a@[i as int]@);
            if !found {
                assert(!wb.contains(a@[i as int]@)) by {
                    if wb.contains(a@[i as int]@) {
                        let k = choose|k: int| 0 <= k < wb.len() && wb[k] == a@[i as int]@;
                        assert(wb[k] != a@[i as int]@);
                    }
                }
            }
        }
        if found {
            shared = shared + 1;
        }
        i = i + 1;
    }
    assert(wa.take(i as int) =~= wa);
    let longest = if a.len() >= b.len() {
        a.len()
    } else {
        b.len()
    };
    (shared, longest)
}

} // verus!
