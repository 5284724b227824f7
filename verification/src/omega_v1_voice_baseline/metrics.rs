//! Tokens and sentences of voice outputs, which the baseline metrics count.
use vstd::prelude::*;
use crate::text::{
    first_non_ws_from, is_ws, last_non_ws_before, lemma_first_non_ws_bounds,
    lemma_last_non_ws_bounds, push_string, string_from_chars, texts, trim_chars, trim_seq,
};

verus! {

broadcast use vstd::string::group_string_axioms;

/// An ASCII letter or digit.
pub open spec fn is_ascii_alnum(c: char) -> bool {
    ('a' <= c && c <= 'z') || ('A' <= c && c <= 'Z') || ('0' <= c && c <= '9')
}

/// A character as the tokenizer sees it: an ASCII letter or digit in lower
/// case, an apostrophe as itself, anything else as a space.
pub open spec fn token_char(c: char) -> char {
    if 'A' <= c && c <= 'Z' {
        ((c as u32) + 32) as char
    } else if is_ascii_alnum(c) || c == '\'' {
        c
    } else {
        ' '
    }
}

/// A word without its leading apostrophes.
pub open spec fn strip_leading_apostrophes(w: Seq<char>) -> Seq<char>
    decreases w.len(),
{
    if w.len() > 0 && w[0] == '\'' {
        strip_leading_apostrophes(w.drop_first())
    } else {
        w
    }
}

/// A word without its trailing apostrophes.
pub open spec fn strip_trailing_apostrophes(w: Seq<char>) -> Seq<char>
    decreases w.len(),
{
    if w.len() > 0 && w.last() == '\'' {
        strip_trailing_apostrophes(w.drop_last())
    } else {
        w
    }
}

/// A word without leading and trailing apostrophes.
pub open spec fn trim_apostrophes(w: Seq<char>) -> Seq<char> {
    strip_trailing_apostrophes(strip_leading_apostrophes(w))
}

/// The token a word gives: none when only apostrophes are left.
pub open spec fn word_token(w: Seq<char>) -> Seq<Seq<char>> {
    if trim_apostrophes(w).len() > 0 {
        seq![trim_apostrophes(w)]
    } else {
        Seq::empty()
    }
}

/// The tokens of `s` from position `i` on, with `cur` the part of the word
/// in progress read so far: words are the maximal runs of characters that
/// are not spaces once each character is seen as the tokenizer sees it.
pub open spec fn tokens_from(s: Seq<char>, i: int, cur: Seq<char>) -> Seq<Seq<char>>
    decreases s.len() - i,
{
    if i >= s.len() {
        word_token(cur)
    } else if token_char(s[i]) == ' ' {
        word_token(cur) + tokens_from(s, i + 1, Seq::empty())
    } else {
        tokens_from(s, i + 1, cur.push(token_char(s[i])))
    }
}

/// The tokens of a text: lowercase ASCII words of letters, digits and inner
/// apostrophes.
pub open spec fn tokens_spec(s: Seq<char>) -> Seq<Seq<char>> {
    tokens_from(s, 0, Seq::empty())
}

/// A character as the tokenizer sees it.
fn token_char_exec(c: char) -> (r: char)
    ensures
        r == token_char(c),
{
    if 'A' <= c && c <= 'Z' {
        let b = (c as u8) + 32;
        b as char
    } else if ('a' <= c && c <= 'z') || ('0' <= c && c <= '9') || c == '\'' {
        c
    } else {
        ' '
    }
}

/// Stripping leading apostrophes from a suffix of a word that starts with
/// apostrophes up to `i` gives the same as stripping them from the word.
proof fn lemma_strip_leading_step(w: Seq<char>, i: int)
    requires
        0 <= i < w.len(),
        w[i] == '\'',
    ensures
        strip_leading_apostrophes(w.subrange(i, w.len() as int)) == strip_leading_apostrophes(
            w.subrange(i + 1, w.len() as int),
        ),
{
    assert(w.subrange(i, w.len() as int).drop_first() =~= w.subrange(i + 1, w.len() as int));
}

/// The same for trailing apostrophes.
proof fn lemma_strip_trailing_step(w: Seq<char>, j: int)
    requires
        0 < j <= w.len(),
        w[j - 1] == '\'',
    ensures
        strip_trailing_apostrophes(w.subrange(0, j)) == strip_trailing_apostrophes(
            w.subrange(0, j - 1),
        ),
{
    assert(w.subrange(0, j).drop_last() =~= w.subrange(0, j - 1));
}

/// A word without leading and trailing apostrophes.
fn trim_apostrophes_exec(w: &[char]) -> (r: Vec<char>)
    ensures
        r@ == trim_apostrophes(w@),
{
    let mut a: usize = 0;
    assert(w@.subrange(0, w@.len() as int) =~= w@);
    while a < w.len() && w[a] == '\''
        invariant
            a <= w@.len(),
            strip_leading_apostrophes(w@.subrange(a as int, w@.len() as int))
                == strip_leading_apostrophes(w@),
        decreases w@.len() - a,
    {
        proof {
            lemma_strip_leading_step(w@, a as int);
        }
        a = a + 1;
    }
    let ghost lead = w@.subrange(a as int, w@.len() as int);
    assert(strip_leading_apostrophes(lead) == lead);
    let mut b: usize = w.len();
    while b > a && w[b - 1] == '\''
        invariant
            a <= b <= w@.len(),
            lead == w@.subrange(a as int, w@.len() as int),
            strip_trailing_apostrophes(w@.subrange(a as int, b as int))
                == strip_trailing_apostrophes(lead),
        decreases b - a,
    {
        proof {
            let u = w@.subrange(a as int, b as int);
            lemma_strip_trailing_step(u, (b - a) as int);
            assert(u.subrange(0, (b - a) as int) =~= u);
            assert(u.subrange(0, (b - a - 1) as int) =~= w@.subrange(a as int, b - 1));
        }
        b = b - 1;
    }
    let ghost core = w@.subrange(a as int, b as int);
    assert(strip_trailing_apostrophes(core) == core);
    let mut r: Vec<char> = Vec::new();
    let mut k: usize = a;
    while k < b
        invariant
            a <= k <= b,
            b <= w@.len(),
            r@ == w@.subrange(a as int, k as int),
        decreases b - k,
    {
        r.push(w[k]);
        k = k + 1;
        assert(r@ =~= w@.subrange(a as int, k as int));
    }
    r
}

/// Appends the token a word gives, if any.
fn emit_word(out: &mut Vec<String>, cur: &[char])
    ensures
        texts(final(out)@) == texts(old(out)@) + word_token(cur@),
{
    let t = trim_apostrophes_exec(cur);
    if t.len() > 0 {
        let s = string_from_chars(t.as_slice());
        push_string(out, s);
        assert(texts(out@) =~= texts(old(out)@) + word_token(cur@));
    } else {
        assert(texts(out@) =~= texts(old(out)@) + word_token(cur@));
    }
}

/// The tokens of a text: each ASCII letter or digit in lower case, each
/// apostrophe kept and every other character a separator; then each word
/// loses its leading and trailing apostrophes, and empty words are dropped.
pub fn tokenize(text: &str) -> (r: Vec<String>)
    ensures
        texts(r@) == tokens_spec(text@),
{
    let s = crate::text::chars_of(text);
    let mut out: Vec<String> = Vec::new();
    let mut cur: Vec<char> = Vec::new();
    let mut i: usize = 0;
    while i < s.len()
        invariant
            i <= s@.len(),
            s@ == text@,
            texts(out@) + tokens_from(s@, i as int, cur@) == tokens_spec(text@),
        decreases s@.len() - i,
    {
        let c = token_char_exec(s[i]);
        if c == ' ' {
            let ghost before = texts(out@);
            emit_word(&mut out, cur.as_slice());
            proof {
                assert(texts(out@) + tokens_from(s@, i + 1, Seq::empty()) =~= before + (
                word_token(cur@) + tokens_from(s@, i + 1, Seq::empty())));
            }
            cur = Vec::new();
        } else {
            cur.push(c);
        }
        i = i + 1;
    }
    let ghost before = texts(out@);
    emit_word(&mut out, cur.as_slice());
    out
}

/// Whether a character ends a sentence.
pub open spec fn is_terminator(c: char) -> bool {
    c == '.' || c == '?' || c == '!'
}

/// The sentence a piece gives: its trimmed text, if any is left.
pub open spec fn piece_sentence(p: Seq<char>) -> Seq<Seq<char>> {
    if trim_seq(p).len() > 0 {
        seq![trim_seq(p)]
    } else {
        Seq::empty()
    }
}

/// The sentences of `s` from position `i` on, with `cur` the piece read so
/// far: pieces end at `.`, `?` and `!`.
pub open spec fn sentences_from(s: Seq<char>, i: int, cur: Seq<char>) -> Seq<Seq<char>>
    decreases s.len() - i,
{
    if i >= s.len() {
        piece_sentence(cur)
    } else if is_terminator(s[i]) {
        piece_sentence(cur) + sentences_from(s, i + 1, Seq::empty())
    } else {
        sentences_from(s, i + 1, cur.push(s[i]))
    }
}

/// The sentences of a text.
pub open spec fn sentences_spec(s: Seq<char>) -> Seq<Seq<char>> {
    sentences_from(s, 0, Seq::empty())
}

/// Appends the sentence a piece gives, if any.
fn emit_piece(out: &mut Vec<String>, cur: &[char])
    ensures
        texts(final(out)@) == texts(old(out)@) + piece_sentence(cur@),
{
    let t = trim_chars(cur);
    if t.len() > 0 {
        let s = string_from_chars(t.as_slice());
        push_string(out, s);
        assert(texts(out@) =~= texts(old(out)@) + piece_sentence(cur@));
    } else {
        assert(texts(out@) =~= texts(old(out)@) + piece_sentence(cur@));
    }
}

/// The sentences of a text: the pieces between `.`, `?` and `!`, trimmed of
/// whitespace, the empty ones dropped.
pub fn sentences(text: &str) -> (r: Vec<String>)
    ensures
        texts(r@) == sentences_spec(text@),
{
    let s = crate::text::chars_of(text);
    let mut out: Vec<String> = Vec::new();
    let mut cur: Vec<char> = Vec::new();
    let mut i: usize = 0;
    while i < s.len()
        invariant
            i <= s@.len(),
            s@ == text@,
            texts(out@) + sentences_from(s@, i as int, cur@) == sentences_spec(text@),
        decreases s@.len() - i,
    {
        let c = s[i];
        if c == '.' || c == '?' || c == '!' {
            let ghost before = texts(out@);
            emit_piece(&mut out, cur.as_slice());
            proof {
                assert(texts(out@) + sentences_from(s@, i + 1, Seq::empty()) =~= before + (
                piece_sentence(cur@) + sentences_from(s@, i + 1, Seq::empty())));
            }
            cur = Vec::new();
        } else {
            cur.push(c);
        }
        i = i + 1;
    }
    emit_piece(&mut out, cur.as_slice());
    out
}


/// A character a token may hold: a lowercase ASCII letter, a digit or an
/// apostrophe.
pub open spec fn is_token_char(c: char) -> bool {
    ('a' <= c && c <= 'z') || ('0' <= c && c <= '9') || c == '\''
}

/// A clean token: nonempty, made of token characters, and neither starting
/// nor ending with an apostrophe.
pub open spec fn clean_token(t: Seq<char>) -> bool {
    &&& t.len() > 0
    &&& t[0] != '\''
    &&& t.last() != '\''
    &&& forall|k: int| 0 <= k < t.len() ==> is_token_char(#[trigger] t[k])
}

proof fn lemma_strip_leading_shape(w: Seq<char>)
    ensures
        exists|k: int|
            0 <= k <= w.len() && strip_leading_apostrophes(w) == #[trigger] w.subrange(
                k,
                w.len() as int,
            ),
        strip_leading_apostrophes(w).len() > 0 ==> strip_leading_apostrophes(w)[0] != '\'',
    decreases w.len(),
{
    if w.len() > 0 && w[0] == '\'' {
        lemma_strip_leading_shape(w.drop_first());
        let k = choose|k: int|
            0 <= k <= w.drop_first().len() && strip_leading_apostrophes(w.drop_first())
                == #[trigger] w.drop_first().subrange(k, w.drop_first().len() as int);
        assert(w.drop_first().subrange(k, w.drop_first().len() as int) =~= w.subrange(
            k + 1,
            w.len() as int,
        ));
    } else {
        assert(w.subrange(0, w.len() as int) =~= w);
    }
}

proof fn lemma_strip_trailing_shape(w: Seq<char>)
    ensures
        exists|j: int|
            0 <= j <= w.len() && strip_trailing_apostrophes(w) == #[trigger] w.subrange(0, j),
        strip_trailing_apostrophes(w).len() > 0 ==> strip_trailing_apostrophes(w).last() != '\'',
    decreases w.len(),
{
    if w.len() > 0 && w.last() == '\'' {
        lemma_strip_trailing_shape(w.drop_last());
        let j = choose|j: int|
            0 <= j <= w.drop_last().len() && strip_trailing_apostrophes(w.drop_last())
                == #[trigger] w.drop_last().subrange(0, j);
        assert(w.drop_last().subrange(0, j) =~= w.subrange(0, j));
    } else {
        assert(w.subrange(0, w.len() as int) =~= w);
    }
}

/// The token a word of token characters gives is clean.
proof fn lemma_word_token_clean(w: Seq<char>)
    requires
        forall|k: int| 0 <= k < w.len() ==> is_token_char(#[trigger] w[k]),
    ensures
        forall|k: int| 0 <= k < word_token(w).len() ==> clean_token(#[trigger] word_token(w)[k]),
{
    lemma_strip_leading_shape(w);
    let lead = strip_leading_apostrophes(w);
    let a = choose|k: int| 0 <= k <= w.len() && lead == #[trigger] w.subrange(k, w.len() as int);
    lemma_strip_trailing_shape(lead);
    let t = strip_trailing_apostrophes(lead);
    let b = choose|j: int| 0 <= j <= lead.len() && t == #[trigger] lead.subrange(0, j);
    assert forall|k: int| 0 <= k < t.len() implies is_token_char(#[trigger] t[k]) by {
        assert(t[k] == w[a + k]);
    }
    if t.len() > 0 {
        assert(t[0] == lead[0]);
    }
}

/// Every token from position `i` on is clean when the word in progress is
/// made of token characters.
proof fn lemma_tokens_from_clean(s: Seq<char>, i: int, cur: Seq<char>)
    requires
        0 <= i,
        forall|k: int| 0 <= k < cur.len() ==> is_token_char(#[trigger] cur[k]),
    ensures
        forall|k: int|
            0 <= k < tokens_from(s, i, cur).len() ==> clean_token(
                #[trigger] tokens_from(s, i, cur)[k],
            ),
    decreases s.len() - i,
{
    if i >= s.len() {
        lemma_word_token_clean(cur);
    } else if token_char(s[i]) == ' ' {
        lemma_word_token_clean(cur);
        lemma_tokens_from_clean(s, i + 1, Seq::empty());
        let a = word_token(cur);
        let b = tokens_from(s, i + 1, Seq::empty());
        assert(tokens_from(s, i, cur) == a + b);
        assert forall|k: int| 0 <= k < (a + b).len() implies clean_token(#[trigger] (a + b)[k]) by {
            if k < a.len() {
                assert((a + b)[k] == a[k]);
            } else {
                assert((a + b)[k] == b[k - a.len()]);
            }
        }
    } else {
        let c = token_char(s[i]);
        assert(is_token_char(c));
        let next = cur.push(c);
        assert forall|k: int| 0 <= k < next.len() implies is_token_char(#[trigger] next[k]) by {
            if k < cur.len() {
                assert(next[k] == cur[k]);
            }
        }
        lemma_tokens_from_clean(s, i + 1, next);
        assert(tokens_from(s, i, cur) == tokens_from(s, i + 1, next));
    }
}

/// Every token of a text is clean: a nonempty run of lowercase ASCII letters,
/// digits and apostrophes that neither starts nor ends with an apostrophe.
pub proof fn law_tokens_are_clean(s: Seq<char>)
    ensures
        forall|k: int| 0 <= k < tokens_spec(s).len() ==> clean_token(#[trigger] tokens_spec(s)[k]),
{
    lemma_tokens_from_clean(s, 0, Seq::empty());
}

/// A clean sentence: nonempty, with no whitespace at either end and no
/// sentence terminator inside.
pub open spec fn clean_sentence(t: Seq<char>) -> bool {
    &&& t.len() > 0
    &&& !is_ws(t[0])
    &&& !is_ws(t.last())
    &&& forall|k: int| 0 <= k < t.len() ==> !is_terminator(#[trigger] t[k])
}

/// The sentence a piece without terminators gives is clean.
proof fn lemma_piece_sentence_clean(p: Seq<char>)
    requires
        forall|k: int| 0 <= k < p.len() ==> !is_terminator(#[trigger] p[k]),
    ensures
        forall|k: int|
            0 <= k < piece_sentence(p).len() ==> clean_sentence(#[trigger] piece_sentence(p)[k]),
{
    lemma_first_non_ws_bounds(p, 0);
    let a = first_non_ws_from(p, 0);
    lemma_last_non_ws_bounds(p, a, p.len() as int);
    let b = last_non_ws_before(p, a, p.len() as int);
    let t = trim_seq(p);
    assert(t == p.subrange(a, b));
    assert forall|k: int| 0 <= k < t.len() implies !is_terminator(#[trigger] t[k]) by {
        assert(t[k] == p[a + k]);
    }
    if t.len() > 0 {
        assert(t[0] == p[a]);
        assert(t.last() == p[b - 1]);
    }
}

/// Every sentence from position `i` on is clean when the piece in progress
/// holds no terminator.
proof fn lemma_sentences_from_clean(s: Seq<char>, i: int, cur: Seq<char>)
    requires
        0 <= i,
        forall|k: int| 0 <= k < cur.len() ==> !is_terminator(#[trigger] cur[k]),
    ensures
        forall|k: int|
            0 <= k < sentences_from(s, i, cur).len() ==> clean_sentence(
                #[trigger] sentences_from(s, i, cur)[k],
            ),
    decreases s.len() - i,
{
    if i >= s.len() {
        lemma_piece_sentence_clean(cur);
    } else if is_terminator(s[i]) {
        lemma_piece_sentence_clean(cur);
        lemma_sentences_from_clean(s, i + 1, Seq::empty());
        let a = piece_sentence(cur);
        let b = sentences_from(s, i + 1, Seq::empty());
        assert(sentences_from(s, i, cur) == a + b);
        assert forall|k: int| 0 <= k < (a + b).len() implies clean_sentence(#[trigger] (a + b)[k]) by {
            if k < a.len() {
                assert((a + b)[k] == a[k]);
            } else {
                assert((a + b)[k] == b[k - a.len()]);
            }
        }
    } else {
        let next = cur.push(s[i]);
        assert forall|k: int| 0 <= k < next.len() implies !is_terminator(#[trigger] next[k]) by {
            if k < cur.len() {
                assert(next[k] == cur[k]);
            }
        }
        lemma_sentences_from_clean(s, i + 1, next);
        assert(sentences_from(s, i, cur) == sentences_from(s, i + 1, next));
    }
}

/// Every sentence of a text is clean: nonempty, trimmed, and free of `.`,
/// `?` and `!`.
pub proof fn law_sentences_are_clean(s: Seq<char>)
    ensures
        forall|k: int|
            0 <= k < sentences_spec(s).len() ==> clean_sentence(#[trigger] sentences_spec(s)[k]),
{
    lemma_sentences_from_clean(s, 0, Seq::empty());
}

} // verus!
