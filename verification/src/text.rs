//! Character-level text utilities shared by the reasoning and voice modules.
//!
//! Text is modelled by its view as a sequence of Unicode scalar values
//! (`Seq<char>`). Byte lengths are the UTF-8 encoding lengths of that view.
use vstd::prelude::*;

verus! {

broadcast use vstd::string::group_string_axioms;

/// `needle` occurs in `hay` starting at position `i`.
pub open spec fn occurs_at(hay: Seq<char>, needle: Seq<char>, i: int) -> bool {
    &&& 0 <= i
    &&& i + needle.len() <= hay.len()
    &&& hay.subrange(i, i + needle.len()) == needle
}

/// `needle` occurs somewhere in `hay` (the empty needle occurs everywhere).
pub open spec fn contains_seq(hay: Seq<char>, needle: Seq<char>) -> bool {
    exists|i: int| occurs_at(hay, needle, i)
}

/// `hay` begins with `prefix`.
pub open spec fn starts_with_seq(hay: Seq<char>, prefix: Seq<char>) -> bool {
    prefix.len() <= hay.len() && hay.subrange(0, prefix.len() as int) == prefix
}

/// `hay` ends with `suffix`.
pub open spec fn ends_with_seq(hay: Seq<char>, suffix: Seq<char>) -> bool {
    suffix.len() <= hay.len() && hay.subrange(hay.len() - suffix.len(), hay.len() as int) == suffix
}

/// The Unicode `White_Space` property, which is what `char::is_whitespace` tests.
pub open spec fn is_ws(c: char) -> bool {
    let u = c as u32;
    ||| (0x09 <= u && u <= 0x0d)
    ||| u == 0x20
    ||| u == 0x85
    ||| u == 0xa0
    ||| u == 0x1680
    ||| (0x2000 <= u && u <= 0x200a)
    ||| u == 0x2028
    ||| u == 0x2029
    ||| u == 0x202f
    ||| u == 0x205f
    ||| u == 0x3000
}

/// Executable `White_Space` test.
pub fn is_whitespace(c: char) -> (b: bool)
    ensures
        b == is_ws(c),
{
    let u = c as u32;
    (0x09 <= u && u <= 0x0d) || u == 0x20 || u == 0x85 || u == 0xa0 || u == 0x1680 || (0x2000
        <= u && u <= 0x200a) || u == 0x2028 || u == 0x2029 || u == 0x202f || u == 0x205f || u
        == 0x3000
}

/// Every character of `s` is whitespace.
pub open spec fn all_ws(s: Seq<char>) -> bool {
    forall|i: int| 0 <= i < s.len() ==> is_ws(#[trigger] s[i])
}

/// Index of the first non-whitespace character at or after `i` (or `s.len()`).
pub open spec fn first_non_ws_from(s: Seq<char>, i: int) -> int
    decreases s.len() - i,
{
    if i < 0 || i >= s.len() {
        s.len() as int
    } else if is_ws(s[i]) {
        first_non_ws_from(s, i + 1)
    } else {
        i
    }
}

/// One past the index of the last non-whitespace character before `j` (or `lo`).
pub open spec fn last_non_ws_before(s: Seq<char>, lo: int, j: int) -> int
    decreases j - lo,
{
    if j <= lo || j > s.len() {
        lo
    } else if is_ws(s[j - 1]) {
        last_non_ws_before(s, lo, j - 1)
    } else {
        j
    }
}

/// `str::trim`: the text without leading and trailing whitespace.
pub open spec fn trim_seq(s: Seq<char>) -> Seq<char> {
    let a = first_non_ws_from(s, 0);
    s.subrange(a, last_non_ws_before(s, a, s.len() as int))
}

pub proof fn lemma_first_non_ws_bounds(s: Seq<char>, i: int)
    requires
        0 <= i <= s.len(),
    ensures
        i <= first_non_ws_from(s, i) <= s.len(),
        forall|k: int| i <= k < first_non_ws_from(s, i) ==> is_ws(#[trigger] s[k]),
        first_non_ws_from(s, i) < s.len() ==> !is_ws(s[first_non_ws_from(s, i)]),
    decreases s.len() - i,
{
    if i < s.len() && is_ws(s[i]) {
        lemma_first_non_ws_bounds(s, i + 1);
    }
}

pub proof fn lemma_last_non_ws_bounds(s: Seq<char>, lo: int, j: int)
    requires
        0 <= lo <= j <= s.len(),
    ensures
        lo <= last_non_ws_before(s, lo, j) <= j,
        forall|k: int| last_non_ws_before(s, lo, j) <= k < j ==> is_ws(#[trigger] s[k]),
        last_non_ws_before(s, lo, j) > lo ==> !is_ws(s[last_non_ws_before(s, lo, j) - 1]),
    decreases j - lo,
{
    if j > lo && is_ws(s[j - 1]) {
        lemma_last_non_ws_bounds(s, lo, j - 1);
    }
}

/// The trimmed text is empty exactly when the text is all whitespace.
pub proof fn lemma_trim_empty_iff_all_ws(s: Seq<char>)
    ensures
        trim_seq(s).len() == 0 <==> all_ws(s),
{
    lemma_first_non_ws_bounds(s, 0);
    let a = first_non_ws_from(s, 0);
    lemma_last_non_ws_bounds(s, a, s.len() as int);
}

/// The characters of a string slice, in order.
pub fn chars_of(s: &str) -> (v: Vec<char>)
    ensures
        v@ == s@,
{
    let n = s.unicode_len();
    let mut v: Vec<char> = Vec::new();
    let mut i: usize = 0;
    while i < n
        invariant
            n == s@.len(),
            i <= n,
            v@ == s@.subrange(0, i as int),
        decreases n - i,
    {
        let c = s.get_char(i);
        v.push(c);
        i = i + 1;
        assert(v@ =~= s@.subrange(0, i as int));
    }
    assert(v@ =~= s@);
    v
}

/// Whether `needle` occurs in `hay` at position `i`.
pub fn occurs_at_exec(hay: &[char], needle: &[char], i: usize) -> (b: bool)
    ensures
        b == occurs_at(hay@, needle@, i as int),
{
    if i > hay.len() || needle.len() > hay.len() - i {
        return false;
    }
    let mut k: usize = 0;
    while k < needle.len()
        invariant
            hay@.len() == hay.len(),
            i + needle@.len() <= hay@.len(),
            k <= needle@.len(),
            forall|t: int| 0 <= t < k ==> hay@[i + t] == needle@[t],
        decreases needle@.len() - k,
    {
        if hay[i + k] != needle[k] {
            assert(hay@.subrange(i as int, i + needle@.len())[k as int] != needle@[k as int]);
            return false;
        }
        k = k + 1;
    }
    assert(hay@.subrange(i as int, i + needle@.len()) =~= needle@);
    true
}

/// The first position at which `needle` occurs in `hay`, if any.
pub fn find_seq(hay: &[char], needle: &[char]) -> (r: Option<usize>)
    ensures
        match r {
            Some(i) => occurs_at(hay@, needle@, i as int) && forall|j: int|
                0 <= j < i ==> !occurs_at(hay@, needle@, j),
            None => !contains_seq(hay@, needle@),
        },
{
    let mut i: usize = 0;
    loop
        invariant
            i <= hay@.len(),
            forall|j: int| 0 <= j < i ==> !occurs_at(hay@, needle@, j),
        decreases hay@.len() - i,
    {
        if occurs_at_exec(hay, needle, i) {
            return Some(i);
        }
        if i == hay.len() {
            assert forall|j: int| !occurs_at(hay@, needle@, j) by {
                if 0 <= j && j + needle@.len() <= hay@.len() {
                    assert(j <= i);
                }
            }
            return None;
        }
        i = i + 1;
    }
}

/// Whether `needle` occurs in `hay`.
pub fn contains_chars(hay: &[char], needle: &[char]) -> (b: bool)
    ensures
        b == contains_seq(hay@, needle@),
{
    match find_seq(hay, needle) {
        Some(_) => true,
        None => false,
    }
}

/// Whether the text `needle` occurs in the text `hay`.
pub fn str_contains(hay: &str, needle: &str) -> (b: bool)
    ensures
        b == contains_seq(hay@, needle@),
{
    let h = chars_of(hay);
    let n = chars_of(needle);
    contains_chars(h.as_slice(), n.as_slice())
}

/// Whether `hay` begins with `prefix`.
pub fn starts_with_chars(hay: &[char], prefix: &[char]) -> (b: bool)
    ensures
        b == starts_with_seq(hay@, prefix@),
{
    let b = occurs_at_exec(hay, prefix, 0);
    proof {
        if b {
            assert(hay@.subrange(0, prefix@.len() as int) == prefix@);
        }
    }
    b
}

/// Whether `hay` ends with `suffix`.
pub fn ends_with_chars(hay: &[char], suffix: &[char]) -> (b: bool)
    ensures
        b == ends_with_seq(hay@, suffix@),
{
    if suffix.len() > hay.len() {
        return false;
    }
    occurs_at_exec(hay, suffix, hay.len() - suffix.len())
}

/// The subrange `[lo, hi)` of a character slice.
pub fn slice_chars(s: &[char], lo: usize, hi: usize) -> (r: Vec<char>)
    requires
        lo <= hi <= s@.len(),
    ensures
        r@ == s@.subrange(lo as int, hi as int),
{
    let mut r: Vec<char> = Vec::new();
    let mut i = lo;
    while i < hi
        invariant
            lo <= i <= hi <= s@.len(),
            r@ == s@.subrange(lo as int, i as int),
        decreases hi - i,
    {
        r.push(s[i]);
        i = i + 1;
        assert(r@ =~= s@.subrange(lo as int, i as int));
    }
    r
}

/// `str::trim` over a character slice: the bounds of the trimmed part.
pub fn trim_bounds(s: &[char]) -> (r: (usize, usize))
    ensures
        r.0 == first_non_ws_from(s@, 0),
        r.1 == last_non_ws_before(s@, r.0 as int, s@.len() as int),
        r.0 <= r.1 <= s@.len(),
{
    let mut a: usize = 0;
    while a < s.len() && is_whitespace(s[a])
        invariant
            a <= s@.len(),
            first_non_ws_from(s@, a as int) == first_non_ws_from(s@, 0),
        decreases s@.len() - a,
    {
        a = a + 1;
    }
    let mut b: usize = s.len();
    while b > a && is_whitespace(s[b - 1])
        invariant
            a <= b <= s@.len(),
            a == first_non_ws_from(s@, 0),
            last_non_ws_before(s@, a as int, b as int) == last_non_ws_before(
                s@,
                a as int,
                s@.len() as int,
            ),
        decreases b - a,
    {
        b = b - 1;
    }
    (a, b)
}

/// `str::trim`: the characters without leading and trailing whitespace.
pub fn trim_chars(s: &[char]) -> (r: Vec<char>)
    ensures
        r@ == trim_seq(s@),
{
    let (a, b) = trim_bounds(s);
    slice_chars(s, a, b)
}

/// `str::trim` into a new string.
pub fn trim_str(s: &str) -> (r: String)
    ensures
        r@ == trim_seq(s@),
{
    let c = chars_of(s);
    let t = trim_chars(c.as_slice());
    string_from_chars(t.as_slice())
}

/// Whether the text is empty after trimming whitespace.
pub fn is_blank(s: &[char]) -> (b: bool)
    ensures
        b == all_ws(s@),
        b == (trim_seq(s@).len() == 0),
{
    proof {
        lemma_trim_empty_iff_all_ws(s@);
    }
    let (a, b) = trim_bounds(s);
    a == b
}

/// A new string holding exactly the given text.
pub fn string_of(s: &str) -> (r: String)
    ensures
        r@ == s@,
{
    s.to_string()
}

/// Appends a character to a string.
#[verifier::external_body]
fn push_char(s: &mut String, c: char)
    ensures
        final(s)@ == old(s)@.push(c),
{
    s.push(c);
}

/// A string holding exactly the given characters.
pub fn string_from_chars(v: &[char]) -> (r: String)
    ensures
        r@ == v@,
{
    let mut r = String::new();
    let mut i: usize = 0;
    while i < v.len()
        invariant
            i <= v@.len(),
            r@ == v@.subrange(0, i as int),
        decreases v@.len() - i,
    {
        push_char(&mut r, v[i]);
        i = i + 1;
        assert(r@ =~= v@.subrange(0, i as int));
    }
    assert(v@.subrange(0, v@.len() as int) =~= v@);
    r
}

/// Concatenation of two texts into a new string.
pub fn concat2(a: &str, b: &str) -> (r: String)
    ensures
        r@ == a@ + b@,
{
    let mut r = string_of(a);
    r.append(b);
    r
}

/// Concatenation of three texts into a new string.
pub fn concat3(a: &str, b: &str, c: &str) -> (r: String)
    ensures
        r@ == a@ + b@ + c@,
{
    let mut r = string_of(a);
    r.append(b);
    r.append(c);
    r
}

/// Concatenation of four texts into a new string.
pub fn concat4(a: &str, b: &str, c: &str, d: &str) -> (r: String)
    ensures
        r@ == a@ + b@ + c@ + d@,
{
    let mut r = string_of(a);
    r.append(b);
    r.append(c);
    r.append(d);
    r
}

/// Concatenation of five texts into a new string.
pub fn concat5(a: &str, b: &str, c: &str, d: &str, e: &str) -> (r: String)
    ensures
        r@ == a@ + b@ + c@ + d@ + e@,
{
    let mut r = string_of(a);
    r.append(b);
    r.append(c);
    r.append(d);
    r.append(e);
    r
}

/// What `str::to_lowercase` returns for a text: the full Unicode lowercase mapping.
pub uninterp spec fn unicode_lowercase(s: Seq<char>) -> Seq<char>;

/// What `str::to_uppercase` returns for a text: the full Unicode uppercase mapping.
pub uninterp spec fn unicode_uppercase(s: Seq<char>) -> Seq<char>;

/// Calls `str::to_lowercase`; its result is named by `unicode_lowercase` of the input.
#[verifier::external_body]
pub(crate) fn lowercase(s: &str) -> (r: String)
    ensures
        r@ == unicode_lowercase(s@),
{
    s.to_lowercase()
}

/// Calls `str::to_uppercase`; its result is named by `unicode_uppercase` of the input.
#[verifier::external_body]
pub(crate) fn uppercase(s: &str) -> (r: String)
    ensures
        r@ == unicode_uppercase(s@),
{
    s.to_uppercase()
}

/// Whether the lowercase form of `s` contains `needle`.
pub fn lowercase_contains(lower: &[char], needle: &str) -> (b: bool)
    ensures
        b == contains_seq(lower@, needle@),
{
    let n = chars_of(needle);
    contains_chars(lower, n.as_slice())
}

/// The UTF-8 encoding of a concatenation is the concatenation of the encodings.
pub proof fn lemma_encode_concat(a: Seq<char>, b: Seq<char>)
    ensures
        vstd::utf8::encode_utf8(a + b) == vstd::utf8::encode_utf8(a) + vstd::utf8::encode_utf8(b),
    decreases a.len(),
{
    if a.len() == 0 {
        assert(a + b =~= b);
        assert(vstd::utf8::encode_utf8(a) =~= Seq::<u8>::empty());
        assert(vstd::utf8::encode_utf8(a) + vstd::utf8::encode_utf8(b) =~= vstd::utf8::encode_utf8(b));
    } else {
        lemma_encode_concat(a.drop_first(), b);
        assert((a + b).drop_first() =~= a.drop_first() + b);
        assert((a + b)[0] == a[0]);
        assert(vstd::utf8::encode_scalar(a[0] as u32) + (vstd::utf8::encode_utf8(a.drop_first())
            + vstd::utf8::encode_utf8(b)) =~= (vstd::utf8::encode_scalar(a[0] as u32)
            + vstd::utf8::encode_utf8(a.drop_first())) + vstd::utf8::encode_utf8(b));
    }
}

/// Whether two character sequences are equal.
pub fn chars_equal(a: &[char], b: &[char]) -> (r: bool)
    ensures
        r == (a@ == b@),
{
    if a.len() != b.len() {
        return false;
    }
    let r = occurs_at_exec(a, b, 0);
    assert(a@ =~= a@.subrange(0, b@.len() as int));
    r
}

/// The UTF-8 byte length of the first `k` characters of `s`.
pub open spec fn byte_offset(s: Seq<char>, k: int) -> int {
    vstd::utf8::encode_utf8(s.subrange(0, k)).len() as int
}

/// The UTF-8 byte length of one character.
pub open spec fn char_width(c: char) -> int {
    vstd::utf8::encode_scalar(c as u32).len() as int
}

/// Executable UTF-8 width of a character.
pub fn utf8_width(c: char) -> (n: usize)
    ensures
        n == char_width(c),
        1 <= n <= 4,
{
    proof {
        vstd::utf8::char_is_scalar(c);
    }
    let u = c as u32;
    if u < 0x80 {
        1
    } else if u < 0x800 {
        2
    } else if u < 0x10000 {
        3
    } else {
        4
    }
}

/// Byte offsets grow by the width of each character.
pub proof fn lemma_byte_offset_step(s: Seq<char>, k: int)
    requires
        0 <= k < s.len(),
    ensures
        byte_offset(s, k + 1) == byte_offset(s, k) + char_width(s[k]),
        1 <= char_width(s[k]) <= 4,
{
    vstd::utf8::char_is_scalar(s[k]);
    assert(s.subrange(0, k + 1) =~= s.subrange(0, k) + seq![s[k]]);
    lemma_encode_concat(s.subrange(0, k), seq![s[k]]);
    let one = seq![s[k]];
    assert(one.drop_first() =~= Seq::<char>::empty());
    assert(vstd::utf8::encode_utf8(Seq::<char>::empty()) =~= Seq::<u8>::empty());
    assert(vstd::utf8::encode_utf8(one) == vstd::utf8::encode_scalar(one[0] as u32)
        + vstd::utf8::encode_utf8(one.drop_first()));
    assert(vstd::utf8::encode_utf8(one) =~= vstd::utf8::encode_scalar(s[k] as u32));
}

/// A character index is never larger than its byte offset.
pub proof fn lemma_byte_offset_ge(s: Seq<char>, k: int)
    requires
        0 <= k <= s.len(),
    ensures
        byte_offset(s, k) >= k,
        k < s.len() ==> byte_offset(s, k) < byte_offset(s, k + 1),
    decreases k,
{
    if k == 0 {
        assert(s.subrange(0, 0) =~= Seq::<char>::empty());
    } else {
        lemma_byte_offset_ge(s, k - 1);
        lemma_byte_offset_step(s, k - 1);
    }
    if k < s.len() {
        lemma_byte_offset_step(s, k);
    }
}

/// The character index whose byte offset is exactly `p`, scanning from `k`;
/// `None` when `p` is not at a character boundary.
pub open spec fn char_at_byte(s: Seq<char>, p: int, k: int) -> Option<int>
    decreases s.len() - k,
{
    if k < 0 || k > s.len() {
        None
    } else if byte_offset(s, k) == p {
        Some(k)
    } else if byte_offset(s, k) > p || k == s.len() {
        None
    } else {
        char_at_byte(s, p, k + 1)
    }
}

/// What `char_at_byte` finds is a boundary at `p`, at or after `k`, no later than `p`.
pub proof fn lemma_char_at_byte(s: Seq<char>, p: int, k: int)
    requires
        0 <= k <= s.len(),
    ensures
        char_at_byte(s, p, k) matches Some(j) ==> k <= j <= s.len() && byte_offset(s, j) == p
            && j <= p,
    decreases s.len() - k,
{
    lemma_byte_offset_ge(s, k);
    if byte_offset(s, k) != p && !(byte_offset(s, k) > p || k == s.len()) {
        lemma_char_at_byte(s, p, k + 1);
    }
}

/// The character index at byte boundary `p` of `s`, if `p` is a boundary.
pub fn char_index_at_byte(s: &[char], p: usize) -> (r: Option<usize>)
    ensures
        match r {
            Some(j) => char_at_byte(s@, p as int, 0) == Some(j as int),
            None => char_at_byte(s@, p as int, 0) is None,
        },
{
    let mut k: usize = 0;
    let mut off: u128 = 0;
    assert(s@.subrange(0, 0) =~= Seq::<char>::empty());
    loop
        invariant
            k <= s@.len(),
            off == byte_offset(s@, k as int),
            off <= p,
            char_at_byte(s@, p as int, k as int) == char_at_byte(s@, p as int, 0),
        decreases s@.len() - k,
    {
        if off == p as u128 {
            return Some(k);
        }
        if k == s.len() {
            return None;
        }
        proof {
            lemma_byte_offset_step(s@, k as int);
        }
        let w = utf8_width(s[k]);
        off = off + w as u128;
        k = k + 1;
        if off > p as u128 {
            proof {
                lemma_byte_offset_ge(s@, k as int);
            }
            return None;
        }
    }
}

/// Byte offsets are strictly increasing in the character index.
pub proof fn lemma_byte_offset_mono(s: Seq<char>, j: int, k: int)
    requires
        0 <= j <= k <= s.len(),
    ensures
        byte_offset(s, j) <= byte_offset(s, k),
        j < k ==> byte_offset(s, j) < byte_offset(s, k),
    decreases k - j,
{
    if j < k {
        lemma_byte_offset_mono(s, j, k - 1);
        lemma_byte_offset_step(s, k - 1);
    }
}

/// A text made of ASCII characters has one UTF-8 byte per character.
pub proof fn lemma_ascii_utf8_len(s: Seq<char>)
    requires
        forall|i: int| 0 <= i < s.len() ==> (#[trigger] s[i] as u32) < 0x80,
    ensures
        vstd::utf8::encode_utf8(s).len() == s.len(),
    decreases s.len(),
{
    if s.len() > 0 {
        assert forall|i: int| 0 <= i < s.drop_first().len() implies (#[trigger] s.drop_first()[i]
            as u32) < 0x80 by {
            assert(s.drop_first()[i] == s[i + 1]);
        }
        lemma_ascii_utf8_len(s.drop_first());
        assert((s[0] as u32) < 0x80);
    }
}

/// The UTF-8 byte length of a text.
pub open spec fn utf8_len(s: Seq<char>) -> int {
    vstd::utf8::encode_utf8(s).len() as int
}

/// Lexicographic order on texts by character code, which is also the
/// order of their UTF-8 bytes.
pub open spec fn seq_lt(a: Seq<char>, b: Seq<char>) -> bool
    decreases a.len(),
{
    if a.len() == 0 {
        b.len() > 0
    } else if b.len() == 0 {
        false
    } else if a[0] != b[0] {
        (a[0] as u32) < (b[0] as u32)
    } else {
        seq_lt(a.drop_first(), b.drop_first())
    }
}

/// No text is below itself.
pub proof fn lemma_seq_lt_irreflexive(a: Seq<char>)
    ensures
        !seq_lt(a, a),
    decreases a.len(),
{
    if a.len() > 0 {
        lemma_seq_lt_irreflexive(a.drop_first());
    }
}

/// Whether `a` comes before `b` in lexicographic order.
pub fn chars_lt(a: &[char], b: &[char]) -> (r: bool)
    ensures
        r == seq_lt(a@, b@),
{
    let mut i: usize = 0;
    assert(a@.skip(0) =~= a@);
    assert(b@.skip(0) =~= b@);
    while i < a.len() && i < b.len()
        invariant
            i <= a@.len(),
            i <= b@.len(),
            seq_lt(a@, b@) == seq_lt(a@.skip(i as int), b@.skip(i as int)),
        decreases a@.len() - i,
    {
        if a[i] != b[i] {
            return (a[i] as u32) < (b[i] as u32);
        }
        assert(a@.skip(i as int).drop_first() =~= a@.skip(i as int + 1));
        assert(b@.skip(i as int).drop_first() =~= b@.skip(i as int + 1));
        i = i + 1;
    }
    a.len() < b.len()
}

/// Whether text `a` comes before text `b` in lexicographic order.
pub fn str_lt(a: &str, b: &str) -> (r: bool)
    ensures
        r == seq_lt(a@, b@),
{
    let ac = chars_of(a);
    let bc = chars_of(b);
    chars_lt(ac.as_slice(), bc.as_slice())
}

/// The decimal digit character for `d < 10`.
pub open spec fn digit_char(d: nat) -> char {
    ((48 + d) as u8) as char
}

/// The decimal representation of a natural number.
pub open spec fn decimal_spec(n: nat) -> Seq<char>
    decreases n,
{
    if n < 10 {
        seq![digit_char(n)]
    } else {
        decimal_spec(n / 10).push(digit_char(n % 10))
    }
}

fn decimal_chars(n: u64) -> (v: Vec<char>)
    ensures
        v@ == decimal_spec(n as nat),
    decreases n,
{
    let d = (n % 10) as u8;
    let c = (48u8 + d) as char;
    if n < 10 {
        let mut v: Vec<char> = Vec::new();
        v.push(c);
        assert(v@ =~= decimal_spec(n as nat));
        v
    } else {
        let mut v = decimal_chars(n / 10);
        v.push(c);
        v
    }
}

/// The decimal representation of `n`, as `format!("{}", n)` writes it.
pub fn decimal(n: u64) -> (s: String)
    ensures
        s@ == decimal_spec(n as nat),
{
    let v = decimal_chars(n);
    string_from_chars(v.as_slice())
}

/// `str::trim_end`: the length of the text without trailing whitespace.
pub fn trim_end_len(s: &[char]) -> (r: usize)
    ensures
        r == last_non_ws_before(s@, 0, s@.len() as int),
        r <= s@.len(),
{
    let mut b: usize = s.len();
    while b > 0 && is_whitespace(s[b - 1])
        invariant
            b <= s@.len(),
            last_non_ws_before(s@, 0, b as int) == last_non_ws_before(s@, 0, s@.len() as int),
        decreases b,
    {
        b = b - 1;
    }
    b
}

/// The text, without trailing whitespace, ends with a question mark.
pub open spec fn ends_with_question(s: Seq<char>) -> bool {
    let e = last_non_ws_before(s, 0, s.len() as int);
    e > 0 && s[e - 1] == '?'
}

/// Whether the text, without trailing whitespace, ends with a question mark.
pub fn ends_with_question_exec(s: &str) -> (b: bool)
    ensures
        b == ends_with_question(s@),
{
    let c = chars_of(s);
    let e = trim_end_len(c.as_slice());
    e > 0 && c[e - 1] == '?'
}

/// Whether two texts are equal.
pub fn str_eq(a: &str, b: &str) -> (r: bool)
    ensures
        r == (a@ == b@),
{
    let ac = chars_of(a);
    let bc = chars_of(b);
    chars_equal(ac.as_slice(), bc.as_slice())
}


/// Lines joined by newlines.
pub open spec fn join_lines(lines: Seq<Seq<char>>) -> Seq<char>
    decreases lines.len(),
{
    if lines.len() == 0 {
        Seq::empty()
    } else if lines.len() == 1 {
        lines[0]
    } else {
        join_lines(lines.drop_last()) + "\n"@ + lines.last()
    }
}

/// The texts of a sequence of strings.
pub open spec fn texts(v: Seq<String>) -> Seq<Seq<char>> {
    v.map_values(|s: String| s@)
}

/// Appends a text to a list of strings.
pub fn push_text(v: &mut Vec<String>, s: &str)
    ensures
        texts(final(v)@) == texts(old(v)@).push(s@),
{
    v.push(string_of(s));
    assert(texts(v@) =~= texts(old(v)@).push(s@));
}

/// Appends a string to a list of strings.
pub fn push_string(v: &mut Vec<String>, s: String)
    ensures
        texts(final(v)@) == texts(old(v)@).push(s@),
{
    let ghost t = s@;
    v.push(s);
    assert(texts(v@) =~= texts(old(v)@).push(t));
}

/// Strings joined by newlines.
pub fn join_newline(lines: &[String]) -> (r: String)
    ensures
        r@ == join_lines(texts(lines@)),
{
    let mut r = String::new();
    let mut i: usize = 0;
    while i < lines.len()
        invariant
            i <= lines@.len(),
            r@ == join_lines(texts(lines@.subrange(0, i as int))),
        decreases lines@.len() - i,
    {
        let ghost before = r@;
        if i > 0 {
            r.append("\n");
        }
        r.append(lines[i].as_str());
        proof {
            let next = texts(lines@.subrange(0, i + 1));
            assert(next.drop_last() =~= texts(lines@.subrange(0, i as int)));
            assert(next.last() == lines@[i as int]@);
            if i == 0 {
                assert(before =~= Seq::<char>::empty());
                assert(r@ =~= lines@[0]@);
                assert(next.len() == 1);
            } else {
                assert(r@ =~= before + "\n"@ + lines@[i as int]@);
            }
        }
        i = i + 1;
    }
    assert(lines@.subrange(0, lines@.len() as int) =~= lines@);
    r
}


/// `str::replace(pat, "")` from position `i` on: every occurrence of a
/// nonempty `pat`, found left to right without overlap, is removed.
pub open spec fn remove_from(s: Seq<char>, pat: Seq<char>, i: int) -> Seq<char>
    decreases s.len() - i,
{
    if i < 0 || i >= s.len() {
        Seq::empty()
    } else if pat.len() > 0 && occurs_at(s, pat, i) {
        remove_from(s, pat, i + pat.len())
    } else {
        seq![s[i]] + remove_from(s, pat, i + 1)
    }
}

/// `str::replace(pat, "")`: the text with every occurrence of a nonempty
/// `pat`, found left to right without overlap, removed.
pub open spec fn remove_all(s: Seq<char>, pat: Seq<char>) -> Seq<char> {
    remove_from(s, pat, 0)
}

/// The text with every occurrence of a nonempty pattern removed.
pub fn remove_occurrences(s: &str, pat: &str) -> (r: String)
    requires
        pat@.len() > 0,
    ensures
        r@ == remove_all(s@, pat@),
{
    let c = chars_of(s);
    let p = chars_of(pat);
    let mut out: Vec<char> = Vec::new();
    let mut i: usize = 0;
    while i < c.len()
        invariant
            i <= c@.len(),
            c@ == s@,
            p@ == pat@,
            p@.len() > 0,
            out@ + remove_from(c@, p@, i as int) == remove_all(s@, pat@),
        decreases c@.len() - i,
    {
        if occurs_at_exec(c.as_slice(), p.as_slice(), i) {
            i = i + p.len();
        } else {
            let ghost before = out@;
            out.push(c[i]);
            assert(out@ + remove_from(c@, p@, i + 1) =~= before + (seq![c@[i as int]] + remove_from(
                c@,
                p@,
                i + 1,
            )));
            i = i + 1;
        }
    }
    assert(out@ + remove_from(c@, p@, i as int) =~= out@);
    string_from_chars(out.as_slice())
}

/// The position of the first `c` at or after `from`, or the length.
pub open spec fn first_char_from(s: Seq<char>, c: char, from: int) -> int
    decreases s.len() - from,
{
    if from < 0 || from >= s.len() {
        s.len() as int
    } else if s[from] == c {
        from
    } else {
        first_char_from(s, c, from + 1)
    }
}

/// The position of the first `c` at or after `from`, or the length.
pub fn find_char_from(s: &[char], c: char, from: usize) -> (r: usize)
    requires
        from <= s@.len(),
    ensures
        r == first_char_from(s@, c, from as int),
        from <= r <= s@.len(),
{
    let mut k: usize = from;
    while k < s.len() && s[k] != c
        invariant
            from <= k <= s@.len(),
            first_char_from(s@, c, k as int) == first_char_from(s@, c, from as int),
        decreases s@.len() - k,
    {
        k = k + 1;
    }
    k
}

} // verus!
