//! Multimodal content: content identifiers, the byte hash that seeds
//! feature embeddings, image features and the relations between modalities.
pub mod audio;
pub mod binding;
pub mod image;

use vstd::prelude::*;
use crate::text::{
    chars_of, concat2, find_char_from, first_char_from, remove_all, remove_occurrences, slice_chars,
    string_from_chars, string_of,
};

verus! {

/// A content identifier, shared by every modality.
#[derive(Debug, Clone, PartialEq, Eq, Hash)]
pub struct ContentId(pub String);

impl ContentId {
    /// The identifier with the given text.
    pub fn new(s: &str) -> (id: ContentId)
        ensures
            id.0@ == s@,
    {
        ContentId(string_of(s))
    }
}

/// The polynomial byte hash with base 31, modulo 2^64: each byte is added to
/// 31 times the hash of the bytes before it.
pub open spec fn poly31_hash(bytes: Seq<u8>) -> u64
    decreases bytes.len(),
{
    if bytes.len() == 0 {
        0
    } else {
        ((poly31_hash(bytes.drop_last()) as int * 31 + bytes.last() as int)
            % 0x1_0000_0000_0000_0000) as u64
    }
}

/// The base-31 hash of the UTF-8 bytes of a text.
pub fn poly31_hash_of(s: &str) -> (h: u64)
    ensures
        h == poly31_hash(vstd::utf8::encode_utf8(s@)),
{
    let bytes = s.as_bytes();
    let mut hash: u64 = 0;
    let mut i: usize = 0;
    while i < bytes.len()
        invariant
            i <= bytes@.len(),
            bytes@ == vstd::utf8::encode_utf8(s@),
            hash == poly31_hash(bytes@.subrange(0, i as int)),
        decreases bytes@.len() - i,
    {
        let b = bytes[i];
        let m = hash.wrapping_mul(31);
        let next = m.wrapping_add(b as u64);
        proof {
            let pre = bytes@.subrange(0, i as int);
            let post = bytes@.subrange(0, i as int + 1);
            assert(post.drop_last() =~= pre);
            assert(post.last() == b);
            let x = hash as int * 31;
            let md = 0x1_0000_0000_0000_0000int;
            vstd::arithmetic::div_mod::lemma_add_mod_noop(x, b as int, md);
            vstd::arithmetic::div_mod::lemma_mod_twice(b as int, md);
            vstd::arithmetic::div_mod::lemma_small_mod(b as nat, md as nat);
            vstd::arithmetic::div_mod::lemma_mod_bound(x + b as int, md);
        }
        hash = next;
        i = i + 1;
    }
    assert(bytes@.subrange(0, bytes@.len() as int) =~= bytes@);
    hash
}


/// The prompt hint of a generation file name: the name without its `.webp`,
/// `.png` and `.jpg` parts, removed in that order.
pub open spec fn prompt_hint(name: Seq<char>) -> Seq<char> {
    remove_all(remove_all(remove_all(name, ".webp"@), ".png"@), ".jpg"@)
}

/// The second dash-separated field of a file name: what stands between its
/// first and second dash (or its end).
pub open spec fn second_field(name: Seq<char>) -> Seq<char> {
    let d = first_char_from(name, '-', 0);
    name.subrange(d + 1, first_char_from(name, '-', d + 1))
}

/// What a generation file name (`file-{id}-{rest}.{ext}`) tells: the
/// generation's identifier `dalle-{id}` and the name as a prompt hint; a name
/// with no dash tells nothing.
pub open spec fn generation_file_info(name: Seq<char>) -> Option<(Seq<char>, Seq<char>)> {
    if first_char_from(name, '-', 0) < name.len() {
        Some(("dalle-"@ + second_field(name), prompt_hint(name)))
    } else {
        None
    }
}

/// Reads the generation identifier and the prompt hint out of a generation
/// file name.
pub fn parse_dalle_filename(name: &str) -> (r: Option<(String, String)>)
    ensures
        match generation_file_info(name@) {
            Some((id, hint)) => r matches Some((i, h)) && i@ == id && h@ == hint,
            None => r is None,
        },
{
    let c = chars_of(name);
    let d = find_char_from(c.as_slice(), '-', 0);
    if d == c.len() {
        return None;
    }
    let e = find_char_from(c.as_slice(), '-', d + 1);
    let field = slice_chars(c.as_slice(), d + 1, e);
    let field_text = string_from_chars(field.as_slice());
    let id = concat2("dalle-", field_text.as_str());
    proof {
        reveal_strlit(".webp");
        reveal_strlit(".png");
        reveal_strlit(".jpg");
    }
    let a = remove_occurrences(name, ".webp");
    let b = remove_occurrences(a.as_str(), ".png");
    let hint = remove_occurrences(b.as_str(), ".jpg");
    Some((id, hint))
}

} // verus!
