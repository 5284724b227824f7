//! JSON values as `serde_json` writes them, for the byte framing of records
//! whose canonical form is their JSON.
use vstd::prelude::*;

verus! {

/// What `serde_json::to_vec` writes for an unsigned integer: its decimal
/// digits, with no sign and no leading zero.
pub open spec fn json_of_u64(v: u64) -> Seq<u8> {
    utf8(crate::text::decimal_spec(v as nat))
}

/// A lowercase hexadecimal digit, as a byte.
pub open spec fn hex_digit(d: nat) -> u8 {
    if d < 10 {
        (48 + d) as u8
    } else {
        (87 + d) as u8
    }
}

/// How `serde_json` writes one character inside a string: a quote, a
/// backslash and the controls backspace, tab, line feed, form feed and
/// carriage return as a backslash and a letter; every other control below
/// U+0020 as `\u00` and two lowercase hexadecimal digits; anything else as
/// its UTF-8 bytes.
pub open spec fn json_escape_char(c: char) -> Seq<u8> {
    if c == '"' {
        seq![92u8, 34u8]
    } else if c == '\\' {
        seq![92u8, 92u8]
    } else if c == '\u{8}' {
        seq![92u8, 98u8]
    } else if c == '\t' {
        seq![92u8, 116u8]
    } else if c == '\n' {
        seq![92u8, 110u8]
    } else if c == '\u{c}' {
        seq![92u8, 102u8]
    } else if c == '\r' {
        seq![92u8, 114u8]
    } else if (c as u32) < 0x20 {
        seq![92u8, 117u8, 48u8, 48u8, hex_digit((c as u32 / 16) as nat), hex_digit((c as u32 % 16) as nat)]
    } else {
        utf8(seq![c])
    }
}

/// The escaped characters of a string, in order.
pub open spec fn json_escape(s: Seq<char>) -> Seq<u8>
    decreases s.len(),
{
    if s.len() == 0 {
        Seq::empty()
    } else {
        json_escape(s.drop_last()) + json_escape_char(s.last())
    }
}

/// What `serde_json::to_vec` writes for a string: its escaped characters
/// between double quotes.
pub open spec fn json_of_str(s: Seq<char>) -> Seq<u8> {
    seq![34u8] + json_escape(s) + seq![34u8]
}

/// What `serde_json::to_vec` writes for a boolean: `true` or `false`.
pub open spec fn json_of_bool(b: bool) -> Seq<u8> {
    if b {
        utf8("true"@)
    } else {
        utf8("false"@)
    }
}

/// Calls `serde_json::to_vec` on an unsigned integer, which writes its
/// decimal digits (`json_of_u64`). It succeeds: `to_vec` writes into a
/// `Vec<u8>`, and the serialiser of an integer fails only when its writer
/// does, which a vector never does.
#[verifier::external_body]
pub(crate) fn to_json_u64(v: u64) -> (r: Result<Vec<u8>, String>)
    ensures
        r is Ok,
        r matches Ok(b) ==> b@ == json_of_u64(v),
{
    match serde_json::to_vec(&v) {
        Ok(b) => Ok(b),
        Err(e) => Err(e.to_string()),
    }
}

/// Calls `serde_json::to_vec` on a string, which writes it escaped between
/// double quotes (`json_of_str`). It succeeds: the escaping serialiser of a string fails only
/// when its writer does, and `to_vec` writes into a `Vec<u8>`, which never
/// fails.
#[verifier::external_body]
pub(crate) fn to_json_str(s: &str) -> (r: Result<Vec<u8>, String>)
    ensures
        r is Ok,
        r matches Ok(b) ==> b@ == json_of_str(s@),
{
    match serde_json::to_vec(s) {
        Ok(b) => Ok(b),
        Err(e) => Err(e.to_string()),
    }
}

/// Calls `serde_json::to_vec` on a boolean, which writes `true` or `false`
/// (`json_of_bool`). It succeeds: the serialiser of a boolean fails only when
/// its writer does, and `to_vec` writes into a `Vec<u8>`, which never fails.
#[verifier::external_body]
pub(crate) fn to_json_bool(b: bool) -> (r: Result<Vec<u8>, String>)
    ensures
        r is Ok,
        r matches Ok(v) ==> v@ == json_of_bool(b),
{
    match serde_json::to_vec(&b) {
        Ok(v) => Ok(v),
        Err(e) => Err(e.to_string()),
    }
}

/// The UTF-8 bytes of a text.
pub open spec fn utf8(s: Seq<char>) -> Seq<u8> {
    vstd::utf8::encode_utf8(s)
}

/// Appends bytes to a buffer.
pub fn append_bytes(buf: &mut Vec<u8>, more: &[u8])
    ensures
        final(buf)@ == old(buf)@ + more@,
{
    let mut i: usize = 0;
    while i < more.len()
        invariant
            i <= more@.len(),
            buf@ == old(buf)@ + more@.subrange(0, i as int),
        decreases more@.len() - i,
    {
        buf.push(more[i]);
        i = i + 1;
        assert(buf@ =~= old(buf)@ + more@.subrange(0, i as int));
    }
    assert(more@.subrange(0, more@.len() as int) =~= more@);
}

/// Appends a field's key text and its serialised value, or passes on the
/// serialiser's message.
pub fn append_field(buf: &mut Vec<u8>, key: &str, value: Result<Vec<u8>, String>) -> (r: Result<
    (),
    String,
>)
    ensures
        value is Ok ==> r is Ok && final(buf)@ == old(buf)@ + utf8(key@) + value->Ok_0@,
        value is Err ==> r == Err::<(), String>(value->Err_0),
{
    match value {
        Ok(bytes) => {
            append_bytes(buf, key.as_bytes());
            append_bytes(buf, bytes.as_slice());
            Ok(())
        },
        Err(e) => Err(e),
    }
}

} // verus!
