//! Small helpers for reading strings as sequences of characters.

use vstd::prelude::*;
use vstd::utf8::{decode_utf8, encode_scalar, encode_utf8, encode_utf8_decode_utf8, valid_utf8};

verus! {

/// `String::from_utf8` of std: the bytes read as UTF-8 text. Its
/// documentation says that it fails exactly on bytes that are not valid
/// UTF-8 and otherwise keeps the bytes as they are; the contract says that
/// over vstd's UTF-8 encoding.
#[verifier::external_body]
pub(crate) fn utf8_text(bytes: Vec<u8>) -> (r: Option<String>)
    ensures
        r is Some <==> valid_utf8(bytes@),
        r matches Some(s) ==> encode_utf8(s@) == bytes@,
{
    match String::from_utf8(bytes) {
        Ok(s) => Some(s),
        Err(_) => None,
    }
}

/// What `format!("{:?}", s)` writes for a string `s`: the text between
/// double quotes, with quotes, backslashes and unprintable characters
/// escaped.
pub uninterp spec fn spec_debug_text(s: Seq<char>) -> Seq<char>;

/// The `Debug` rendering of a string slice, `format!("{:?}", s)`. The
/// contract names the result; the escaping rules of std are not written out.
#[verifier::external_body]
pub(crate) fn debug_text(s: &str) -> (r: String)
    ensures
        r@ == spec_debug_text(s@),
{
    format!("{:?}", s)
}

/// Each character takes at least one byte in UTF-8.
pub proof fn lemma_encode_utf8_length(chars: Seq<char>)
    ensures
        chars.len() <= encode_utf8(chars).len(),
    decreases chars.len(),
{
    if chars.len() > 0 {
        assert(encode_scalar(chars[0] as u32).len() >= 1);
        lemma_encode_utf8_length(chars.drop_first());
    }
}

/// The text of valid UTF-8 bytes is their decoding, and has at most as many
/// characters as there are bytes.
pub proof fn lemma_utf8_text(s: Seq<char>, bytes: Seq<u8>)
    requires
        encode_utf8(s) == bytes,
    ensures
        valid_utf8(bytes),
        s == decode_utf8(bytes),
        s.len() <= bytes.len(),
{
    encode_utf8_decode_utf8(s);
    vstd::utf8::encode_utf8_valid_utf8(s);
    lemma_encode_utf8_length(s);
}

/// Collects the characters of `s`, in order.
pub fn chars_of(s: &str) -> (v: Vec<char>)
    ensures
        v@ == s@,
{
    let n = s.unicode_len();
    let mut v: Vec<char> = Vec::new();
    let mut i: usize = 0;
    while i < n
        invariant
            n == s@.len(),
            i <= n,
            v@ == s@.subrange(0, i as int),
        decreases n - i,
    {
        let c = s.get_char(i);
        v.push(c);
        i = i + 1;
        assert(v@ =~= s@.subrange(0, i as int));
    }
    assert(v@ =~= s@);
    v
}

/// Whether `s` begins with the two characters `0x`.
pub open spec fn has_hex_prefix(s: Seq<char>) -> bool {
    s.len() >= 2 && s[0] == '0' && s[1] == 'x'
}

/// Tells whether `s` begins with `0x`.
pub fn starts_with_hex_prefix(s: &str) -> (b: bool)
    ensures
        b == has_hex_prefix(s@),
{
    let n = s.unicode_len();
    if n < 2 {
        return false;
    }
    s.get_char(0) == '0' && s.get_char(1) == 'x'
}

/// Tells whether `s` holds exactly the characters of `lit`.
pub fn str_eq(s: &str, lit: &str) -> (b: bool)
    ensures
        b == (s@ == lit@),
{
    let n = s.unicode_len();
    let m = lit.unicode_len();
    if n != m {
        return false;
    }
    let mut i: usize = 0;
    while i < n
        invariant
            n == s@.len(),
            m == lit@.len(),
            n == m,
            i <= n,
            forall|j: int| 0 <= j < i ==> s@[j] == lit@[j],
        decreases n - i,
    {
        if s.get_char(i) != lit.get_char(i) {
            return false;
        }
        i = i + 1;
    }
    assert(s@ =~= lit@);
    true
}


/// The decimal digit character for `d`.
pub open spec fn digit_char(d: nat) -> char {
    (48 + d) as char
}

/// The decimal notation of `n`, without leading zeros.
pub open spec fn spec_decimal(n: nat) -> Seq<char>
    decreases n,
{
    if n < 10 {
        seq![digit_char(n)]
    } else {
        spec_decimal(n / 10) + seq![digit_char(n % 10)]
    }
}

/// The one-character text of the decimal digit `d`.
fn digit_str(d: usize) -> (r: &'static str)
    requires
        d < 10,
    ensures
        r@ == seq![digit_char(d as nat)],
{
    proof {
        reveal_strlit("0");
        reveal_strlit("1");
        reveal_strlit("2");
        reveal_strlit("3");
        reveal_strlit("4");
        reveal_strlit("5");
        reveal_strlit("6");
        reveal_strlit("7");
        reveal_strlit("8");
        reveal_strlit("9");
    }
    let r = match d {
        0 => "0",
        1 => "1",
        2 => "2",
        3 => "3",
        4 => "4",
        5 => "5",
        6 => "6",
        7 => "7",
        8 => "8",
        _ => "9",
    };
    assert(r@ =~= seq![digit_char(d as nat)]);
    r
}

/// The decimal notation of `n`.
pub fn decimal_string(n: usize) -> (r: String)
    ensures
        r@ == spec_decimal(n as nat),
    decreases n,
{
    if n < 10 {
        String::from_str(digit_str(n))
    } else {
        let mut r = decimal_string(n / 10);
        r.append(digit_str(n % 10));
        r
    }
}

} // verus!
