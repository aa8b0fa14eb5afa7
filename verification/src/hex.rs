//! Hexadecimal digits and their decoding into bytes.

use vstd::prelude::*;

verus! {

/// A character that denotes a hexadecimal digit, in either case.
pub open spec fn is_hex_digit(c: char) -> bool {
    ('0' <= c && c <= '9') || ('a' <= c && c <= 'f') || ('A' <= c && c <= 'F')
}

/// The value, 0 to 15, of a hexadecimal digit.
pub open spec fn hex_value(c: char) -> nat {
    if '0' <= c && c <= '9' {
        (c as int - '0' as int) as nat
    } else if 'a' <= c && c <= 'f' {
        (c as int - 'a' as int + 10) as nat
    } else if 'A' <= c && c <= 'F' {
        (c as int - 'A' as int + 10) as nat
    } else {
        0
    }
}

pub open spec fn all_hex_digits(s: Seq<char>) -> bool {
    forall|i: int| 0 <= i < s.len() ==> is_hex_digit(#[trigger] s[i])
}

/// The bytes that an even number of hexadecimal digits denotes, two digits
/// per byte, the high digit first.
pub open spec fn decode_hex_pairs(s: Seq<char>) -> Seq<u8> {
    Seq::new(s.len() / 2, |i: int| (hex_value(s[2 * i]) * 16 + hex_value(s[2 * i + 1])) as u8)
}

/// `s` preceded by as many `0` characters as bring it to `width`.
pub open spec fn zero_pad(s: Seq<char>, width: nat) -> Seq<char> {
    Seq::new((width - s.len()) as nat, |i: int| '0') + s
}

/// The value of one hexadecimal digit, if `c` is one.
pub fn hex_digit_value(c: char) -> (r: Option<u8>)
    ensures
        r is Some <==> is_hex_digit(c),
        r matches Some(v) ==> v as nat == hex_value(c) && v < 16,
{
    if '0' <= c && c <= '9' {
        Some((c as u32 - '0' as u32) as u8)
    } else if 'a' <= c && c <= 'f' {
        Some((c as u32 - 'a' as u32 + 10) as u8)
    } else if 'A' <= c && c <= 'F' {
        Some((c as u32 - 'A' as u32 + 10) as u8)
    } else {
        None
    }
}

/// Decodes the digits `chars[start..end]`, an even number of them, into
/// bytes; `None` when one of them is no hexadecimal digit.
pub fn decode_hex_range(chars: &Vec<char>, start: usize, end: usize) -> (r: Option<Vec<u8>>)
    requires
        start <= end <= chars@.len(),
        (end - start) % 2 == 0,
    ensures
        r is Some <==> all_hex_digits(chars@.subrange(start as int, end as int)),
        r matches Some(v) ==> v@ == decode_hex_pairs(chars@.subrange(start as int, end as int)),
{
    let ghost s = chars@.subrange(start as int, end as int);
    let mut out: Vec<u8> = Vec::new();
    let mut i: usize = start;
    while i < end
        invariant
            start <= i <= end <= chars@.len(),
            (end - start) % 2 == 0,
            (i - start) % 2 == 0,
            s == chars@.subrange(start as int, end as int),
            out@.len() == (i - start) / 2,
            forall|j: int| 0 <= j < i - start ==> is_hex_digit(#[trigger] s[j]),
            forall|k: int|
                0 <= k < out@.len() ==> #[trigger] out@[k] == (hex_value(s[2 * k]) * 16 + hex_value(
                    s[2 * k + 1],
                )) as u8,
        decreases end - i,
    {
        let hi = hex_digit_value(chars[i]);
        let lo = hex_digit_value(chars[i + 1]);
        match (hi, lo) {
            (Some(h), Some(l)) => {
                assert(s[i - start] == chars@[i as int]);
                assert(s[i - start + 1] == chars@[i + 1]);
                let ghost k = out@.len() as int;
                assert(2 * k == i - start);
                out.push(h * 16 + l);
                i = i + 2;
            },
            _ => {
                proof {
                    if hi is None {
                        assert(!is_hex_digit(s[i - start]));
                    } else {
                        assert(!is_hex_digit(s[i - start + 1]));
                    }
                }
                return None;
            },
        }
    }
    assert(out@ =~= decode_hex_pairs(s));
    Some(out)
}

} // verus!
