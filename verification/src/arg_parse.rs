//! Reading call arguments, given as text, into Move values of the types that
//! a function's signature asks for.
//!
//! An argument is written as a JSON value: `true` or `false` for a `bool`,
//! decimal digits for an integer, a quoted hexadecimal literal (`"0x1"`) for an
//! address, a quoted string of hexadecimal digit pairs, optionally after `0x`,
//! for a `vector<u8>`, and a bracketed, comma-separated list for any other
//! vector. Blanks (space, tab, line feed, carriage return) may surround values.

use vstd::prelude::*;
use crate::address::{lemma_hex_literal_length, spec_hex_literal_address, AccountAddress, ADDRESS_LENGTH};
use crate::hex::{all_hex_digits, decode_hex_pairs, decode_hex_range, is_hex_digit, zero_pad};
use crate::text::{chars_of, decimal_string, has_hex_prefix, spec_decimal};
use crate::value::{layouts_view, values_view, Layout, MoveValue, TypeLayout, Value};

verus! {

pub open spec fn is_blank(c: char) -> bool {
    c == ' ' || c == '\t' || c == '\n' || c == '\r'
}

pub open spec fn is_decimal_digit(c: char) -> bool {
    '0' <= c && c <= '9'
}

/// The first position at or after `pos` that holds no blank.
pub open spec fn blanks_end(s: Seq<char>, pos: int) -> int
    decreases s.len() - pos,
{
    if 0 <= pos < s.len() && is_blank(s[pos]) {
        blanks_end(s, pos + 1)
    } else {
        pos
    }
}

/// The first position at or after `pos` that holds no decimal digit.
pub open spec fn digits_end(s: Seq<char>, pos: int) -> int
    decreases s.len() - pos,
{
    if 0 <= pos < s.len() && is_decimal_digit(s[pos]) {
        digits_end(s, pos + 1)
    } else {
        pos
    }
}

/// The first position at or after `pos` that holds a double quote, or the
/// end of `s`.
pub open spec fn quote_end(s: Seq<char>, pos: int) -> int
    decreases s.len() - pos,
{
    if 0 <= pos < s.len() && s[pos] != '"' {
        quote_end(s, pos + 1)
    } else {
        pos
    }
}

/// The number that the decimal digits `s[start..end]` denote.
pub open spec fn digits_value(s: Seq<char>, start: int, end: int) -> nat
    decreases end - start,
{
    if end <= start {
        0
    } else {
        digits_value(s, start, end - 1) * 10 + (s[end - 1] as int - '0' as int) as nat
    }
}

/// Whether `s` holds the word `w` at `pos`.
pub open spec fn has_word_at(s: Seq<char>, pos: int, w: Seq<char>) -> bool {
    0 <= pos && pos + w.len() <= s.len() && s.subrange(pos, pos + w.len()) == w
}

/// An unsigned decimal number at `pos`, at most `max`: its value and the
/// position after it.
pub open spec fn spec_parse_unsigned(s: Seq<char>, pos: int, max: nat) -> Option<(nat, int)> {
    let e = digits_end(s, pos);
    if e > pos && digits_value(s, pos, e) <= max {
        Some((digits_value(s, pos, e), e))
    } else {
        None
    }
}

/// The position of the closing quote of a quoted string that opens at `pos`.
pub open spec fn closing_quote(s: Seq<char>, pos: int) -> Option<int> {
    if 0 <= pos < s.len() && s[pos] == '"' && quote_end(s, pos + 1) < s.len() {
        Some(quote_end(s, pos + 1))
    } else {
        None
    }
}

/// The bytes that a string of hexadecimal digit pairs denotes, the pairs
/// optionally preceded by `0x`.
pub open spec fn spec_hex_bytes(c: Seq<char>) -> Option<Seq<u8>> {
    let d = if has_hex_prefix(c) {
        c.skip(2)
    } else {
        c
    };
    if d.len() % 2 == 0 && all_hex_digits(d) {
        Some(decode_hex_pairs(d))
    } else {
        None
    }
}

/// The value of a `vector<u8>` with the given bytes.
pub open spec fn byte_vector_value(b: Seq<u8>) -> Value {
    Value::Vector(Seq::new(b.len(), |i: int| Value::U8(b[i])))
}

/// How deeply vector layouts nest.
pub open spec fn layout_depth(l: Layout) -> nat
    decreases l,
{
    match l {
        Layout::Vector(inner) => 1 + layout_depth(*inner),
        _ => 0,
    }
}

pub proof fn lemma_blanks_end(s: Seq<char>, pos: int)
    ensures
        pos <= blanks_end(s, pos),
        0 <= pos <= s.len() ==> blanks_end(s, pos) <= s.len(),
        forall|i: int| pos <= i < blanks_end(s, pos) ==> is_blank(#[trigger] s[i]),
        0 <= blanks_end(s, pos) < s.len() ==> !is_blank(s[blanks_end(s, pos)]),
    decreases s.len() - pos,
{
    if 0 <= pos < s.len() && is_blank(s[pos]) {
        lemma_blanks_end(s, pos + 1);
    }
}

/// A value of layout `l` written at `pos`: the value and the position after
/// it.
pub open spec fn spec_parse_value(l: Layout, s: Seq<char>, pos: int) -> Option<(Value, int)>
    decreases s.len() - pos, 3 * layout_depth(l),
{
    if pos < 0 || pos > s.len() {
        None
    } else {
        match l {
            Layout::Bool => if has_word_at(s, pos, seq!['t', 'r', 'u', 'e']) {
                Some((Value::Bool(true), pos + 4))
            } else if has_word_at(s, pos, seq!['f', 'a', 'l', 's', 'e']) {
                Some((Value::Bool(false), pos + 5))
            } else {
                None
            },
            Layout::U8 => match spec_parse_unsigned(s, pos, u8::MAX as nat) {
                Some((v, e)) => Some((Value::U8(v as u8), e)),
                None => None,
            },
            Layout::U64 => match spec_parse_unsigned(s, pos, u64::MAX as nat) {
                Some((v, e)) => Some((Value::U64(v as u64), e)),
                None => None,
            },
            Layout::U128 => match spec_parse_unsigned(s, pos, u128::MAX as nat) {
                Some((v, e)) => Some((Value::U128(v as u128), e)),
                None => None,
            },
            Layout::Address => match closing_quote(s, pos) {
                Some(q) => match spec_hex_literal_address(s.subrange(pos + 1, q)) {
                    Some(a) => Some((Value::Address(a), q + 1)),
                    None => None,
                },
                None => None,
            },
            Layout::Vector(inner) => if *inner == Layout::U8 {
                match closing_quote(s, pos) {
                    Some(q) => match spec_hex_bytes(s.subrange(pos + 1, q)) {
                        Some(b) => Some((byte_vector_value(b), q + 1)),
                        None => None,
                    },
                    None => None,
                }
            } else if pos < s.len() && s[pos] == '[' {
                match spec_parse_items(*inner, s, pos + 1) {
                    Some((vs, e)) => Some((Value::Vector(vs), e)),
                    None => None,
                }
            } else {
                None
            },
            _ => None,
        }
    }
}

/// The items of a list whose opening bracket stands just before `pos`, up to
/// and including its closing bracket: the values and the position after it.
pub open spec fn spec_parse_items(l: Layout, s: Seq<char>, pos: int) -> Option<(Seq<Value>, int)>
    decreases s.len() - pos, 3 * layout_depth(l) + 2,
{
    if pos < 0 || pos > s.len() {
        None
    } else {
        let p = blanks_end(s, pos);
        proof {
            lemma_blanks_end(s, pos);
        }
        if p < s.len() && s[p] == ']' {
            Some((Seq::empty(), p + 1))
        } else {
            spec_parse_elems(l, s, p)
        }
    }
}

/// One or more list items starting at `pos`, separated by commas and ended by
/// the closing bracket: the values and the position after the bracket. Each
/// value takes up at least one character.
pub open spec fn spec_parse_elems(l: Layout, s: Seq<char>, pos: int) -> Option<(Seq<Value>, int)>
    decreases s.len() - pos, 3 * layout_depth(l) + 1,
{
    if pos < 0 || pos > s.len() {
        None
    } else {
        match spec_parse_value(l, s, pos) {
            None => None,
            Some((v, e)) => if e <= pos || e > s.len() {
                None
            } else {
                let p = blanks_end(s, e);
                proof {
                    lemma_blanks_end(s, e);
                    lemma_blanks_end(s, p + 1);
                }
                if p < s.len() && s[p] == ',' {
                    match spec_parse_elems(l, s, blanks_end(s, p + 1)) {
                        Some((vs, e2)) => Some((seq![v] + vs, e2)),
                        None => None,
                    }
                } else if p < s.len() && s[p] == ']' {
                    Some((seq![v], p + 1))
                } else {
                    None
                }
            },
        }
    }
}

/// The value of layout `l` that the whole text `s` denotes.
pub open spec fn spec_parse_arg(l: Layout, s: Seq<char>) -> Option<Value> {
    match spec_parse_value(l, s, blanks_end(s, 0)) {
        Some((v, e)) => if blanks_end(s, e) == s.len() {
            Some(v)
        } else {
            None
        },
        None => None,
    }
}


pub proof fn lemma_digits_end(s: Seq<char>, pos: int)
    ensures
        pos <= digits_end(s, pos),
        0 <= pos <= s.len() ==> digits_end(s, pos) <= s.len(),
        forall|i: int| pos <= i < digits_end(s, pos) ==> is_decimal_digit(#[trigger] s[i]),
    decreases s.len() - pos,
{
    if 0 <= pos < s.len() && is_decimal_digit(s[pos]) {
        lemma_digits_end(s, pos + 1);
    }
}

pub proof fn lemma_quote_end(s: Seq<char>, pos: int)
    ensures
        pos <= quote_end(s, pos),
        0 <= pos <= s.len() ==> quote_end(s, pos) <= s.len(),
    decreases s.len() - pos,
{
    if 0 <= pos < s.len() && s[pos] != '"' {
        lemma_quote_end(s, pos + 1);
    }
}

/// The position after the blanks at `pos`.
fn skip_blanks(chars: &Vec<char>, pos: usize) -> (p: usize)
    requires
        pos <= chars@.len(),
    ensures
        p as int == blanks_end(chars@, pos as int),
        pos <= p <= chars@.len(),
{
    let mut p = pos;
    while p < chars.len() && (chars[p] == ' ' || chars[p] == '\t' || chars[p] == '\n' || chars[p]
        == '\r')
        invariant
            pos <= p <= chars@.len(),
            blanks_end(chars@, p as int) == blanks_end(chars@, pos as int),
        decreases chars@.len() - p,
    {
        p = p + 1;
    }
    p
}

/// Whether `chars` holds the word `w` at `pos`.
fn has_word(chars: &Vec<char>, pos: usize, w: &Vec<char>) -> (b: bool)
    requires
        pos <= chars@.len(),
    ensures
        b == has_word_at(chars@, pos as int, w@),
{
    let n = chars.len();
    if w.len() > n - pos {
        return false;
    }
    let mut i: usize = 0;
    while i < w.len()
        invariant
            n == chars@.len(),
            pos + w@.len() <= chars@.len(),
            i <= w@.len(),
            forall|j: int| 0 <= j < i ==> chars@[pos + j] == w@[j],
        decreases w@.len() - i,
    {
        if chars[pos + i] != w[i] {
            assert(chars@.subrange(pos as int, pos + w@.len())[i as int] != w@[i as int]);
            return false;
        }
        i = i + 1;
    }
    assert(chars@.subrange(pos as int, pos + w@.len()) =~= w@);
    true
}

/// An unsigned decimal number of at most `max` at `pos`.
fn parse_unsigned(chars: &Vec<char>, pos: usize, max: u128) -> (r: Option<(u128, usize)>)
    requires
        pos <= chars@.len(),
    ensures
        match r {
            Some((v, e)) => spec_parse_unsigned(chars@, pos as int, max as nat) == Some(
                (v as nat, e as int),
            ),
            None => spec_parse_unsigned(chars@, pos as int, max as nat) is None,
        },
{
    let ghost s = chars@;
    let mut i = pos;
    let mut v: u128 = 0;
    let mut over = false;
    while i < chars.len() && '0' <= chars[i] && chars[i] <= '9'
        invariant
            pos <= i <= chars@.len(),
            s == chars@,
            digits_end(s, i as int) == digits_end(s, pos as int),
            !over ==> v as nat == digits_value(s, pos as int, i as int) && v <= max,
            over ==> digits_value(s, pos as int, i as int) > max,
        decreases chars@.len() - i,
    {
        let d = (chars[i] as u32 - '0' as u32) as u128;
        assert(digits_value(s, pos as int, i + 1) == digits_value(s, pos as int, i as int) * 10
            + d);
        if !over {
            match v.checked_mul(10) {
                Some(m) => match m.checked_add(d) {
                    Some(n) => {
                        if n > max {
                            over = true;
                        } else {
                            v = n;
                        }
                    },
                    None => {
                        over = true;
                    },
                },
                None => {
                    over = true;
                },
            }
        }
        i = i + 1;
    }
    if i == pos || over {
        None
    } else {
        Some((v, i))
    }
}

/// The position of the closing quote of a quoted string opening at `pos`.
fn find_closing_quote(chars: &Vec<char>, pos: usize) -> (r: Option<usize>)
    requires
        pos <= chars@.len(),
    ensures
        match r {
            Some(q) => closing_quote(chars@, pos as int) == Some(q as int) && pos < q < chars@.len(),
            None => closing_quote(chars@, pos as int) is None,
        },
{
    if pos >= chars.len() || chars[pos] != '"' {
        return None;
    }
    proof {
        lemma_quote_end(chars@, pos + 1);
    }
    let mut q = pos + 1;
    while q < chars.len() && chars[q] != '"'
        invariant
            pos + 1 <= q <= chars@.len(),
            quote_end(chars@, q as int) == quote_end(chars@, pos + 1),
        decreases chars@.len() - q,
    {
        q = q + 1;
    }
    if q < chars.len() {
        Some(q)
    } else {
        None
    }
}

/// The `vector<u8>` value with the given bytes.
fn byte_vector(bytes: &Vec<u8>) -> (v: MoveValue)
    ensures
        v@ == byte_vector_value(bytes@),
{
    let mut items: Vec<MoveValue> = Vec::new();
    let mut i: usize = 0;
    while i < bytes.len()
        invariant
            i <= bytes@.len(),
            items@.len() == i,
            forall|j: int| 0 <= j < i ==> (#[trigger] items@[j])@ == Value::U8(bytes@[j]),
        decreases bytes@.len() - i,
    {
        items.push(MoveValue::U8(bytes[i]));
        i = i + 1;
    }
    let v = MoveValue::Vector(items);
    assert(v@ matches Value::Vector(m) && m =~= Seq::new(bytes@.len(), |i: int| Value::U8(bytes@[i])));
    v
}

/// The vector value with the given items.
fn vector_value(items: Vec<MoveValue>) -> (v: MoveValue)
    ensures
        v@ == Value::Vector(values_view(items@)),
{
    MoveValue::Vector(items)
}

/// The bytes of a string of hexadecimal digit pairs, `chars[start..end]`.
fn hex_bytes(chars: &Vec<char>, start: usize, end: usize) -> (r: Option<Vec<u8>>)
    requires
        start <= end <= chars@.len(),
    ensures
        match r {
            Some(b) => spec_hex_bytes(chars@.subrange(start as int, end as int)) == Some(b@),
            None => spec_hex_bytes(chars@.subrange(start as int, end as int)) is None,
        },
{
    let ghost c = chars@.subrange(start as int, end as int);
    let from = if end - start >= 2 && chars[start] == '0' && chars[start + 1] == 'x' {
        assert(has_hex_prefix(c));
        assert(c.skip(2) =~= chars@.subrange(start + 2, end as int));
        start + 2
    } else {
        assert(!has_hex_prefix(c));
        assert(c =~= chars@.subrange(start as int, end as int));
        start
    };
    if (end - from) % 2 != 0 {
        return None;
    }
    decode_hex_range(chars, from, end)
}

/// Reads a value of the given layout written at `pos`; gives the value and
/// the position after it.
pub fn parse_value(layout: &TypeLayout, chars: &Vec<char>, pos: usize) -> (r: Option<
    (MoveValue, usize),
>)
    requires
        pos <= chars@.len(),
    ensures
        match r {
            Some((v, e)) => spec_parse_value(layout@, chars@, pos as int) == Some((v@, e as int)),
            None => spec_parse_value(layout@, chars@, pos as int) is None,
        },
    decreases chars@.len() - pos, 3 * layout_depth(layout@),
{
    let n = chars.len();
    match layout {
        TypeLayout::Bool => {
            let t = vec!['t', 'r', 'u', 'e'];
            let f = vec!['f', 'a', 'l', 's', 'e'];
            assert(t@ == seq!['t', 'r', 'u', 'e']);
            assert(f@ == seq!['f', 'a', 'l', 's', 'e']);
            if has_word(chars, pos, &t) {
                Some((MoveValue::Bool(true), pos + 4))
            } else if has_word(chars, pos, &f) {
                Some((MoveValue::Bool(false), pos + 5))
            } else {
                None
            }
        },
        TypeLayout::U8 => match parse_unsigned(chars, pos, 255) {
            Some((v, e)) => Some((MoveValue::U8(v as u8), e)),
            None => None,
        },
        TypeLayout::U64 => match parse_unsigned(chars, pos, 0xffff_ffff_ffff_ffff) {
            Some((v, e)) => Some((MoveValue::U64(v as u64), e)),
            None => None,
        },
        TypeLayout::U128 => match parse_unsigned(chars, pos, u128::MAX) {
            Some((v, e)) => Some((MoveValue::U128(v), e)),
            None => None,
        },
        TypeLayout::Address => match find_closing_quote(chars, pos) {
            Some(q) => match AccountAddress::from_hex_literal_chars(chars, pos + 1, q) {
                Ok(a) => Some((MoveValue::Address(a), q + 1)),
                Err(_) => None,
            },
            None => None,
        },
        TypeLayout::Vector(inner) => {
            match &**inner {
                TypeLayout::U8 => match find_closing_quote(chars, pos) {
                    Some(q) => match hex_bytes(chars, pos + 1, q) {
                        Some(b) => {
                            assert((**inner)@ == Layout::U8);
                            Some((byte_vector(&b), q + 1))
                        },
                        None => None,
                    },
                    None => None,
                },
                _ => {
                    assert((**inner)@ != Layout::U8);
                    if pos < n && chars[pos] == '[' {
                        match parse_items(inner, chars, pos + 1) {
                            Some((vs, e)) => {
                                Some((vector_value(vs), e))
                            },
                            None => None,
                        }
                    } else {
                        None
                    }
                },
            }
        },
        _ => None,
    }
}

/// Reads the items of a list whose opening bracket stands just before
/// `pos`, through its closing bracket.
fn parse_items(layout: &TypeLayout, chars: &Vec<char>, pos: usize) -> (r: Option<
    (Vec<MoveValue>, usize),
>)
    requires
        pos <= chars@.len(),
    ensures
        match r {
            Some((vs, e)) => spec_parse_items(layout@, chars@, pos as int) == Some(
                (values_view(vs@), e as int),
            ),
            None => spec_parse_items(layout@, chars@, pos as int) is None,
        },
    decreases chars@.len() - pos, 3 * layout_depth(layout@) + 2,
{
    let ghost s = chars@;
    let ghost l = layout@;
    let n = chars.len();
    let p = skip_blanks(chars, pos);
    if p < n && chars[p] == ']' {
        let empty: Vec<MoveValue> = Vec::new();
        assert(values_view(empty@) =~= Seq::<Value>::empty());
        return Some((empty, p + 1));
    }
    assert(spec_parse_items(l, s, pos as int) == spec_parse_elems(l, s, p as int));
    let mut acc: Vec<MoveValue> = Vec::new();
    let mut cur = p;
    assert(values_view(acc@) + Seq::<Value>::empty() =~= Seq::<Value>::empty());
    loop
        invariant
            s == chars@,
            l == layout@,
            n == chars@.len(),
            pos <= p <= cur <= n,
            spec_parse_items(l, s, pos as int) == match spec_parse_elems(l, s, cur as int) {
                Some((vs, e)) => Some((values_view(acc@) + vs, e)),
                None => None,
            },
        decreases n - cur,
    {
        match parse_value(layout, chars, cur) {
            None => {
                return None;
            },
            Some((v, e)) => {
                proof {
                    lemma_parse_value_has_layout(l, s, cur as int);
                }
                let q = skip_blanks(chars, e);
                let ghost old_acc = values_view(acc@);
                if q < n && chars[q] == ',' {
                    let next = skip_blanks(chars, q + 1);
                    acc.push(v);
                    assert(values_view(acc@) =~= old_acc + seq![v@]);
                    proof {
                        match spec_parse_elems(l, s, next as int) {
                            Some((vs, e2)) => {
                                assert(old_acc + (seq![v@] + vs) =~= values_view(acc@) + vs);
                            },
                            None => {},
                        }
                    }
                    cur = next;
                } else if q < n && chars[q] == ']' {
                    acc.push(v);
                    assert(values_view(acc@) =~= old_acc + seq![v@]);
                    return Some((acc, q + 1));
                } else {
                    return None;
                }
            },
        }
    }
}

/// Reads the value of the given layout that the whole text `arg` denotes.
pub fn parse_arg(layout: &TypeLayout, arg: &str) -> (r: Option<MoveValue>)
    ensures
        match r {
            Some(v) => spec_parse_arg(layout@, arg@) == Some(v@),
            None => spec_parse_arg(layout@, arg@) is None,
        },
{
    let chars = chars_of(arg);
    let p = skip_blanks(&chars, 0);
    match parse_value(layout, &chars, p) {
        Some((v, e)) => {
            proof {
                lemma_parse_value_has_layout(layout@, chars@, p as int);
            }
            let q = skip_blanks(&chars, e);
            if q == chars.len() {
                Some(v)
            } else {
                None
            }
        },
        None => None,
    }
}


/// Whether a value is of the given layout: integers and booleans of their
/// own type, addresses of `ADDRESS_LENGTH` bytes, vectors whose items are all
/// of the item layout.
pub open spec fn has_layout(v: Value, l: Layout) -> bool
    decreases l,
{
    match (v, l) {
        (Value::Bool(_), Layout::Bool) => true,
        (Value::U8(_), Layout::U8) => true,
        (Value::U64(_), Layout::U64) => true,
        (Value::U128(_), Layout::U128) => true,
        (Value::Address(a), Layout::Address) => a.len() == ADDRESS_LENGTH,
        (Value::Vector(items), Layout::Vector(inner)) => forall|i: int|
            0 <= i < items.len() ==> has_layout(#[trigger] items[i], *inner),
        _ => false,
    }
}

/// A value read at `pos` is of the layout it was read by, and takes up at
/// least one character of the text.
pub proof fn lemma_parse_value_has_layout(l: Layout, s: Seq<char>, pos: int)
    ensures
        spec_parse_value(l, s, pos) matches Some((v, e)) ==> has_layout(v, l) && pos < e <= s.len(),
    decreases s.len() - pos, 3 * layout_depth(l),
{
    if 0 <= pos <= s.len() {
        match l {
            Layout::U8 => lemma_digits_end(s, pos),
            Layout::U64 => lemma_digits_end(s, pos),
            Layout::U128 => lemma_digits_end(s, pos),
            Layout::Address => {
                if let Some(q) = closing_quote(s, pos) {
                    lemma_quote_end(s, pos + 1);
                    if spec_hex_literal_address(s.subrange(pos + 1, q)) is Some {
                        lemma_hex_literal_length(s.subrange(pos + 1, q));
                    }
                }
            },
            Layout::Vector(inner) => {
                if *inner == Layout::U8 {
                    if let Some(q) = closing_quote(s, pos) {
                        lemma_quote_end(s, pos + 1);
                        if let Some(b) = spec_hex_bytes(s.subrange(pos + 1, q)) {
                            let v = byte_vector_value(b);
                            assert(v matches Value::Vector(items) && forall|i: int|
                                0 <= i < items.len() ==> has_layout(#[trigger] items[i], *inner));
                        }
                    }
                } else if pos < s.len() && s[pos] == '[' {
                    lemma_parse_items_have_layout(*inner, s, pos + 1);
                }
            },
            _ => {},
        }
    }
}

/// The items of a list are all of the item layout, and the list ends within
/// the text.
pub proof fn lemma_parse_items_have_layout(l: Layout, s: Seq<char>, pos: int)
    ensures
        spec_parse_items(l, s, pos) matches Some((vs, e)) ==> (forall|i: int|
            0 <= i < vs.len() ==> has_layout(#[trigger] vs[i], l)) && pos < e <= s.len(),
    decreases s.len() - pos, 3 * layout_depth(l) + 2,
{
    if 0 <= pos <= s.len() {
        lemma_blanks_end(s, pos);
        let p = blanks_end(s, pos);
        if !(p < s.len() && s[p] == ']') {
            lemma_parse_elems_have_layout(l, s, p);
        }
    }
}

/// The items from `pos` to the end of a list are all of the item layout.
pub proof fn lemma_parse_elems_have_layout(l: Layout, s: Seq<char>, pos: int)
    ensures
        spec_parse_elems(l, s, pos) matches Some((vs, e)) ==> (forall|i: int|
            0 <= i < vs.len() ==> has_layout(#[trigger] vs[i], l)) && pos < e <= s.len(),
    decreases s.len() - pos, 3 * layout_depth(l) + 1,
{
    if 0 <= pos <= s.len() {
        lemma_parse_value_has_layout(l, s, pos);
        if let Some((v, e)) = spec_parse_value(l, s, pos) {
            if pos < e <= s.len() {
                lemma_blanks_end(s, e);
                let p = blanks_end(s, e);
                if p < s.len() && s[p] == ',' {
                    lemma_blanks_end(s, p + 1);
                    let next = blanks_end(s, p + 1);
                    lemma_parse_elems_have_layout(l, s, next);
                    if let Some((vs, e2)) = spec_parse_elems(l, s, next) {
                        assert forall|i: int| 0 <= i < (seq![v] + vs).len() implies has_layout(
                            #[trigger] (seq![v] + vs)[i],
                            l,
                        ) by {
                            if i > 0 {
                                assert((seq![v] + vs)[i] == vs[i - 1]);
                            }
                        }
                    }
                }
            }
        }
    }
}

/// Every value that a whole argument denotes is of the layout it was read
/// by.
pub proof fn lemma_parse_arg_has_layout(l: Layout, s: Seq<char>)
    ensures
        spec_parse_arg(l, s) matches Some(v) ==> has_layout(v, l),
{
    lemma_parse_value_has_layout(l, s, blanks_end(s, 0));
}

/// The texts of a sequence of strings.
pub open spec fn strings_view(s: Seq<String>) -> Seq<Seq<char>> {
    Seq::new(s.len(), |i: int| s[i]@)
}

/// The values that the texts `args` denote, each read by the layout at the
/// same place in `layouts`; `None` when the two differ in length or one text
/// does not denote a value of its layout.
pub open spec fn spec_convert_args(layouts: Seq<Layout>, args: Seq<Seq<char>>) -> Option<Seq<Value>> {
    if layouts.len() == args.len() && forall|i: int|
        0 <= i < layouts.len() ==> #[trigger] spec_parse_arg(layouts[i], args[i]) is Some {
        Some(Seq::new(layouts.len(), |i: int| spec_parse_arg(layouts[i], args[i]).unwrap()))
    } else {
        None
    }
}

/// The first place at or after `k` whose text does not denote a value of
/// its layout; the common length when there is none.
pub open spec fn first_unreadable(layouts: Seq<Layout>, args: Seq<Seq<char>>, k: int) -> nat
    decreases layouts.len() - k,
{
    if k < 0 {
        0
    } else if k >= layouts.len() || k >= args.len() {
        k as nat
    } else if spec_parse_arg(layouts[k], args[k]) is None {
        k as nat
    } else {
        first_unreadable(layouts, args, k + 1)
    }
}

/// Why call arguments could not be read into Move values.
#[derive(Clone, Copy, Debug, PartialEq, Eq)]
pub enum ConvertError {
    /// There are not as many arguments as parameter layouts.
    ArgumentCount { expected: usize, passed: usize },
    /// The argument at `index` does not denote a value of its layout.
    InvalidArgument { index: usize },
}

/// The text that describes a conversion failure.
pub open spec fn convert_error_message(e: ConvertError) -> Seq<char> {
    match e {
        ConvertError::ArgumentCount { expected, passed } => "Expected "@ + spec_decimal(
            expected as nat,
        ) + " arguments, "@ + spec_decimal(passed as nat) + " are passed"@,
        ConvertError::InvalidArgument { index } => "Invalid argument at position "@ + spec_decimal(
            index as nat,
        ),
    }
}

impl ConvertError {
    /// A text that describes the failure.
    pub fn message(&self) -> (m: String)
        ensures
            m@ == convert_error_message(*self),
    {
        match self {
            ConvertError::ArgumentCount { expected, passed } => {
                let mut m = String::from_str("Expected ");
                m.append(decimal_string(*expected).as_str());
                m.append(" arguments, ");
                m.append(decimal_string(*passed).as_str());
                m.append(" are passed");
                m
            },
            ConvertError::InvalidArgument { index } => {
                let mut m = String::from_str("Invalid argument at position ");
                m.append(decimal_string(*index).as_str());
                m
            },
        }
    }
}

/// Reads call arguments into Move values.
pub struct MoveConverter;

impl MoveConverter {
    /// Reads each text of `call_args` as a value of the layout at the same
    /// place in `code_args`.
    pub fn try_into_vm_values(code_args: &[TypeLayout], call_args: &[String]) -> (r: Result<
        Vec<MoveValue>,
        ConvertError,
    >)
        ensures
            match r {
                Ok(vs) => spec_convert_args(layouts_view(code_args@), strings_view(call_args@))
                    == Some(values_view(vs@)),
                Err(ConvertError::ArgumentCount { expected, passed }) => expected == code_args@.len()
                    && passed == call_args@.len() && expected != passed,
                Err(ConvertError::InvalidArgument { index }) => {
                    &&& code_args@.len() == call_args@.len()
                    &&& index == first_unreadable(
                        layouts_view(code_args@),
                        strings_view(call_args@),
                        0,
                    )
                    &&& index < code_args@.len()
                    &&& spec_parse_arg(code_args@[index as int]@, call_args@[index as int]@) is None
                    &&& forall|j: int|
                        0 <= j < index ==> spec_parse_arg(code_args@[j]@, call_args@[j]@) is Some
                },
            },
            r is Err ==> spec_convert_args(layouts_view(code_args@), strings_view(call_args@))
                is None,
    {
        let ghost ls = layouts_view(code_args@);
        let ghost args = strings_view(call_args@);
        if code_args.len() != call_args.len() {
            return Err(
                ConvertError::ArgumentCount { expected: code_args.len(), passed: call_args.len() },
            );
        }
        let mut out: Vec<MoveValue> = Vec::new();
        let mut i: usize = 0;
        while i < code_args.len()
            invariant
                code_args@.len() == call_args@.len(),
                ls == layouts_view(code_args@),
                args == strings_view(call_args@),
                i <= code_args@.len(),
                out@.len() == i,
                forall|j: int|
                    0 <= j < i ==> #[trigger] spec_parse_arg(ls[j], args[j]) == Some(out@[j]@),
                first_unreadable(ls, args, 0) == first_unreadable(ls, args, i as int),
            decreases code_args@.len() - i,
        {
            match parse_arg(&code_args[i], call_args[i].as_str()) {
                Some(v) => {
                    out.push(v);
                    i = i + 1;
                },
                None => {
                    assert(spec_parse_arg(ls[i as int], args[i as int]) is None);
                    assert forall|j: int| 0 <= j < i implies spec_parse_arg(
                        code_args@[j]@,
                        call_args@[j]@,
                    ) is Some by {
                        assert(spec_parse_arg(ls[j], args[j]) == Some(out@[j]@));
                    }
                    return Err(ConvertError::InvalidArgument { index: i });
                },
            }
        }
        assert forall|j: int| 0 <= j < ls.len() implies #[trigger] spec_parse_arg(ls[j], args[j])
            is Some by {
            assert(spec_parse_arg(ls[j], args[j]) == Some(out@[j]@));
        }
        assert(Seq::new(ls.len(), |j: int| spec_parse_arg(ls[j], args[j]).unwrap()) =~= values_view(
            out@,
        ));
        Ok(out)
    }
}


/// Whether `t` is a non-empty string of decimal digits.
pub open spec fn is_digit_string(t: Seq<char>) -> bool {
    t.len() > 0 && forall|i: int| 0 <= i < t.len() ==> is_decimal_digit(#[trigger] t[i])
}

/// The number that a string of decimal digits denotes.
pub open spec fn decimal_value(t: Seq<char>) -> nat {
    digits_value(t, 0, t.len() as int)
}

/// Digits from `pos` on, `n` of them, then no digit: the digits end at
/// `pos + n`.
proof fn lemma_digits_end_at(s: Seq<char>, pos: int, n: int)
    requires
        0 <= pos,
        0 <= n,
        pos + n <= s.len(),
        forall|i: int| pos <= i < pos + n ==> is_decimal_digit(#[trigger] s[i]),
        pos + n == s.len() || !is_decimal_digit(s[pos + n]),
    ensures
        digits_end(s, pos) == pos + n,
    decreases n,
{
    if n > 0 {
        lemma_digits_end_at(s, pos + 1, n - 1);
    }
}

/// The value of digits does not depend on where they stand.
proof fn lemma_digits_value_shift(s: Seq<char>, t: Seq<char>, pos: int, n: int)
    requires
        0 <= pos,
        0 <= n <= t.len(),
        pos + n <= s.len(),
        forall|i: int| 0 <= i < n ==> s[pos + i] == #[trigger] t[i],
    ensures
        digits_value(s, pos, pos + n) == digits_value(t, 0, n),
    decreases n,
{
    if n > 0 {
        lemma_digits_value_shift(s, t, pos, n - 1);
        assert(s[pos + (n - 1)] == t[n - 1]);
    }
}

/// A string of decimal digits, read as an argument of an unsigned integer
/// type, gives the number it denotes when that number fits the type, and
/// nothing otherwise.
pub proof fn lemma_unsigned_argument(d: Seq<char>)
    requires
        is_digit_string(d),
    ensures
        spec_parse_arg(Layout::U8, d) == (if decimal_value(d) <= u8::MAX {
            Some(Value::U8(decimal_value(d) as u8))
        } else {
            None
        }),
        spec_parse_arg(Layout::U64, d) == (if decimal_value(d) <= u64::MAX {
            Some(Value::U64(decimal_value(d) as u64))
        } else {
            None
        }),
        spec_parse_arg(Layout::U128, d) == (if decimal_value(d) <= u128::MAX {
            Some(Value::U128(decimal_value(d) as u128))
        } else {
            None
        }),
{
    assert(is_decimal_digit(d[0]));
    assert(blanks_end(d, 0) == 0);
    lemma_digits_end_at(d, 0, d.len() as int);
    assert(blanks_end(d, d.len() as int) == d.len());
}

/// Texts joined by commas.
pub open spec fn comma_joined(items: Seq<Seq<char>>) -> Seq<char>
    decreases items.len(),
{
    if items.len() == 0 {
        seq![]
    } else if items.len() == 1 {
        items[0]
    } else {
        items[0] + seq![','] + comma_joined(items.drop_first())
    }
}

/// The values of layout `l`, `U64` or `U128`, that strings of digits denote.
pub open spec fn unsigned_values(l: Layout, items: Seq<Seq<char>>) -> Seq<Value> {
    Seq::new(
        items.len(),
        |i: int|
            if l == Layout::U64 {
                Value::U64(decimal_value(items[i]) as u64)
            } else {
                Value::U128(decimal_value(items[i]) as u128)
            },
    )
}

/// Whether each of `items` is a string of digits whose number fits `max`.
pub open spec fn all_fitting_numbers(items: Seq<Seq<char>>, max: nat) -> bool {
    forall|i: int|
        0 <= i < items.len() ==> is_digit_string(#[trigger] items[i]) && decimal_value(items[i])
            <= max
}

/// Numbers joined by commas and followed by `]`, at `pos` of `s`, read as
/// the list's items.
proof fn lemma_number_items(l: Layout, max: nat, items: Seq<Seq<char>>, s: Seq<char>, pos: int)
    requires
        (l == Layout::U64 && max == u64::MAX) || (l == Layout::U128 && max == u128::MAX),
        items.len() > 0,
        all_fitting_numbers(items, max),
        0 <= pos,
        pos + comma_joined(items).len() + 1 <= s.len(),
        s.subrange(pos, pos + comma_joined(items).len() + 1) == comma_joined(items) + seq![']'],
    ensures
        spec_parse_elems(l, s, pos) == Some(
            (unsigned_values(l, items), pos + comma_joined(items).len() + 1),
        ),
    decreases items.len(),
{
    let first = items[0];
    let n = first.len() as int;
    let joined = comma_joined(items);
    let tail = s.subrange(pos, pos + joined.len() + 1);
    assert(is_digit_string(first) && decimal_value(first) <= max);
    let rest = items.drop_first();
    if items.len() == 1 {
        assert(joined == first);
    } else {
        assert(joined == first + seq![','] + comma_joined(rest));
    }
    assert forall|i: int| 0 <= i < n implies s[pos + i] == #[trigger] first[i] by {
        assert(tail[i] == joined[i]);
        assert(joined[i] == first[i]);
    }
    assert(tail[n] == s[pos + n]);
    if items.len() == 1 {
        assert(s[pos + n] == ']');
    } else {
        assert(joined[n] == ',');
        assert(s[pos + n] == ',');
    }
    assert forall|i: int| pos <= i < pos + n implies is_decimal_digit(#[trigger] s[i]) by {
        assert(s[pos + (i - pos)] == first[i - pos]);
    }
    lemma_digits_end_at(s, pos, n);
    lemma_digits_value_shift(s, first, pos, n);
    let e = pos + n;
    assert(blanks_end(s, e) == e);
    let v = if l == Layout::U64 {
        Value::U64(decimal_value(first) as u64)
    } else {
        Value::U128(decimal_value(first) as u128)
    };
    assert(spec_parse_value(l, s, pos) == Some((v, e)));
    if items.len() == 1 {
        assert(unsigned_values(l, items) =~= seq![v]);
    } else {
        let rj = comma_joined(rest);
        let next = e + 1;
        assert(all_fitting_numbers(rest, max)) by {
            assert forall|i: int| 0 <= i < rest.len() implies is_digit_string(#[trigger] rest[i])
                && decimal_value(rest[i]) <= max by {
                assert(rest[i] == items[i + 1]);
            }
        }
        assert(rest.len() > 0);
        if rest.len() == 1 {
            assert(rj == rest[0]);
        } else {
            assert(rj == rest[0] + seq![','] + comma_joined(rest.drop_first()));
        }
        assert(is_digit_string(rest[0]));
        assert(rj[0] == rest[0][0]);
        assert(joined.len() == n + 1 + rj.len());
        assert(s.subrange(next, next + rj.len() + 1) =~= rj + seq![']']) by {
            assert forall|i: int| 0 <= i < rj.len() + 1 implies #[trigger] s.subrange(
                next,
                next + rj.len() + 1,
            )[i] == (rj + seq![']'])[i] by {
                assert(tail[n + 1 + i] == s[next + i]);
                if i < rj.len() {
                    assert(joined[n + 1 + i] == rj[i]);
                }
            }
        }
        assert(s.subrange(next, next + rj.len() + 1)[0] == s[next]);
        assert((rj + seq![']'])[0] == rj[0]);
        assert(s[next] == rj[0]);
        assert(is_decimal_digit(s[next]));
        assert(blanks_end(s, next) == next);
        lemma_number_items(l, max, rest, s, next);
        assert(unsigned_values(l, items) =~= seq![v] + unsigned_values(l, rest));
    }
}

/// A bracketed list of numbers separated by commas, of any length, read as
/// an argument of type `vector<u64>` or `vector<u128>`, gives the vector of
/// those numbers, each item in its place, when every number fits the item
/// type.
pub proof fn lemma_number_list_argument(items: Seq<Seq<char>>)
    ensures
        all_fitting_numbers(items, u64::MAX as nat) ==> spec_parse_arg(
            Layout::Vector(Box::new(Layout::U64)),
            seq!['['] + comma_joined(items) + seq![']'],
        ) == Some(Value::Vector(unsigned_values(Layout::U64, items))),
        all_fitting_numbers(items, u128::MAX as nat) ==> spec_parse_arg(
            Layout::Vector(Box::new(Layout::U128)),
            seq!['['] + comma_joined(items) + seq![']'],
        ) == Some(Value::Vector(unsigned_values(Layout::U128, items))),
{
    if all_fitting_numbers(items, u64::MAX as nat) {
        lemma_number_list_at(Layout::U64, u64::MAX as nat, items);
    }
    if all_fitting_numbers(items, u128::MAX as nat) {
        lemma_number_list_at(Layout::U128, u128::MAX as nat, items);
    }
}

proof fn lemma_number_list_at(l: Layout, max: nat, items: Seq<Seq<char>>)
    requires
        (l == Layout::U64 && max == u64::MAX) || (l == Layout::U128 && max == u128::MAX),
        all_fitting_numbers(items, max),
    ensures
        spec_parse_arg(Layout::Vector(Box::new(l)), seq!['['] + comma_joined(items) + seq![']'])
            == Some(Value::Vector(unsigned_values(l, items))),
{
    let joined = comma_joined(items);
    let s = seq!['['] + joined + seq![']'];
    let vl = Layout::Vector(Box::new(l));
    assert(s[0] == '[');
    assert(blanks_end(s, 0) == 0);
    assert(blanks_end(s, s.len() as int) == s.len());
    if items.len() == 0 {
        assert(s =~= seq!['[', ']']);
        assert(blanks_end(s, 1) == 1);
        assert(spec_parse_items(l, s, 1) == Some((Seq::<Value>::empty(), 2int)));
        assert(unsigned_values(l, items) =~= Seq::<Value>::empty());
    } else {
        if items.len() == 1 {
            assert(joined == items[0]);
        } else {
            assert(joined == items[0] + seq![','] + comma_joined(items.drop_first()));
        }
        assert(is_digit_string(items[0]));
        assert(s[1] == joined[0] && joined[0] == items[0][0]);
        assert(blanks_end(s, 1) == 1);
        assert(s.subrange(1, 1 + joined.len() as int + 1) =~= joined + seq![']']);
        lemma_number_items(l, max, items, s, 1);
        assert(spec_parse_items(l, s, 1) == spec_parse_elems(l, s, 1));
    }
    assert(*Box::new(l) != Layout::U8);
}

/// Whether every character of `b` is a blank.
pub open spec fn all_blanks(b: Seq<char>) -> bool {
    forall|i: int| 0 <= i < b.len() ==> is_blank(#[trigger] b[i])
}

/// Blanks from `pos` on, `n` of them, then no blank: the blanks end at
/// `pos + n`.
proof fn lemma_blanks_end_at(s: Seq<char>, pos: int, n: int)
    requires
        0 <= pos,
        0 <= n,
        pos + n <= s.len(),
        forall|i: int| pos <= i < pos + n ==> is_blank(#[trigger] s[i]),
        pos + n == s.len() || !is_blank(s[pos + n]),
    ensures
        blanks_end(s, pos) == pos + n,
    decreases n,
{
    if n > 0 {
        lemma_blanks_end_at(s, pos + 1, n - 1);
    }
}

/// No quote from `pos` on, `n` characters, then a quote: the quote is at
/// `pos + n`.
proof fn lemma_quote_end_at(s: Seq<char>, pos: int, n: int)
    requires
        0 <= pos,
        0 <= n,
        pos + n < s.len(),
        forall|i: int| pos <= i < pos + n ==> #[trigger] s[i] != '"',
        s[pos + n] == '"',
    ensures
        quote_end(s, pos) == pos + n,
    decreases n,
{
    if n > 0 {
        lemma_quote_end_at(s, pos + 1, n - 1);
    }
}

/// `true` and `false`, with any blanks around them, read as the two values
/// of a `bool` argument.
pub proof fn lemma_bool_argument(before: Seq<char>, after: Seq<char>)
    requires
        all_blanks(before),
        all_blanks(after),
    ensures
        spec_parse_arg(Layout::Bool, before + seq!['t', 'r', 'u', 'e'] + after) == Some(
            Value::Bool(true),
        ),
        spec_parse_arg(Layout::Bool, before + seq!['f', 'a', 'l', 's', 'e'] + after) == Some(
            Value::Bool(false),
        ),
{
    let b = before.len() as int;
    let t = before + seq!['t', 'r', 'u', 'e'] + after;
    let f = before + seq!['f', 'a', 'l', 's', 'e'] + after;
    assert forall|i: int| 0 <= i < b implies is_blank(#[trigger] t[i]) by {
        assert(t[i] == before[i]);
    }
    assert forall|i: int| 0 <= i < b implies is_blank(#[trigger] f[i]) by {
        assert(f[i] == before[i]);
    }
    assert(t[b] == 't' && f[b] == 'f');
    lemma_blanks_end_at(t, 0, b);
    lemma_blanks_end_at(f, 0, b);
    assert(t.subrange(b, b + 4) =~= seq!['t', 'r', 'u', 'e']);
    assert(f.subrange(b, b + 5) =~= seq!['f', 'a', 'l', 's', 'e']);
    assert(!has_word_at(f, b, seq!['t', 'r', 'u', 'e'])) by {
        if has_word_at(f, b, seq!['t', 'r', 'u', 'e']) {
            assert(f.subrange(b, b + 4)[0] == 't');
        }
    }
    assert forall|i: int| b + 4 <= i < t.len() implies is_blank(#[trigger] t[i]) by {
        assert(t[i] == after[i - b - 4]);
    }
    assert forall|i: int| b + 5 <= i < f.len() implies is_blank(#[trigger] f[i]) by {
        assert(f[i] == after[i - b - 5]);
    }
    lemma_blanks_end_at(t, b + 4, after.len() as int);
    lemma_blanks_end_at(f, b + 5, after.len() as int);
}

/// A quoted `0x` literal of at most `2 * ADDRESS_LENGTH` hexadecimal digits
/// reads, as an `address` argument, as the address of those digits padded on
/// the left with zeros, two digits per byte.
pub proof fn lemma_address_argument(digits: Seq<char>)
    requires
        digits.len() <= 2 * ADDRESS_LENGTH,
        all_hex_digits(digits),
    ensures
        spec_parse_arg(Layout::Address, seq!['"', '0', 'x'] + digits + seq!['"']) == Some(
            Value::Address(decode_hex_pairs(zero_pad(digits, (2 * ADDRESS_LENGTH) as nat))),
        ),
{
    let s = seq!['"', '0', 'x'] + digits + seq!['"'];
    let n = digits.len() as int;
    assert(blanks_end(s, 0) == 0);
    assert forall|i: int| 1 <= i < 3 + n implies #[trigger] s[i] != '"' by {
        if i >= 3 {
            assert(s[i] == digits[i - 3]);
            assert(is_hex_digit(digits[i - 3]));
        }
    }
    assert(s[3 + n] == '"');
    lemma_quote_end_at(s, 1, 2 + n);
    assert(s.subrange(1, 3 + n) =~= seq!['0', 'x'] + digits);
    assert((seq!['0', 'x'] + digits).skip(2) =~= digits);
    assert(blanks_end(s, 4 + n) == 4 + n);
}

/// A quoted string of hexadecimal digit pairs, with or without `0x` before
/// them, reads, as a `vector<u8>` argument, as the bytes of those pairs, the
/// high digit first.
pub proof fn lemma_byte_vector_argument(digits: Seq<char>)
    requires
        digits.len() % 2 == 0,
        all_hex_digits(digits),
    ensures
        spec_parse_arg(Layout::Vector(Box::new(Layout::U8)), seq!['"'] + digits + seq!['"'])
            == Some(byte_vector_value(decode_hex_pairs(digits))),
        spec_parse_arg(
            Layout::Vector(Box::new(Layout::U8)),
            seq!['"', '0', 'x'] + digits + seq!['"'],
        ) == Some(byte_vector_value(decode_hex_pairs(digits))),
{
    let n = digits.len() as int;
    let s = seq!['"'] + digits + seq!['"'];
    assert(blanks_end(s, 0) == 0);
    assert forall|i: int| 1 <= i < 1 + n implies #[trigger] s[i] != '"' by {
        assert(s[i] == digits[i - 1]);
        assert(is_hex_digit(digits[i - 1]));
    }
    assert(s[1 + n] == '"');
    lemma_quote_end_at(s, 1, n);
    assert(s.subrange(1, 1 + n) =~= digits);
    if has_hex_prefix(digits) {
        assert(is_hex_digit(digits[1]));
    }
    assert(blanks_end(s, 2 + n) == 2 + n);
    let t = seq!['"', '0', 'x'] + digits + seq!['"'];
    assert(blanks_end(t, 0) == 0);
    assert forall|i: int| 1 <= i < 3 + n implies #[trigger] t[i] != '"' by {
        if i >= 3 {
            assert(t[i] == digits[i - 3]);
            assert(is_hex_digit(digits[i - 3]));
        }
    }
    assert(t[3 + n] == '"');
    lemma_quote_end_at(t, 1, 2 + n);
    assert(t.subrange(1, 3 + n) =~= seq!['0', 'x'] + digits);
    assert((seq!['0', 'x'] + digits).skip(2) =~= digits);
    assert(blanks_end(t, 4 + n) == 4 + n);
}

} // verus!
