//! Move identifiers and the byte form of module identifiers.

use vstd::prelude::*;
use crate::address::{AccountAddress, ADDRESS_LENGTH};

verus! {

/// The longest sequence that the BCS encoding writes.
pub const BCS_MAX_SEQUENCE_LENGTH: usize = 0x7fff_ffff;

/// The tag that marks a module in an access path.
pub const CODE_TAG: u8 = 0;

pub open spec fn is_ascii_letter(c: char) -> bool {
    ('a' <= c && c <= 'z') || ('A' <= c && c <= 'Z')
}

pub open spec fn is_identifier_char(c: char) -> bool {
    c == '_' || is_ascii_letter(c) || ('0' <= c && c <= '9')
}

/// A valid Move identifier: `<SELF>`, or a letter followed by letters, digits
/// and underscores, or an underscore followed by at least one of these.
pub open spec fn spec_is_valid_identifier(s: Seq<char>) -> bool {
    s == seq!['<', 'S', 'E', 'L', 'F', '>'] || (s.len() >= 1 && (is_ascii_letter(s[0]) || (s[0]
        == '_' && s.len() > 1)) && forall|i: int|
        1 <= i < s.len() ==> is_identifier_char(#[trigger] s[i]))
}

/// The characters that the bytes of an ASCII text stand for.
pub open spec fn ascii_chars(b: Seq<u8>) -> Seq<char> {
    Seq::new(b.len(), |i: int| b[i] as char)
}

/// The bytes that the characters of an ASCII text are written with.
pub open spec fn ascii_bytes(s: Seq<char>) -> Seq<u8> {
    Seq::new(s.len(), |i: int| s[i] as u8)
}

/// A valid Move identifier, given by its bytes.
pub open spec fn spec_is_valid_identifier_bytes(b: Seq<u8>) -> bool {
    (forall|i: int| 0 <= i < b.len() ==> #[trigger] b[i] < 128) && spec_is_valid_identifier(
        ascii_chars(b),
    )
}

/// The ULEB128 encoding of `n`: seven bits per byte, low bits first, the
/// high bit set on every byte but the last.
pub open spec fn spec_uleb128(n: nat) -> Seq<u8>
    decreases n,
{
    if n < 128 {
        seq![n as u8]
    } else {
        seq![(n % 128 + 128) as u8] + spec_uleb128(n / 128)
    }
}

/// The BCS encoding of a module identifier: the address bytes, then the
/// length of the name and the name's bytes.
pub open spec fn spec_module_id_bytes(address: Seq<u8>, name: Seq<char>) -> Seq<u8> {
    address + spec_uleb128(ascii_bytes(name).len()) + ascii_bytes(name)
}

/// Reads a ULEB128 number at the front of `b`: its value and how many bytes
/// it takes up.
pub open spec fn spec_decode_uleb128(b: Seq<u8>) -> Option<(nat, nat)>
    decreases b.len(),
{
    if b.len() == 0 {
        None
    } else if b[0] < 128 {
        Some((b[0] as nat, 1))
    } else {
        match spec_decode_uleb128(b.drop_first()) {
            Some((v, k)) => Some(((b[0] - 128) as nat + 128 * v, k + 1)),
            None => None,
        }
    }
}

/// Reads the BCS encoding of a module identifier: the address bytes and the
/// bytes of the name, when the name's length prefix matches the rest of `b`
/// and the name is ASCII.
pub open spec fn spec_decode_module_id(b: Seq<u8>) -> Option<(Seq<u8>, Seq<char>)> {
    if b.len() < ADDRESS_LENGTH {
        None
    } else {
        match spec_decode_uleb128(b.skip(ADDRESS_LENGTH as int)) {
            Some((len, k)) => {
                let name = b.skip(ADDRESS_LENGTH + k);
                if name.len() == len && forall|i: int| 0 <= i < name.len() ==> #[trigger] name[i] < 128 {
                    Some((b.take(ADDRESS_LENGTH as int), ascii_chars(name)))
                } else {
                    None
                }
            },
            None => None,
        }
    }
}

/// Reading a ULEB128 number back gives the number and the length of its
/// encoding, whatever follows it.
pub proof fn lemma_uleb128_roundtrip(n: nat, rest: Seq<u8>)
    ensures
        spec_decode_uleb128(spec_uleb128(n) + rest) == Some((n, spec_uleb128(n).len())),
    decreases n,
{
    let e = spec_uleb128(n);
    if n < 128 {
        assert((e + rest)[0] == n as u8);
    } else {
        lemma_uleb128_roundtrip(n / 128, rest);
        let first = (n % 128 + 128) as u8;
        assert((e + rest)[0] == first);
        assert((e + rest).drop_first() =~= spec_uleb128(n / 128) + rest);
        assert(first as nat == n % 128 + 128);
        assert(n == n % 128 + 128 * (n / 128)) by (nonlinear_arith);
    }
}

/// Decoding the bytes of a module identifier gives back its address and its
/// name.
pub proof fn lemma_module_id_roundtrip(address: Seq<u8>, name: Seq<char>)
    requires
        address.len() == ADDRESS_LENGTH,
        spec_is_valid_identifier(name),
    ensures
        spec_decode_module_id(spec_module_id_bytes(address, name)) == Some((address, name)),
{
    let nb = ascii_bytes(name);
    let b = spec_module_id_bytes(address, name);
    let u = spec_uleb128(nb.len());
    assert(b.skip(ADDRESS_LENGTH as int) =~= u + nb);
    lemma_uleb128_roundtrip(nb.len(), nb);
    assert(b.skip(ADDRESS_LENGTH + u.len()) =~= nb);
    assert(b.take(ADDRESS_LENGTH as int) =~= address);
    assert forall|i: int| 0 <= i < name.len() implies (name[i] as int) < 128 by {
        if name =~= seq!['<', 'S', 'E', 'L', 'F', '>'] {
        } else if i > 0 {
            assert(is_identifier_char(name[i]));
        }
    }
    assert forall|i: int| 0 <= i < nb.len() implies #[trigger] nb[i] < 128 && (nb[i] as char) == name[i] by {
        assert((name[i] as int) < 128);
    }
    assert(ascii_chars(nb) =~= name);
}

/// Calls `move_core_types::identifier::Identifier::new`, which accepts a
/// text exactly when `is_valid` holds of it: a letter, or an underscore and at
/// least one more character, followed by letters, digits and underscores; or
/// `<SELF>`. The identifier keeps the text.
#[verifier::external_body]
pub(crate) fn identifier_new(s: &str) -> (r: Option<String>)
    ensures
        r is Some <==> spec_is_valid_identifier(s@),
        r matches Some(id) ==> id@ == s@,
{
    match move_core_types::identifier::Identifier::new(s) {
        Ok(id) => Some(id.into_string()),
        Err(_) => None,
    }
}

/// Calls `move_core_types::identifier::Identifier::from_utf8`, which reads
/// the bytes as UTF-8 and then checks the text as `Identifier::new` does; a
/// valid identifier is ASCII, so this accepts exactly the byte strings that
/// spell one.
#[verifier::external_body]
pub(crate) fn identifier_from_utf8(bytes: Vec<u8>) -> (r: Option<String>)
    ensures
        r is Some <==> spec_is_valid_identifier_bytes(bytes@),
        r matches Some(id) ==> id@ == ascii_chars(bytes@),
{
    match move_core_types::identifier::Identifier::from_utf8(bytes) {
        Ok(id) => Some(id.into_string()),
        Err(_) => None,
    }
}

/// Calls `bcs::to_bytes` on the pair of the address bytes and the name,
/// which BCS writes as a module identifier is written: the bytes of the
/// fixed-size array one after the other, then the name as a sequence, its
/// byte length in ULEB128 before its bytes. BCS refuses only sequences longer
/// than `BCS_MAX_SEQUENCE_LENGTH`, which `requires` leaves out.
#[verifier::external_body]
pub(crate) fn bcs_module_id(address: &AccountAddress, name: &str) -> (r: Vec<u8>)
    requires
        address@.len() == ADDRESS_LENGTH,
        spec_is_valid_identifier(name@),
        name@.len() <= BCS_MAX_SEQUENCE_LENGTH,
    ensures
        r@ == spec_module_id_bytes(address@, name@),
{
    let mut bytes = [0u8; ADDRESS_LENGTH];
    bytes.copy_from_slice(&address.bytes);
    bcs::to_bytes(&(bytes, name)).unwrap()
}

/// The access path of a module: `CODE_TAG`, then the module identifier's
/// BCS encoding.
pub fn module_access_vector(address: &AccountAddress, name: &str) -> (r: Vec<u8>)
    requires
        address@.len() == ADDRESS_LENGTH,
        spec_is_valid_identifier(name@),
        name@.len() <= BCS_MAX_SEQUENCE_LENGTH,
    ensures
        r@ == seq![CODE_TAG] + spec_module_id_bytes(address@, name@),
{
    let id = bcs_module_id(address, name);
    let mut key: Vec<u8> = Vec::new();
    key.push(CODE_TAG);
    let mut i: usize = 0;
    while i < id.len()
        invariant
            i <= id@.len(),
            key@ == seq![CODE_TAG] + id@.subrange(0, i as int),
        decreases id@.len() - i,
    {
        key.push(id[i]);
        i = i + 1;
        assert(key@ =~= seq![CODE_TAG] + id@.subrange(0, i as int));
    }
    assert(id@.subrange(0, id@.len() as int) =~= id@);
    key
}

} // verus!
