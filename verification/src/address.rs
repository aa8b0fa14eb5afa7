//! Account addresses and their hexadecimal literal form.

use vstd::prelude::*;
use sp_core::crypto::Ss58Codec;
use crate::hex::{all_hex_digits, decode_hex_pairs, decode_hex_range, is_hex_digit, zero_pad};
use crate::text::{chars_of, has_hex_prefix};

verus! {

/// Number of bytes in an account address.
pub const ADDRESS_LENGTH: usize = 32;

/// An account address: `ADDRESS_LENGTH` bytes.
#[derive(Clone, Debug, PartialEq, Eq)]
pub struct AccountAddress {
    pub bytes: Vec<u8>,
}

impl View for AccountAddress {
    type V = Seq<u8>;

    open spec fn view(&self) -> Seq<u8> {
        self.bytes@
    }
}

/// Failure to read an account address from text or bytes.
#[derive(Clone, Copy, Debug, PartialEq, Eq)]
pub struct AccountAddressParseError;

/// The address that a hexadecimal literal denotes: `0x` followed by at most
/// `2 * ADDRESS_LENGTH` hexadecimal digits, read as a big-endian number that
/// is padded on the left with zero digits.
pub open spec fn spec_hex_literal_address(s: Seq<char>) -> Option<Seq<u8>> {
    let digits = s.skip(2);
    if has_hex_prefix(s) && digits.len() <= 2 * ADDRESS_LENGTH && all_hex_digits(digits) {
        Some(decode_hex_pairs(zero_pad(digits, (2 * ADDRESS_LENGTH) as nat)))
    } else {
        None
    }
}

/// An address literal always denotes `ADDRESS_LENGTH` bytes.
pub proof fn lemma_hex_literal_length(s: Seq<char>)
    requires
        spec_hex_literal_address(s) is Some,
    ensures
        spec_hex_literal_address(s).unwrap().len() == ADDRESS_LENGTH,
{
}

/// Leading zero digits do not change the address a literal denotes: `0x`
/// followed by `digits` denotes the same address as `0x0` followed by
/// `digits`, as long as the longer literal is not too long.
pub proof fn lemma_hex_literal_leading_zero(digits: Seq<char>)
    requires
        digits.len() < 2 * ADDRESS_LENGTH,
    ensures
        spec_hex_literal_address(seq!['0', 'x'] + digits) == spec_hex_literal_address(
            seq!['0', 'x', '0'] + digits,
        ),
{
    let short = seq!['0', 'x'] + digits;
    let long = seq!['0', 'x', '0'] + digits;
    let zd = seq!['0'] + digits;
    assert(short.skip(2) =~= digits);
    assert(long.skip(2) =~= zd);
    let w = (2 * ADDRESS_LENGTH) as nat;
    assert(zero_pad(digits, w) =~= zero_pad(zd, w));
    if all_hex_digits(digits) {
        assert forall|i: int| 0 <= i < zd.len() implies is_hex_digit(#[trigger] zd[i]) by {
            if i > 0 {
                assert(zd[i] == digits[i - 1]);
            }
        }
    }
    if all_hex_digits(zd) {
        assert forall|i: int| 0 <= i < digits.len() implies is_hex_digit(#[trigger] digits[i]) by {
            assert(zd[i + 1] == digits[i]);
        }
    }
}

impl AccountAddress {
    /// The address with the given bytes, when there are `ADDRESS_LENGTH` of
    /// them.
    pub fn from_bytes(bytes: Vec<u8>) -> (r: Result<AccountAddress, AccountAddressParseError>)
        ensures
            r is Ok <==> bytes@.len() == ADDRESS_LENGTH,
            r matches Ok(a) ==> a@ == bytes@,
    {
        if bytes.len() == ADDRESS_LENGTH {
            Ok(AccountAddress { bytes })
        } else {
            Err(AccountAddressParseError)
        }
    }

    /// The bytes of the address.
    pub fn to_vec(&self) -> (v: Vec<u8>)
        ensures
            v@ == self@,
    {
        let mut v: Vec<u8> = Vec::new();
        let mut i: usize = 0;
        while i < self.bytes.len()
            invariant
                i <= self.bytes@.len(),
                v@ == self.bytes@.subrange(0, i as int),
            decreases self.bytes@.len() - i,
        {
            v.push(self.bytes[i]);
            i = i + 1;
            assert(v@ =~= self.bytes@.subrange(0, i as int));
        }
        assert(v@ =~= self.bytes@);
        v
    }

    /// Reads an address written as `0x` and up to `2 * ADDRESS_LENGTH`
    /// hexadecimal digits; fewer digits stand for the low-order bytes.
    pub fn from_hex_literal(literal: &str) -> (r: Result<AccountAddress, AccountAddressParseError>)
        ensures
            match r {
                Ok(a) => spec_hex_literal_address(literal@) == Some(a@) && a@.len() == ADDRESS_LENGTH,
                Err(_) => spec_hex_literal_address(literal@) is None,
            },
    {
        let chars = chars_of(literal);
        let r = Self::from_hex_literal_chars(&chars, 0, chars.len());
        assert(chars@.subrange(0, chars@.len() as int) =~= literal@);
        r
    }

    /// Reads an address from the hexadecimal literal `chars[start..end]`.
    pub fn from_hex_literal_chars(chars: &Vec<char>, start: usize, end: usize) -> (r: Result<
        AccountAddress,
        AccountAddressParseError,
    >)
        requires
            start <= end <= chars@.len(),
        ensures
            match r {
                Ok(a) => spec_hex_literal_address(chars@.subrange(start as int, end as int)) == Some(a@)
                    && a@.len() == ADDRESS_LENGTH,
                Err(_) => spec_hex_literal_address(chars@.subrange(start as int, end as int)) is None,
            },
    {
        let ghost lit = chars@.subrange(start as int, end as int);
        if end - start < 2 || chars[start] != '0' || chars[start + 1] != 'x' {
            return Err(AccountAddressParseError);
        }
        let ghost digits = lit.skip(2);
        if end - start - 2 > 2 * ADDRESS_LENGTH {
            return Err(AccountAddressParseError);
        }
        let width: usize = 2 * ADDRESS_LENGTH;
        let fill: usize = width - (end - start - 2);
        let mut padded: Vec<char> = Vec::new();
        let mut i: usize = 0;
        while i < fill
            invariant
                i <= fill,
                padded@.len() == i,
                forall|j: int| 0 <= j < i ==> padded@[j] == '0',
            decreases fill - i,
        {
            padded.push('0');
            i = i + 1;
        }
        let mut k: usize = start + 2;
        while k < end
            invariant
                start + 2 <= k <= end <= chars@.len(),
                padded@.len() == fill + (k - start - 2),
                forall|j: int| 0 <= j < fill ==> padded@[j] == '0',
                forall|j: int|
                    fill <= j < padded@.len() ==> padded@[j] == chars@[j - fill + start + 2],
            decreases end - k,
        {
            padded.push(chars[k]);
            k = k + 1;
        }
        let ghost z = zero_pad(digits, width as nat);
        assert(padded@ =~= z);
        assert(padded@.subrange(0, width as int) =~= z);
        assert(all_hex_digits(z) <==> all_hex_digits(digits)) by {
            if all_hex_digits(digits) {
                assert forall|j: int| 0 <= j < z.len() implies is_hex_digit(#[trigger] z[j]) by {
                    if j >= fill {
                        assert(z[j] == digits[j - fill]);
                    }
                }
            }
            if all_hex_digits(z) {
                assert forall|j: int| 0 <= j < digits.len() implies is_hex_digit(
                    #[trigger] digits[j],
                ) by {
                    assert(z[j + fill] == digits[j]);
                }
            }
        }
        match decode_hex_range(&padded, 0, width) {
            Some(bytes) => Ok(AccountAddress { bytes }),
            None => Err(AccountAddressParseError),
        }
    }
}


/// The public key that `sp_core`'s SS58 decoding of an sr25519 key yields
/// for a text, if it accepts it.
pub uninterp spec fn spec_ss58_sr25519_public(s: Seq<char>) -> Option<Seq<u8>>;

/// Calls `sp_core::crypto::Ss58Codec::from_ss58check_with_version` for an
/// sr25519 public key and keeps the key's bytes. The decoding (base58, the
/// address format prefix, the checksum) is named, not described; the key it
/// yields is 32 bytes long.
#[verifier::external_body]
pub(crate) fn ss58_sr25519_public(s: &str) -> (r: Option<Vec<u8>>)
    ensures
        match r {
            Some(key) => spec_ss58_sr25519_public(s@) == Some(key@),
            None => spec_ss58_sr25519_public(s@) is None,
        },
        r matches Some(key) ==> key@.len() == 32,
{
    match sp_core::sr25519::Public::from_ss58check_with_version(s) {
        Ok((public, _)) => Some(public.0.to_vec()),
        Err(_) => None,
    }
}

} // verus!
