//! Transaction signers and how they are named in call arguments.

use vstd::prelude::*;
use crate::address::AccountAddress;
use crate::text::str_eq;
use vstd::utf8::is_ascii_chars;

verus! {

/// A signer of a transaction.
#[derive(Debug, PartialEq, Eq)]
pub enum Signer {
    /// The root account.
    Root,
    /// A signer to be filled in later.
    Placeholder,
    /// A signer given by name.
    Name(String),
}

/// Model of a `Signer`.
pub enum SignerView {
    Root,
    Placeholder,
    Name(Seq<char>),
}

impl View for Signer {
    type V = SignerView;

    open spec fn view(&self) -> SignerView {
        match self {
            Signer::Root => SignerView::Root,
            Signer::Placeholder => SignerView::Placeholder,
            Signer::Name(n) => SignerView::Name(n@),
        }
    }
}

/// The models of a sequence of signers.
pub open spec fn signers_view(s: Seq<Signer>) -> Seq<SignerView> {
    Seq::new(s.len(), |i: int| s[i]@)
}

/// The signers of a function call, either given as addresses or as signers.
#[derive(Debug, PartialEq, Eq)]
pub enum Signers {
    Explicit(Vec<AccountAddress>),
    Implicit(Vec<Signer>),
}

impl Signers {
    /// The number of signers.
    pub fn len(&self) -> (n: usize)
        ensures
            n == match self {
                Signers::Explicit(v) => v@.len(),
                Signers::Implicit(v) => v@.len(),
            },
    {
        match self {
            Signers::Explicit(v) => v.len(),
            Signers::Implicit(v) => v.len(),
        }
    }
}

/// What `str::to_lowercase` gives for a text.
pub uninterp spec fn spec_to_lowercase(s: Seq<char>) -> Seq<char>;

/// A character in ASCII lower case: `A` to `Z` become `a` to `z`, every
/// other character stays as it is.
pub open spec fn ascii_lower_char(c: char) -> char {
    if 'A' <= c <= 'Z' {
        ((c as u32) + 32) as char
    } else {
        c
    }
}

/// A text with each character in ASCII lower case.
pub open spec fn ascii_lowercase(s: Seq<char>) -> Seq<char> {
    s.map_values(|c: char| ascii_lower_char(c))
}

/// Calls `str::to_lowercase`. The result is named: it is the lowercase
/// mapping that the standard library defines by Unicode's tables. Of those
/// tables the contract states only the ASCII part, where Unicode maps `A` to
/// `Z` to `a` to `z` and keeps every other character.
#[verifier::external_body]
fn to_lowercase(s: &str) -> (res: String)
    ensures
        res@ == spec_to_lowercase(s@),
        is_ascii_chars(s@) ==> res@ == ascii_lowercase(s@),
{
    s.to_lowercase()
}

/// The signer that a call argument names, given the argument in lower case
/// and as written: `root`, `rt` and `dr` name the root account, `_` a
/// placeholder, anything else a signer of that name.
pub open spec fn spec_signer_of(lowered: Seq<char>, written: Seq<char>) -> SignerView {
    if lowered == seq!['r', 'o', 'o', 't'] || lowered == seq!['r', 't'] || lowered == seq!['d', 'r'] {
        SignerView::Root
    } else if lowered == seq!['_'] {
        SignerView::Placeholder
    } else {
        SignerView::Name(written)
    }
}

/// The signer that an argument names, from its lower-case form `lowered`
/// and its text as written, `written`.
pub fn classify_signer(lowered: &str, written: &str) -> (s: Signer)
    ensures
        s@ == spec_signer_of(lowered@, written@),
{
    proof {
        reveal_strlit("root");
        reveal_strlit("rt");
        reveal_strlit("dr");
        reveal_strlit("_");
        assert("root"@ =~= seq!['r', 'o', 'o', 't']);
        assert("rt"@ =~= seq!['r', 't']);
        assert("dr"@ =~= seq!['d', 'r']);
        assert("_"@ =~= seq!['_']);
    }
    if str_eq(lowered, "root") || str_eq(lowered, "rt") || str_eq(lowered, "dr") {
        Signer::Root
    } else if str_eq(lowered, "_") {
        Signer::Placeholder
    } else {
        Signer::Name(String::from_str(written))
    }
}

/// The signer that a call argument names; the name is compared without
/// regard to case. Never `None`.
pub fn from_str(s: &str) -> (r: Option<Signer>)
    ensures
        r matches Some(signer) && signer@ == spec_signer_of(spec_to_lowercase(s@), s@),
        is_ascii_chars(s@) ==> (r matches Some(signer) && signer@ == spec_signer_of(
            ascii_lowercase(s@),
            s@,
        )),
{
    let lowered = to_lowercase(s);
    Some(classify_signer(lowered.as_str(), s))
}

} // verus!
