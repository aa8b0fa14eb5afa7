//! Reading a submission request: the byte strings that name the function to
//! call, its type parameters and its arguments.

use vstd::prelude::*;
use vstd::utf8::{decode_utf8, encode_utf8, valid_utf8};
use crate::address::AccountAddress;
use crate::arg_parse::strings_view;
use crate::fn_call::{spec_pontem_address, submission_target};
use crate::module_id::{
    spec_decode_module_id, spec_is_valid_identifier, spec_module_id_bytes, BCS_MAX_SEQUENCE_LENGTH,
};
use crate::text::{lemma_utf8_text, utf8_text};

verus! {

/// Why the byte strings of a submission do not name a function call.
#[derive(Debug, PartialEq, Eq)]
pub enum SubmissionError {
    /// A part of the function's name is not UTF-8 text.
    FunctionNotText,
    /// Fewer than three parts: the owner's address, the module and the
    /// function.
    MissingParts,
    /// The address does not parse, or the module's name is no identifier.
    InvalidTarget,
    /// A type parameter or an argument is not UTF-8 text.
    ArgumentNotText,
}

/// A submission, read: the module's identifier in BCS, its owner and the
/// texts of the names, type parameters and arguments.
pub struct Submission {
    pub module_id: Vec<u8>,
    pub owner: AccountAddress,
    pub module_name: String,
    pub function_name: String,
    pub type_parameters: Vec<String>,
    pub arguments: Vec<String>,
}

/// The bytes of each byte string.
pub open spec fn bytes_view(parts: Seq<Vec<u8>>) -> Seq<Seq<u8>> {
    Seq::new(parts.len(), |i: int| parts[i]@)
}

/// Whether every byte string is valid UTF-8.
pub open spec fn all_utf8(parts: Seq<Seq<u8>>) -> bool {
    forall|i: int| 0 <= i < parts.len() ==> valid_utf8(#[trigger] parts[i])
}

/// The text of each byte string.
pub open spec fn utf8_texts(parts: Seq<Seq<u8>>) -> Seq<Seq<char>> {
    Seq::new(parts.len(), |i: int| decode_utf8(parts[i]))
}

/// The first failure of a submission, checked in this order: the function's
/// parts are text, there are at least three of them, the first is an address
/// and the second an identifier, the type parameters and arguments are text.
pub open spec fn submission_error(
    function: Seq<Seq<u8>>,
    type_parameters: Seq<Seq<u8>>,
    arguments: Seq<Seq<u8>>,
) -> Option<SubmissionError> {
    if !all_utf8(function) {
        Some(SubmissionError::FunctionNotText)
    } else if function.len() < 3 {
        Some(SubmissionError::MissingParts)
    } else if spec_pontem_address(decode_utf8(function[0])) is None || !spec_is_valid_identifier(
        decode_utf8(function[1]),
    ) {
        Some(SubmissionError::InvalidTarget)
    } else if !all_utf8(type_parameters) || !all_utf8(arguments) {
        Some(SubmissionError::ArgumentNotText)
    } else {
        None
    }
}

/// Reads each byte string as UTF-8 text; `None` when one is not.
fn texts_of(parts: &Vec<Vec<u8>>) -> (r: Option<Vec<String>>)
    ensures
        r is Some <==> all_utf8(bytes_view(parts@)),
        r matches Some(v) ==> {
            &&& strings_view(v@) == utf8_texts(bytes_view(parts@))
            &&& forall|i: int| 0 <= i < v@.len() ==> encode_utf8(#[trigger] v@[i]@) == parts@[i]@
        },
{
    let ghost bytes = bytes_view(parts@);
    let mut texts: Vec<String> = Vec::new();
    let mut i: usize = 0;
    while i < parts.len()
        invariant
            bytes == bytes_view(parts@),
            i <= parts@.len(),
            texts@.len() == i,
            forall|j: int| 0 <= j < i ==> valid_utf8(#[trigger] bytes[j]),
            forall|j: int| 0 <= j < i ==> encode_utf8(#[trigger] texts@[j]@) == parts@[j]@,
            forall|j: int| 0 <= j < i ==> #[trigger] texts@[j]@ == decode_utf8(bytes[j]),
        decreases parts@.len() - i,
    {
        let part = vstd::slice::slice_to_vec(parts[i].as_slice());
        match utf8_text(part) {
            Some(s) => {
                proof {
                    lemma_utf8_text(s@, bytes[i as int]);
                }
                texts.push(s);
            },
            None => {
                assert(!valid_utf8(bytes[i as int]));
                return None;
            },
        }
        i = i + 1;
    }
    assert(strings_view(texts@) =~= utf8_texts(bytes));
    Some(texts)
}

/// Reads a submission from its byte strings: `function` holds the owner's
/// address, the module's name and the function's name. It fails with the
/// first failure that `submission_error` names; otherwise it gives what
/// `submission_target` gives for the texts of `function`, and the texts of
/// the type parameters and arguments.
pub fn submission_from_bytes(
    function: Vec<Vec<u8>>,
    type_parameters: Vec<Vec<u8>>,
    arguments: Vec<Vec<u8>>,
) -> (r: Result<Submission, SubmissionError>)
    requires
        function@.len() >= 2 ==> function@[1]@.len() <= BCS_MAX_SEQUENCE_LENGTH,
    ensures
        r is Err <==> submission_error(
            bytes_view(function@),
            bytes_view(type_parameters@),
            bytes_view(arguments@),
        ) is Some,
        r matches Err(e) ==> submission_error(
            bytes_view(function@),
            bytes_view(type_parameters@),
            bytes_view(arguments@),
        ) == Some(e),
        r matches Ok(s) ==> {
            let parts = utf8_texts(bytes_view(function@));
            &&& spec_pontem_address(parts[0]) == Some(s.owner@)
            &&& spec_is_valid_identifier(parts[1])
            &&& s.module_id@ == spec_module_id_bytes(s.owner@, parts[1])
            &&& spec_decode_module_id(s.module_id@) == Some((s.owner@, parts[1]))
            &&& s.module_name@ == parts[1]
            &&& s.function_name@ == parts[2]
            &&& strings_view(s.type_parameters@) == utf8_texts(bytes_view(type_parameters@))
            &&& strings_view(s.arguments@) == utf8_texts(bytes_view(arguments@))
        },
{
    let ghost fb = bytes_view(function@);
    let ghost tb = bytes_view(type_parameters@);
    let ghost ab = bytes_view(arguments@);
    let parts = match texts_of(&function) {
        Some(p) => p,
        None => {
            return Err(SubmissionError::FunctionNotText);
        },
    };
    assert(strings_view(parts@).len() == fb.len());
    if parts.len() < 3 {
        return Err(SubmissionError::MissingParts);
    }
    assert(parts@[0]@ == decode_utf8(fb[0]) && parts@[1]@ == decode_utf8(fb[1]) && parts@[2]@
        == decode_utf8(fb[2])) by {
        let views = strings_view(parts@);
        assert(views == utf8_texts(fb));
        assert(views[0] == parts@[0]@ && views[1] == parts@[1]@ && views[2] == parts@[2]@);
        assert(utf8_texts(fb)[0] == decode_utf8(fb[0]));
        assert(utf8_texts(fb)[1] == decode_utf8(fb[1]));
        assert(utf8_texts(fb)[2] == decode_utf8(fb[2]));
    }
    proof {
        lemma_utf8_text(parts@[1]@, function@[1]@);
    }
    let (module_id, owner, module_name, function_name) = match submission_target(parts.as_slice()) {
        Ok(target) => target,
        Err(_) => {
            return Err(SubmissionError::InvalidTarget);
        },
    };
    let type_texts = match texts_of(&type_parameters) {
        Some(t) => t,
        None => {
            return Err(SubmissionError::ArgumentNotText);
        },
    };
    let argument_texts = match texts_of(&arguments) {
        Some(t) => t,
        None => {
            return Err(SubmissionError::ArgumentNotText);
        },
    };
    Ok(
        Submission {
            module_id,
            owner,
            module_name,
            function_name,
            type_parameters: type_texts,
            arguments: argument_texts,
        },
    )
}

} // verus!
