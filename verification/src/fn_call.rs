//! Preparing script function calls: addresses, module identifiers, signers
//! and argument values.

use vstd::prelude::*;
use vstd::utf8::{encode_utf8, is_ascii_chars, is_ascii_chars_encode_utf8};
use crate::address::{
    spec_hex_literal_address, spec_ss58_sr25519_public, ss58_sr25519_public, AccountAddress,
    ADDRESS_LENGTH,
};
use crate::arg_parse::{
    convert_error_message, first_unreadable, has_layout, lemma_parse_arg_has_layout, spec_convert_args, spec_parse_arg,
    strings_view,
    ConvertError, MoveConverter,
};
use crate::hex::{all_hex_digits, decode_hex_pairs, is_hex_digit, zero_pad};
use crate::info::{find_script_function, first_script_index, CompiledModule, FunctionDefInfo};
use crate::module_id::{
    ascii_chars, bcs_module_id, identifier_from_utf8, identifier_new, module_access_vector,
    lemma_module_id_roundtrip, spec_decode_module_id, spec_is_valid_identifier,
    spec_is_valid_identifier_bytes, spec_module_id_bytes,
    BCS_MAX_SEQUENCE_LENGTH, CODE_TAG,
};
use crate::signer::{
    from_str, signers_view, spec_signer_of, spec_to_lowercase, Signer, SignerView, Signers,
};
use crate::text::{
    debug_text, decimal_string, has_hex_prefix, spec_debug_text, spec_decimal, starts_with_hex_prefix,
};
use crate::value::{layouts_view, values_view, Layout, MoveValue, TypeLayout, Value};

verus! {

/// The longest hexadecimal address literal: `0x` and two digits per byte.
pub const MAX_HEX_ADDRESS_LENGTH: usize = 2 * ADDRESS_LENGTH + 2;

/// Why a text does not give an account address.
#[derive(Debug, PartialEq, Eq)]
pub enum AddressError {
    /// A hexadecimal literal longer than `max` bytes.
    TooLong { max: usize, actual: String },
    /// Not a valid hexadecimal address literal.
    InvalidHex { address: String },
    /// Not a valid SS58 encoding of an sr25519 public key.
    InvalidSs58 { address: String },
    /// No address of that name is known.
    UnknownName { name: String },
}

/// The text that describes an address failure. A rejected address stands in
/// it as its `Debug` rendering: quoted, with escapes.
pub open spec fn address_error_message(e: AddressError) -> Seq<char> {
    match e {
        AddressError::TooLong { max, actual } => "Unable to parse AccountAddress. Maximum address length is "@
            + spec_decimal(max as nat) + ".  Actual "@ + actual@,
        AddressError::InvalidHex { address } => "Address "@ + spec_debug_text(address@)
            + " is not a valid diem/pont address"@,
        AddressError::InvalidSs58 { address } => "Address "@ + spec_debug_text(address@)
            + " is not a valid SS58 address"@,
        AddressError::UnknownName { name } => "Failed to find address with name:"@ + name@,
    }
}

impl AddressError {
    /// A text that describes the failure.
    pub fn message(&self) -> (m: String)
        ensures
            m@ == address_error_message(*self),
    {
        match self {
            AddressError::TooLong { max, actual } => {
                let mut m = String::from_str(
                    "Unable to parse AccountAddress. Maximum address length is ",
                );
                m.append(decimal_string(*max).as_str());
                m.append(".  Actual ");
                m.append(actual.as_str());
                m
            },
            AddressError::InvalidHex { address } => {
                let mut m = String::from_str("Address ");
                m.append(debug_text(address.as_str()).as_str());
                m.append(" is not a valid diem/pont address");
                m
            },
            AddressError::InvalidSs58 { address } => {
                let mut m = String::from_str("Address ");
                m.append(debug_text(address.as_str()).as_str());
                m.append(" is not a valid SS58 address");
                m
            },
            AddressError::UnknownName { name } => {
                let mut m = String::from_str("Failed to find address with name:");
                m.append(name.as_str());
                m
            },
        }
    }
}

/// The address that a text denotes: an SS58-encoded sr25519 public key when
/// it does not start with `0x`, else a hexadecimal literal of at most
/// `MAX_HEX_ADDRESS_LENGTH` bytes.
pub open spec fn spec_pontem_address(s: Seq<char>) -> Option<Seq<u8>> {
    if !has_hex_prefix(s) {
        spec_ss58_sr25519_public(s)
    } else if encode_utf8(s).len() > MAX_HEX_ADDRESS_LENGTH {
        None
    } else {
        spec_hex_literal_address(s)
    }
}

/// Every `0x` text of at most `MAX_HEX_ADDRESS_LENGTH` bytes reads as the
/// hexadecimal literal it is: the length limit refuses nothing shorter, so
/// a full-length address of `2 * ADDRESS_LENGTH` digits is accepted.
pub proof fn lemma_pontem_hex_address(s: Seq<char>)
    requires
        has_hex_prefix(s),
        encode_utf8(s).len() <= MAX_HEX_ADDRESS_LENGTH,
    ensures
        spec_pontem_address(s) == spec_hex_literal_address(s),
{
}

/// `0x` followed by at most `2 * ADDRESS_LENGTH` hexadecimal digits reads as
/// the address of those digits, padded on the left with zeros, two digits
/// per byte.
pub proof fn lemma_hex_digits_address(digits: Seq<char>)
    requires
        digits.len() <= 2 * ADDRESS_LENGTH,
        all_hex_digits(digits),
    ensures
        spec_pontem_address(seq!['0', 'x'] + digits) == Some(
            decode_hex_pairs(zero_pad(digits, (2 * ADDRESS_LENGTH) as nat)),
        ),
{
    let s = seq!['0', 'x'] + digits;
    assert(s.skip(2) =~= digits);
    assert(is_ascii_chars(s)) by {
        assert forall|i: int| 0 <= i < s.len() implies '\0' <= #[trigger] s[i] <= '\u{7f}' by {
            if i >= 2 {
                assert(s[i] == digits[i - 2]);
                assert(is_hex_digit(digits[i - 2]));
            }
        }
    }
    is_ascii_chars_encode_utf8(s);
    lemma_pontem_hex_address(s);
}

/// The address of an account, from the SCALE encoding of its identifier: the
/// 32 bytes of its public key.
pub fn account_to_account_address(account: &[u8]) -> (a: AccountAddress)
    requires
        account@.len() == ADDRESS_LENGTH,
    ensures
        a@ == account@,
{
    let mut bytes: Vec<u8> = Vec::new();
    let mut i: usize = 0;
    while i < account.len()
        invariant
            i <= account@.len(),
            bytes@ == account@.subrange(0, i as int),
        decreases account@.len() - i,
    {
        bytes.push(account[i]);
        i = i + 1;
        assert(bytes@ =~= account@.subrange(0, i as int));
    }
    assert(bytes@ =~= account@);
    AccountAddress { bytes }
}

/// Reads an account address: an SS58-encoded sr25519 public key, or `0x`
/// and hexadecimal digits.
pub fn pontem_parse_address(addr: &str) -> (r: Result<AccountAddress, AddressError>)
    ensures
        match r {
            Ok(a) => spec_pontem_address(addr@) == Some(a@) && a@.len() == ADDRESS_LENGTH,
            Err(AddressError::TooLong { max, actual }) => has_hex_prefix(addr@) && max
                == MAX_HEX_ADDRESS_LENGTH && encode_utf8(addr@).len() > max && actual@ == addr@,
            Err(AddressError::InvalidHex { address }) => has_hex_prefix(addr@)
                && encode_utf8(addr@).len() <= MAX_HEX_ADDRESS_LENGTH && spec_pontem_address(
                addr@,
            ) is None && address@ == addr@,
            Err(AddressError::InvalidSs58 { address }) => !has_hex_prefix(addr@)
                && spec_pontem_address(addr@) is None && address@ == addr@,
            Err(AddressError::UnknownName { .. }) => false,
        },
{
    if !starts_with_hex_prefix(addr) {
        match ss58_sr25519_public(addr) {
            Some(key) => Ok(account_to_account_address(key.as_slice())),
            None => Err(AddressError::InvalidSs58 { address: String::from_str(addr) }),
        }
    } else {
        if addr.as_bytes().len() > MAX_HEX_ADDRESS_LENGTH {
            return Err(
                AddressError::TooLong {
                    max: MAX_HEX_ADDRESS_LENGTH,
                    actual: String::from_str(addr),
                },
            );
        }
        match AccountAddress::from_hex_literal(addr) {
            Ok(a) => Ok(a),
            Err(_) => Err(AddressError::InvalidHex { address: String::from_str(addr) }),
        }
    }
}

/// Reads an account address as `pontem_parse_address` does; any failure is
/// reported as an unknown name.
pub fn parse_address(arg_value: &str) -> (r: Result<AccountAddress, AddressError>)
    ensures
        match r {
            Ok(a) => spec_pontem_address(arg_value@) == Some(a@),
            Err(AddressError::UnknownName { name }) => spec_pontem_address(arg_value@) is None
                && name@ == arg_value@,
            Err(_) => false,
        },
{
    match pontem_parse_address(arg_value) {
        Ok(addr) => Ok(addr),
        Err(_) => Err(AddressError::UnknownName { name: String::from_str(arg_value) }),
    }
}

/// The address `0xA550C18`.
pub fn diem_root_address() -> (a: AccountAddress)
    ensures
        spec_hex_literal_address("0xA550C18"@) == Some(a@),
{
    proof {
        reveal_strlit("0xA550C18");
        assert(crate::hex::all_hex_digits("0xA550C18"@.skip(2)));
    }
    match AccountAddress::from_hex_literal("0xA550C18") {
        Ok(a) => a,
        Err(_) => {
            assert(false);
            AccountAddress { bytes: Vec::new() }
        },
    }
}

/// Reads the owner address and the module name of a function, and gives
/// the BCS encoding of the module's identifier and the owner address. An
/// address or a module name that cannot be read gives an empty error.
pub fn parse_function_string(addr: &String, module: &String) -> (r: Result<
    (Option<Vec<u8>>, AccountAddress),
    Vec<u8>,
>)
    requires
        module@.len() <= BCS_MAX_SEQUENCE_LENGTH,
    ensures
        match r {
            Ok((id, owner)) => {
                &&& spec_pontem_address(addr@) == Some(owner@)
                &&& spec_is_valid_identifier(module@)
                &&& id matches Some(bytes)
                &&& bytes@ == spec_module_id_bytes(owner@, module@)
                &&& spec_decode_module_id(bytes@) == Some((owner@, module@))
            },
            Err(e) => e@.len() == 0 && (spec_pontem_address(addr@) is None
                || !spec_is_valid_identifier(module@)),
        },
{
    let owner_address = match pontem_parse_address(addr.as_str()) {
        Ok(a) => a,
        Err(_) => {
            return Err(Vec::new());
        },
    };
    match identifier_new(module.as_str()) {
        Some(name) => {
            let bytes = bcs_module_id(&owner_address, name.as_str());
            proof {
                lemma_module_id_roundtrip(owner_address@, module@);
            }
            Ok((Some(bytes), owner_address))
        },
        None => Err(Vec::new()),
    }
}

/// The module and the function that a submission names by the parts
/// `function[0]`, the owner's address, `function[1]`, the module's name, and
/// `function[2]`, the function's name: the BCS encoding of the module's
/// identifier, the owner's address and the two names.
pub fn submission_target(function: &[String]) -> (r: Result<
    (Vec<u8>, AccountAddress, String, String),
    Vec<u8>,
>)
    requires
        function@.len() >= 3,
        function@[1]@.len() <= BCS_MAX_SEQUENCE_LENGTH,
    ensures
        match r {
            Ok((id, owner, module_name, func_name)) => {
                &&& spec_pontem_address(function@[0]@) == Some(owner@)
                &&& spec_is_valid_identifier(function@[1]@)
                &&& id@ == spec_module_id_bytes(owner@, function@[1]@)
                &&& spec_decode_module_id(id@) == Some((owner@, function@[1]@))
                &&& module_name@ == function@[1]@
                &&& func_name@ == function@[2]@
            },
            Err(e) => e@.len() == 0 && (spec_pontem_address(function@[0]@) is None
                || !spec_is_valid_identifier(function@[1]@)),
        },
{
    match parse_function_string(&function[0], &function[1]) {
        Ok((Some(id), owner)) => Ok((id, owner, function[1].clone(), function[2].clone())),
        Ok((None, _)) => Err(Vec::new()),
        Err(e) => Err(e),
    }
}

/// The access path of a module of the given owner: `owner_encoded` is the
/// SCALE encoding of the owner's account identifier, `module` the bytes of the
/// module's name. A name that is no valid identifier gives an empty error.
pub fn move_module_id_to_module_id(owner_encoded: &[u8], module: Vec<u8>) -> (r: Result<
    Option<Vec<u8>>,
    Vec<u8>,
>)
    requires
        owner_encoded@.len() == ADDRESS_LENGTH,
        module@.len() <= BCS_MAX_SEQUENCE_LENGTH,
    ensures
        match r {
            Ok(id) => {
                &&& spec_is_valid_identifier_bytes(module@)
                &&& id matches Some(bytes)
                &&& bytes@ == seq![CODE_TAG] + spec_module_id_bytes(owner_encoded@, ascii_chars(module@))
            },
            Err(e) => e@.len() == 0 && !spec_is_valid_identifier_bytes(module@),
        },
{
    let ghost m = module@;
    let address = account_to_account_address(owner_encoded);
    match identifier_from_utf8(module) {
        Some(name) => {
            assert(name@.len() == m.len());
            Ok(Some(module_access_vector(&address, name.as_str())))
        },
        None => Err(Vec::new()),
    }
}

/// The outcome of parsing a module's ABI: the ABI, or the reason it could
/// not be parsed, which the error message quotes.
pub fn make_abi<T>(parsed: Result<T, String>) -> (r: Result<T, String>)
    ensures
        match (parsed, r) {
            (Ok(a), Ok(b)) => a == b,
            (Err(reason), Err(message)) => message@ == " Failed to parse abi. Error:'"@ + reason@
                + "'"@,
            _ => false,
        },
{
    match parsed {
        Ok(abi) => Ok(abi),
        Err(reason) => {
            let mut message = String::from_str(" Failed to parse abi. Error:'");
            message.append(reason.as_str());
            message.append("'");
            Err(message)
        },
    }
}


/// Why a function call could not be prepared.
#[derive(Clone, Copy, Debug, PartialEq, Eq)]
pub enum CallError {
    /// Fewer arguments than the function has parameters besides its signers.
    ParameterCount { expected: usize, passed: usize },
    /// An argument does not denote a value of its parameter's type.
    Convert(ConvertError),
    /// Not as many type arguments as the function has type parameters.
    TypeParameterCount { passed: usize, expected: usize },
    /// The module has no script function of that name.
    FunctionNotFound { type_params: usize },
    /// The module or function name is no valid identifier.
    InvalidIdentifier,
}

/// The text that describes a call failure.
pub open spec fn call_error_message(e: CallError) -> Seq<char> {
    match e {
        CallError::ParameterCount { expected, passed } => "The function accepts "@ + spec_decimal(
            expected as nat,
        ) + " parameters, "@ + spec_decimal(passed as nat) + " are passed"@,
        CallError::Convert(c) => convert_error_message(c),
        CallError::TypeParameterCount { passed, expected } =>
            "Unable to parse AccountAddress. Maximum address length is "@ + spec_decimal(
            passed as nat,
        ) + ".  Actual "@ + spec_decimal(expected as nat),
        CallError::FunctionNotFound { type_params } =>
            "Unable to parse AccountAddress. Maximum address length is "@ + spec_decimal(
            type_params as nat,
        ) + ". "@,
        CallError::InvalidIdentifier => "Invalid identifier"@,
    }
}

impl CallError {
    /// A text that describes the failure.
    pub fn message(&self) -> (m: String)
        ensures
            m@ == call_error_message(*self),
    {
        match self {
            CallError::ParameterCount { expected, passed } => {
                let mut m = String::from_str("The function accepts ");
                m.append(decimal_string(*expected).as_str());
                m.append(" parameters, ");
                m.append(decimal_string(*passed).as_str());
                m.append(" are passed");
                m
            },
            CallError::Convert(c) => c.message(),
            CallError::TypeParameterCount { passed, expected } => {
                let mut m = String::from_str(
                    "Unable to parse AccountAddress. Maximum address length is ",
                );
                m.append(decimal_string(*passed).as_str());
                m.append(".  Actual ");
                m.append(decimal_string(*expected).as_str());
                m
            },
            CallError::FunctionNotFound { type_params } => {
                let mut m = String::from_str(
                    "Unable to parse AccountAddress. Maximum address length is ",
                );
                m.append(decimal_string(*type_params).as_str());
                m.append(". ");
                m
            },
            CallError::InvalidIdentifier => String::from_str("Invalid identifier"),
        }
    }
}

/// Model of the failure that a `CallError` reports.
pub enum CallFailure {
    ParameterCount { expected: nat, passed: nat },
    /// The argument for the `index`-th parameter after the signers does not
    /// denote a value of that parameter's layout.
    Convert { index: nat },
    TypeParameterCount { passed: nat, expected: nat },
    FunctionNotFound { type_params: nat },
    InvalidIdentifier,
}

/// Whether an error reports the given failure.
pub open spec fn error_reports(e: CallError, f: CallFailure) -> bool {
    match (e, f) {
        (
            CallError::ParameterCount { expected, passed },
            CallFailure::ParameterCount { expected: x, passed: p },
        ) => expected == x && passed == p,
        (CallError::Convert(ConvertError::InvalidArgument { index }), CallFailure::Convert { index: i }) =>
            index == i,
        (
            CallError::TypeParameterCount { passed, expected },
            CallFailure::TypeParameterCount { passed: p, expected: x },
        ) => expected == x && passed == p,
        (CallError::FunctionNotFound { type_params }, CallFailure::FunctionNotFound { type_params: t }) =>
            type_params == t,
        (CallError::InvalidIdentifier, CallFailure::InvalidIdentifier) => true,
        _ => false,
    }
}

/// What a call is prepared with: its signers and its argument values.
pub type PreparedCall = Result<(Seq<SignerView>, Seq<Value>), CallFailure>;

/// Whether an outcome of preparing a call is the one the model gives: signers
/// to be filled in and argument values, or an error that reports the failure.
pub open spec fn outcome_is(r: Result<(Signers, Vec<MoveValue>), CallError>, m: PreparedCall) -> bool {
    match (r, m) {
        (Ok((Signers::Implicit(signers), values)), Ok((s, v))) => signers_view(signers@) == s
            && values_view(values@) == v,
        (Err(e), Err(f)) => error_reports(e, f),
        _ => false,
    }
}

/// How many parameters at the front of a signature are signers.
pub open spec fn leading_signers(layouts: Seq<Layout>) -> nat
    decreases layouts.len(),
{
    if layouts.len() > 0 && layouts[0] == Layout::Signer {
        1 + leading_signers(layouts.drop_first())
    } else {
        0
    }
}

proof fn lemma_leading_signers(layouts: Seq<Layout>)
    ensures
        leading_signers(layouts) <= layouts.len(),
    decreases layouts.len(),
{
    if layouts.len() > 0 && layouts[0] == Layout::Signer {
        lemma_leading_signers(layouts.drop_first());
    }
}

/// The leading signers of a signature are its longest prefix of signer
/// parameters: every parameter before that count is a signer, and the one at
/// the count, if there is one, is not.
pub proof fn lemma_leading_signers_longest_prefix(layouts: Seq<Layout>)
    ensures
        leading_signers(layouts) <= layouts.len(),
        forall|i: int| 0 <= i < leading_signers(layouts) ==> layouts[i] == Layout::Signer,
        leading_signers(layouts) < layouts.len() ==> layouts[leading_signers(layouts) as int]
            != Layout::Signer,
    decreases layouts.len(),
{
    if layouts.len() > 0 && layouts[0] == Layout::Signer {
        let rest = layouts.drop_first();
        lemma_leading_signers_longest_prefix(rest);
        assert forall|i: int| 0 <= i < leading_signers(layouts) implies layouts[i]
            == Layout::Signer by {
            if i > 0 {
                assert(layouts[i] == rest[i - 1]);
            }
        }
        if leading_signers(layouts) < layouts.len() {
            assert(layouts[leading_signers(layouts) as int] == rest[leading_signers(rest) as int]);
        }
    }
}

/// The signers and argument values of a call of a function with the
/// parameter layouts `layouts`, given the call arguments `args`.
///
/// The parameters after the leading signers take the last arguments, one
/// each; there must be enough arguments for them. The arguments before those
/// name signers, the first one each; signers that no argument names are
/// placeholders.
pub open spec fn spec_prepare_function_signature(layouts: Seq<Layout>, args: Seq<Seq<char>>) -> PreparedCall {
    let signers_count = leading_signers(layouts);
    let params_count = layouts.len() - signers_count;
    if args.len() < params_count {
        Err(CallFailure::ParameterCount { expected: params_count as nat, passed: args.len() })
    } else {
        let args_index = args.len() - params_count;
        match spec_convert_args(layouts.skip(signers_count as int), args.skip(args_index)) {
            None => Err(
                CallFailure::Convert {
                    index: first_unreadable(
                        layouts.skip(signers_count as int),
                        args.skip(args_index),
                        0,
                    ),
                },
            ),
            Some(values) => Ok(
                (
                    Seq::new(
                        signers_count,
                        |i: int|
                            if i < args_index {
                                spec_signer_of(spec_to_lowercase(args[i]), args[i])
                            } else {
                                SignerView::Placeholder
                            },
                    ),
                    values,
                ),
            ),
        }
    }
}

/// A prepared call has one signer for each leading signer parameter and one
/// value for each other parameter, of that parameter's layout.
pub proof fn lemma_prepared_call_shape(layouts: Seq<Layout>, args: Seq<Seq<char>>)
    ensures
        spec_prepare_function_signature(layouts, args) matches Ok((signers, values)) ==> {
            &&& signers.len() == leading_signers(layouts)
            &&& values.len() + leading_signers(layouts) == layouts.len()
            &&& forall|i: int|
                0 <= i < values.len() ==> has_layout(
                    #[trigger] values[i],
                    layouts[leading_signers(layouts) + i],
                )
        },
{
    lemma_leading_signers(layouts);
    let sc = leading_signers(layouts);
    let pc = layouts.len() - sc;
    if args.len() >= pc {
        let ls = layouts.skip(sc as int);
        let rest = args.skip(args.len() - pc);
        if let Some(values) = spec_convert_args(ls, rest) {
            assert forall|i: int| 0 <= i < values.len() implies has_layout(
                #[trigger] values[i],
                layouts[sc + i],
            ) by {
                assert(spec_parse_arg(ls[i], rest[i]) is Some);
                lemma_parse_arg_has_layout(ls[i], rest[i]);
            }
        }
    }
}

/// A function whose parameters are all signers takes at most one argument
/// per parameter; called with no more, it gets one signer per parameter, the
/// ones the arguments name first and placeholders after them, and no values.
pub proof fn lemma_signers_only_call(layouts: Seq<Layout>, args: Seq<Seq<char>>)
    requires
        forall|i: int| 0 <= i < layouts.len() ==> layouts[i] == Layout::Signer,
        args.len() <= layouts.len(),
    ensures
        spec_prepare_function_signature(layouts, args) matches Ok((signers, values)) && {
            &&& signers.len() == layouts.len()
            &&& values.len() == 0
            &&& forall|i: int|
                0 <= i < layouts.len() ==> #[trigger] signers[i] == (if i < args.len() {
                    spec_signer_of(spec_to_lowercase(args[i]), args[i])
                } else {
                    SignerView::Placeholder
                })
        },
{
    lemma_leading_signers_longest_prefix(layouts);
    let n = leading_signers(layouts);
    if n < layouts.len() {
        assert(layouts[n as int] == Layout::Signer);
    }
    assert(n == layouts.len());
    assert(layouts.skip(n as int).len() == 0);
    assert(args.skip(args.len() as int).len() == 0);
    assert(spec_convert_args(layouts.skip(n as int), args.skip(args.len() as int)) is Some);
}

/// Counts the parameters at the front of a signature that are signers.
fn count_leading_signers(code_args: &[TypeLayout]) -> (n: usize)
    ensures
        n == leading_signers(layouts_view(code_args@)),
        n <= code_args@.len(),
{
    let ghost ls = layouts_view(code_args@);
    let mut i: usize = 0;
    proof {
        assert(ls.skip(0) =~= ls);
    }
    while i < code_args.len()
        invariant
            ls == layouts_view(code_args@),
            i <= code_args@.len(),
            leading_signers(ls) == i + leading_signers(ls.skip(i as int)),
        decreases code_args@.len() - i,
    {
        let is_signer = match &code_args[i] {
            TypeLayout::Signer => true,
            _ => false,
        };
        assert(ls.skip(i as int)[0] == code_args@[i as int]@);
        if !is_signer {
            assert(ls.skip(i as int)[0] != Layout::Signer);
            return i;
        }
        assert(ls.skip(i as int).drop_first() =~= ls.skip(i + 1));
        i = i + 1;
    }
    i
}

/// Splits call arguments between the signers and the parameters of a
/// function, and reads the parameters' arguments into values.
pub fn prepare_function_signature(code_args: &[TypeLayout], call_args: &[String]) -> (r: Result<
    (Signers, Vec<MoveValue>),
    CallError,
>)
    ensures
        outcome_is(r, spec_prepare_function_signature(layouts_view(code_args@), strings_view(call_args@))),
        r matches Err(CallError::Convert(e)) ==> {
            let signers_count = leading_signers(layouts_view(code_args@));
            let args_index = call_args@.len() - (code_args@.len() - signers_count);
            &&& e matches ConvertError::InvalidArgument { index }
            &&& signers_count + index < code_args@.len()
            &&& spec_parse_arg(
                code_args@[signers_count + index]@,
                call_args@[args_index + index]@,
            ) is None
            &&& forall|j: int|
                0 <= j < index ==> #[trigger] spec_parse_arg(
                    code_args@[signers_count + j]@,
                    call_args@[args_index + j]@,
                ) is Some
        },
{
    let ghost ls = layouts_view(code_args@);
    let ghost args = strings_view(call_args@);
    let signers_count = count_leading_signers(code_args);
    let params_count = code_args.len() - signers_count;
    if call_args.len() < params_count {
        return Err(CallError::ParameterCount { expected: params_count, passed: call_args.len() });
    }
    let args_index = call_args.len() - params_count;
    let (_, param_layouts) = code_args.split_at(signers_count);
    let (_, param_args) = call_args.split_at(args_index);
    assert(layouts_view(param_layouts@) =~= ls.skip(signers_count as int));
    assert(strings_view(param_args@) =~= args.skip(args_index as int));
    let params = match MoveConverter::try_into_vm_values(param_layouts, param_args) {
        Ok(p) => p,
        Err(e) => {
            proof {
                assert(param_layouts@.len() == param_args@.len());
                if let ConvertError::InvalidArgument { index } = e {
                    assert(param_layouts@[index as int] == code_args@[signers_count + index]);
                    assert(param_args@[index as int] == call_args@[args_index + index]);
                    assert forall|j: int| 0 <= j < index implies #[trigger] spec_parse_arg(
                        code_args@[signers_count + j]@,
                        call_args@[args_index + j]@,
                    ) is Some by {
                        assert(param_layouts@[j] == code_args@[signers_count + j]);
                        assert(param_args@[j] == call_args@[args_index + j]);
                    }
                }
            }
            return Err(CallError::Convert(e));
        },
    };
    let mut signers: Vec<Signer> = Vec::new();
    let mut i: usize = 0;
    while i < signers_count
        invariant
            args == strings_view(call_args@),
            args_index <= call_args@.len(),
            i <= signers_count,
            signers@.len() == i,
            forall|j: int|
                0 <= j < i ==> (#[trigger] signers@[j])@ == (if j < args_index {
                    spec_signer_of(spec_to_lowercase(args[j]), args[j])
                } else {
                    SignerView::Placeholder
                }),
        decreases signers_count - i,
    {
        let signer = if i < args_index {
            match from_str(call_args[i].as_str()) {
                Some(s) => s,
                None => Signer::Placeholder,
            }
        } else {
            Signer::Placeholder
        };
        signers.push(signer);
        i = i + 1;
    }
    proof {
        let m = spec_prepare_function_signature(ls, args);
        assert(m matches Ok((s, v)) && signers_view(signers@) =~= s);
    }
    Ok((Signers::Implicit(signers), params))
}

/// The outcome of calling the script function `name` of a module with the
/// given arguments and `type_args_count` type arguments.
pub open spec fn spec_select_function(
    defs: Seq<FunctionDefInfo>,
    name: Seq<char>,
    args: Seq<Seq<char>>,
    type_args_count: nat,
) -> PreparedCall {
    match first_script_index(defs, name) {
        None => Err(CallFailure::FunctionNotFound { type_params: type_args_count }),
        Some(i) => if type_args_count != defs[i].type_parameters@.len() {
            Err(
                CallFailure::TypeParameterCount {
                    passed: type_args_count,
                    expected: defs[i].type_parameters@.len(),
                },
            )
        } else {
            spec_prepare_function_signature(layouts_view(defs[i].parameters@), args)
        },
    }
}

/// Finds the script function `name` in the module and prepares its
/// signers and argument values.
pub fn select_function(
    module: &CompiledModule,
    name: &str,
    args: &[String],
    type_tag: &[String],
) -> (r: Result<(Signers, Vec<MoveValue>), CallError>)
    ensures
        outcome_is(
            r,
            spec_select_function(
                module.function_defs@,
                name@,
                strings_view(args@),
                type_tag@.len(),
            ),
        ),
{
    match find_script_function(module, name) {
        Some(script) => {
            let ghost i = first_script_index(module.function_defs@, name@).unwrap();
            assert(script@ == crate::info::script_of(module.function_defs@[i]));
            assert(script@.type_parameters.len() == script.type_parameters@.len());
            if type_tag.len() != script.type_params_count() {
                return Err(
                    CallError::TypeParameterCount {
                        passed: type_tag.len(),
                        expected: script.type_params_count(),
                    },
                );
            }
            prepare_function_signature(script.parameters.as_slice(), args)
        },
        None => Err(CallError::FunctionNotFound { type_params: type_tag.len() }),
    }
}

/// A prepared call of a script function: its signers, the module that
/// defines it and its argument values.
#[derive(Debug, PartialEq, Eq)]
pub struct FunctionCall {
    pub signers: Vec<Signer>,
    pub mod_address: AccountAddress,
    pub mod_name: String,
    pub func_name: String,
    pub args: Vec<MoveValue>,
}

/// The outcome of preparing a call of the script function `func_name` of
/// the module `module_name`.
pub open spec fn spec_make_function_call(
    defs: Seq<FunctionDefInfo>,
    module_name: Seq<char>,
    func_name: Seq<char>,
    args: Seq<Seq<char>>,
    type_args_count: nat,
) -> PreparedCall {
    if !spec_is_valid_identifier(func_name) || !spec_is_valid_identifier(module_name) {
        Err(CallFailure::InvalidIdentifier)
    } else {
        spec_select_function(defs, func_name, args, type_args_count)
    }
}

/// With valid names, preparing a call of a module's function gives what
/// selecting the function does with as many type arguments as were passed.
pub proof fn lemma_make_call_selects(
    defs: Seq<FunctionDefInfo>,
    module_name: Seq<char>,
    func_name: Seq<char>,
    args: Seq<Seq<char>>,
    type_args_count: nat,
)
    requires
        spec_is_valid_identifier(module_name),
        spec_is_valid_identifier(func_name),
    ensures
        spec_make_function_call(defs, module_name, func_name, args, type_args_count)
            == spec_select_function(defs, func_name, args, type_args_count),
{
}

/// With valid names and a script function of that name in the module,
/// preparing a call fails for the number of type arguments exactly when it
/// differs from the function's number of type parameters; with the right
/// number the call is prepared from that function's own parameters.
pub proof fn lemma_make_call_type_arguments(
    defs: Seq<FunctionDefInfo>,
    module_name: Seq<char>,
    func_name: Seq<char>,
    args: Seq<Seq<char>>,
    type_args_count: nat,
    i: int,
)
    requires
        spec_is_valid_identifier(module_name),
        spec_is_valid_identifier(func_name),
        first_script_index(defs, func_name) == Some(i),
    ensures
        (spec_make_function_call(defs, module_name, func_name, args, type_args_count) is Err
            && spec_make_function_call(defs, module_name, func_name, args, type_args_count)->Err_0
            is TypeParameterCount) <==> type_args_count != defs[i].type_parameters@.len(),
        spec_make_function_call(defs, module_name, func_name, args, type_args_count) matches Err(
            CallFailure::TypeParameterCount { passed, expected },
        ) ==> passed == type_args_count && expected == defs[i].type_parameters@.len(),
        type_args_count == defs[i].type_parameters@.len() ==> spec_make_function_call(
            defs,
            module_name,
            func_name,
            args,
            type_args_count,
        ) == spec_prepare_function_signature(layouts_view(defs[i].parameters@), args),
{
}

/// Prepares a call of the script function `func_name` of the module
/// `module_name`, published at `addr`, whose compiled form is `module`.
pub fn make_function_call(
    module: &CompiledModule,
    addr: AccountAddress,
    module_name: String,
    func_name: String,
    type_tag: Vec<String>,
    args: Vec<String>,
) -> (r: Result<FunctionCall, CallError>)
    ensures
        match (
            r,
            spec_make_function_call(
                module.function_defs@,
                module_name@,
                func_name@,
                strings_view(args@),
                type_tag@.len(),
            ),
        ) {
            (Ok(call), Ok((s, v))) => {
                &&& signers_view(call.signers@) == s
                &&& values_view(call.args@) == v
                &&& call.mod_address == addr
                &&& call.mod_name@ == module_name@
                &&& call.func_name@ == func_name@
            },
            (Err(e), Err(f)) => error_reports(e, f),
            _ => false,
        },
{
    if identifier_new(func_name.as_str()).is_none() || identifier_new(module_name.as_str()).is_none() {
        return Err(CallError::InvalidIdentifier);
    }
    let (signers, values) = match select_function(
        module,
        func_name.as_str(),
        args.as_slice(),
        type_tag.as_slice(),
    ) {
        Ok(prepared) => prepared,
        Err(e) => {
            return Err(e);
        },
    };
    let signers = match signers {
        Signers::Implicit(s) => s,
        Signers::Explicit(_) => Vec::new(),
    };
    Ok(FunctionCall { signers, mod_address: addr, mod_name: module_name, func_name, args: values })
}

} // verus!
