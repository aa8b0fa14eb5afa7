//! The RPC layer: the handle on the node's client, gas estimations and the
//! errors that calls report.

use vstd::prelude::*;
use vstd::std_specs::convert::FromSpecImpl;
use std::marker::PhantomData;
use std::sync::Arc;
use vstd::utf8::{decode_utf8, valid_utf8};
use crate::arg_parse::{digits_end, digits_value};
use crate::text::{lemma_utf8_text, utf8_text};

verus! {

/// The error code of every failure that the RPC calls report.
pub const RUNTIME_ERROR: i32 = 500;

/// An error that an RPC call reports: a code, a message and details.
#[derive(Debug, PartialEq, Eq)]
pub struct RpcError {
    pub code: i32,
    pub message: String,
    pub data: Option<String>,
}

/// The error with code `RUNTIME_ERROR`, the given message and details.
fn runtime_error(message: &str, detail: String) -> (e: RpcError)
    ensures
        e.code == RUNTIME_ERROR,
        e.message@ == message@,
        e.data matches Some(d) && d@ == detail@,
{
    RpcError { code: RUNTIME_ERROR, message: String::from_str(message), data: Some(detail) }
}

/// A request to the runtime failed; `detail` describes the failure.
pub fn runtime_error_into_rpc_err(detail: String) -> (e: RpcError)
    ensures
        e.code == RUNTIME_ERROR,
        e.message@ == "Error during requesting Runtime API"@,
        e.data matches Some(d) && d@ == detail@,
{
    runtime_error("Error during requesting Runtime API", detail)
}

/// Publishing a module to estimate its gas failed.
pub fn runtime_error_into_rpc_err2(detail: String) -> (e: RpcError)
    ensures
        e.code == RUNTIME_ERROR,
        e.message@ == "Error during publishing module for estimation"@,
        e.data matches Some(d) && d@ == detail@,
{
    runtime_error("Error during publishing module for estimation", detail)
}

/// Executing a script to estimate its gas failed.
pub fn runtime_error_into_rpc_err3(detail: String) -> (e: RpcError)
    ensures
        e.code == RUNTIME_ERROR,
        e.message@ == "Error during script execution  for estimation"@,
        e.data matches Some(d) && d@ == detail@,
{
    runtime_error("Error during script execution  for estimation", detail)
}

/// Reading a module's ABI failed.
pub fn runtime_error_into_rpc_err4(detail: String) -> (e: RpcError)
    ensures
        e.code == RUNTIME_ERROR,
        e.message@ == "ABI error"@,
        e.data matches Some(d) && d@ == detail@,
{
    runtime_error("ABI error", detail)
}

/// A runtime method reported a failure.
pub fn runtime_error_into_rpc_err5(detail: String) -> (e: RpcError)
    ensures
        e.code == RUNTIME_ERROR,
        e.message@ == "Error from method"@,
        e.data matches Some(d) && d@ == detail@,
{
    runtime_error("Error from method", detail)
}

/// A struct tag could not be turned into JSON.
pub fn runtime_error_into_rpc_err6(detail: String) -> (e: RpcError)
    ensures
        e.code == RUNTIME_ERROR,
        e.message@ == "Error from struct tag json"@,
        e.data matches Some(d) && d@ == detail@,
{
    runtime_error("Error from struct tag json", detail)
}

/// Something that a call needs is missing.
pub fn runtime_error_into_rpc_err7() -> (e: RpcError)
    ensures
        e.code == RUNTIME_ERROR,
        e.message@ == "Error from None "@,
        e.data matches Some(d) && d@ == ""@,
{
    runtime_error("Error from None ", String::from_str(""))
}

/// The value, or the error for something missing when there is none.
pub fn present_or_rpc_error<T>(value: Option<T>) -> (r: Result<T, RpcError>)
    ensures
        match (value, r) {
            (Some(v), Ok(w)) => v == w,
            (None, Err(e)) => {
                &&& e.code == RUNTIME_ERROR
                &&& e.message@ == "Error from None "@
                &&& e.data matches Some(d) && d@ == ""@
            },
            _ => false,
        },
{
    match value {
        Some(v) => Ok(v),
        None => Err(runtime_error_into_rpc_err7()),
    }
}

/// Where the digits of a decimal `u128` text begin: after a leading `+`, if
/// there is one.
pub open spec fn unsigned_digits_start(s: Seq<char>) -> int {
    if s.len() > 0 && s[0] == '+' {
        1
    } else {
        0
    }
}

/// Whether `s` is the decimal text of a `u128`: an optional `+`, then one or
/// more ASCII digits and nothing else, of value at most `u128::MAX`.
pub open spec fn is_u128_text(s: Seq<char>) -> bool {
    let start = unsigned_digits_start(s);
    &&& start < s.len()
    &&& digits_end(s, start) == s.len()
    &&& digits_value(s, start, s.len() as int) <= u128::MAX
}

/// The value of the digits of a decimal `u128` text.
pub open spec fn u128_text_value(s: Seq<char>) -> nat {
    digits_value(s, unsigned_digits_start(s), s.len() as int)
}

/// `str::parse::<u128>` of std, that is `u128::from_str_radix` with radix
/// 10. Its documentation accepts an optional `+` sign followed by digits only
/// and fails on an empty text, on any other character and on a value that
/// does not fit; the contract says that over the decimal digits.
#[verifier::external_body]
fn parse_u128(s: &str) -> (r: Option<u128>)
    ensures
        r is Some <==> is_u128_text(s@),
        r matches Some(v) ==> v == u128_text_value(s@),
{
    match s.parse::<u128>() {
        Ok(v) => Some(v),
        Err(_) => None,
    }
}

/// The table handle that UTF-8 bytes name in decimal, if they do.
pub open spec fn spec_table_handle(bytes: Seq<u8>) -> Option<u128> {
    let text = decode_utf8(bytes);
    if is_u128_text(text) {
        Some(u128_text_value(text) as u128)
    } else {
        None
    }
}

/// Reads a table handle: UTF-8 text holding a `u128` in decimal.
pub fn parse_table_handle(handle: &[u8]) -> (r: Option<u128>)
    requires
        valid_utf8(handle@),
    ensures
        r == spec_table_handle(handle@),
{
    match utf8_text(vstd::slice::slice_to_vec(handle)) {
        Some(text) => {
            proof {
                lemma_utf8_text(text@, handle@);
            }
            parse_u128(text.as_str())
        },
        None => {
            assert(false);
            None
        },
    }
}

/// The gas that the runtime estimates for publishing a module or running a
/// script, and the status it ended with.
#[derive(Clone, Copy, Debug, PartialEq, Eq)]
pub struct MVMApiEstimation {
    pub gas_used: u64,
    pub status_code: u64,
}

/// A gas estimation as the RPC calls answer it.
#[derive(Clone, Copy, Debug, PartialEq, Eq)]
pub struct Estimation {
    pub gas_used: u64,
    pub status_code: u64,
}

impl From<MVMApiEstimation> for Estimation {
    fn from(e: MVMApiEstimation) -> (r: Self) {
        Estimation { gas_used: e.gas_used, status_code: e.status_code }
    }
}

impl FromSpecImpl<MVMApiEstimation> for Estimation {
    open spec fn obeys_from_spec() -> bool {
        true
    }

    open spec fn from_spec(e: MVMApiEstimation) -> Self {
        Estimation { gas_used: e.gas_used, status_code: e.status_code }
    }
}

/// The RPC handler, holding the node's client.
pub struct MVMApi<C, P> {
    pub client: Arc<C>,
    pub _marker: PhantomData<P>,
}

impl<C, P> MVMApi<C, P> {
    /// A handler for the given client.
    pub fn new(client: Arc<C>) -> (r: Self)
        ensures
            r.client == client,
    {
        MVMApi { client, _marker: PhantomData }
    }
}

/// A view of the chain state at a block, for one account, through the
/// node's client; `at` is the block, or the best block when `None`.
pub struct ApiStateView<C, BlockHash, AccountId, Block> {
    pub client: Arc<C>,
    pub account_id: AccountId,
    pub at: Option<BlockHash>,
    pub _marker: PhantomData<Block>,
}

impl<C, BlockHash, AccountId, Block> ApiStateView<C, BlockHash, AccountId, Block> {
    /// A view through `client` of the state of `account_id` at `at`.
    pub fn new(client: Arc<C>, account_id: AccountId, at: Option<BlockHash>) -> (r: Self)
        ensures
            r.client == client,
            r.account_id == account_id,
            r.at == at,
    {
        ApiStateView { client, account_id, at, _marker: PhantomData }
    }
}

} // verus!
