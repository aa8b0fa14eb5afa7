use mvm_rpc::arg_parse::ConvertError;
use mvm_rpc::fn_call::{AddressError, CallError};
use mvm_rpc::text::decimal_string;

#[test]
fn decimal_notation() {
    assert_eq!(decimal_string(0), "0");
    assert_eq!(decimal_string(7), "7");
    assert_eq!(decimal_string(10), "10");
    assert_eq!(decimal_string(1234567890), "1234567890");
}

#[test]
fn call_error_messages() {
    assert_eq!(
        CallError::ParameterCount { expected: 2, passed: 1 }.message(),
        "The function accepts 2 parameters, 1 are passed"
    );
    assert_eq!(
        CallError::TypeParameterCount { passed: 0, expected: 1 }.message(),
        "Unable to parse AccountAddress. Maximum address length is 0.  Actual 1"
    );
    assert_eq!(
        CallError::FunctionNotFound { type_params: 3 }.message(),
        "Unable to parse AccountAddress. Maximum address length is 3. "
    );
    assert_eq!(
        CallError::Convert(ConvertError::InvalidArgument { index: 4 }).message(),
        "Invalid argument at position 4"
    );
    assert_eq!(
        ConvertError::ArgumentCount { expected: 2, passed: 5 }.message(),
        "Expected 2 arguments, 5 are passed"
    );
    assert_eq!(CallError::InvalidIdentifier.message(), "Invalid identifier");
}

#[test]
fn address_error_messages() {
    assert_eq!(
        AddressError::TooLong { max: 66, actual: "0x00".to_string() }.message(),
        "Unable to parse AccountAddress. Maximum address length is 66.  Actual 0x00"
    );
    assert_eq!(
        AddressError::InvalidHex { address: "0xz".to_string() }.message(),
        "Address \"0xz\" is not a valid diem/pont address"
    );
    assert_eq!(
        AddressError::InvalidSs58 { address: "bob".to_string() }.message(),
        "Address \"bob\" is not a valid SS58 address"
    );
    assert_eq!(
        AddressError::UnknownName { name: "bob".to_string() }.message(),
        "Failed to find address with name:bob"
    );
}

#[test]
fn address_error_messages_escape_the_address() {
    assert_eq!(
        AddressError::InvalidHex { address: "0x\"z".to_string() }.message(),
        "Address \"0x\\\"z\" is not a valid diem/pont address"
    );
    assert_eq!(
        AddressError::InvalidSs58 { address: "a\tb".to_string() }.message(),
        "Address \"a\\tb\" is not a valid SS58 address"
    );
}
