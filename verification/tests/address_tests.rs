use mvm_rpc::address::{AccountAddress, AccountAddressParseError};
use mvm_rpc::fn_call::{
    account_to_account_address, diem_root_address, parse_address, pontem_parse_address,
    AddressError, MAX_HEX_ADDRESS_LENGTH,
};

fn bytes_with_tail(tail: &[u8]) -> Vec<u8> {
    let mut b = vec![0u8; 32 - tail.len()];
    b.extend_from_slice(tail);
    b
}

#[test]
fn hex_literal_short_is_padded_on_the_left() {
    let a = AccountAddress::from_hex_literal("0x1").unwrap();
    assert_eq!(a.to_vec(), bytes_with_tail(&[1]));
    let b = AccountAddress::from_hex_literal("0xA550C18").unwrap();
    assert_eq!(b.to_vec(), bytes_with_tail(&[0x0a, 0x55, 0x0c, 0x18]));
}

#[test]
fn hex_literal_leading_zeros_do_not_matter() {
    let a = AccountAddress::from_hex_literal("0x2f").unwrap();
    let b = AccountAddress::from_hex_literal("0x002F").unwrap();
    assert_eq!(a, b);
}

#[test]
fn hex_literal_full_length() {
    let lit = format!("0x{}", "ab".repeat(32));
    let a = AccountAddress::from_hex_literal(&lit).unwrap();
    assert_eq!(a.to_vec(), vec![0xab; 32]);
}

#[test]
fn hex_literal_rejects() {
    assert_eq!(AccountAddress::from_hex_literal("1"), Err(AccountAddressParseError));
    assert_eq!(AccountAddress::from_hex_literal("0x"), Ok(AccountAddress::from_bytes(vec![0; 32]).unwrap()));
    assert_eq!(AccountAddress::from_hex_literal("0xg1"), Err(AccountAddressParseError));
    let too_long = format!("0x{}", "1".repeat(65));
    assert_eq!(AccountAddress::from_hex_literal(&too_long), Err(AccountAddressParseError));
}

#[test]
fn from_bytes_needs_address_length() {
    assert!(AccountAddress::from_bytes(vec![1; 31]).is_err());
    assert!(AccountAddress::from_bytes(vec![1; 33]).is_err());
    assert_eq!(AccountAddress::from_bytes(vec![7; 32]).unwrap().to_vec(), vec![7; 32]);
}

#[test]
fn pontem_parse_address_hex() {
    let a = pontem_parse_address("0x1").unwrap();
    assert_eq!(a.to_vec(), bytes_with_tail(&[1]));
}

#[test]
fn pontem_parse_address_too_long() {
    let lit = format!("0x{}", "0".repeat(65));
    match pontem_parse_address(&lit) {
        Err(AddressError::TooLong { max, actual }) => {
            assert_eq!(max, MAX_HEX_ADDRESS_LENGTH);
            assert_eq!(max, 66);
            assert_eq!(actual, lit);
        }
        other => panic!("unexpected {:?}", other),
    }
}

#[test]
fn pontem_parse_address_invalid_hex() {
    assert_eq!(
        pontem_parse_address("0xzz"),
        Err(AddressError::InvalidHex { address: "0xzz".to_string() })
    );
}

#[test]
fn pontem_parse_address_ss58() {
    // The well-known development account whose public key is d435...a27d.
    let a = pontem_parse_address("5GrwvaEF5zXb26Fz9rcQpDWS57CtERHpNehXCPcNoHGKutQY").unwrap();
    let key: Vec<u8> = vec![
        0xd4, 0x35, 0x93, 0xc7, 0x15, 0xfd, 0xd3, 0x1c, 0x61, 0x14, 0x1a, 0xbd, 0x04, 0xa9, 0x9f,
        0xd6, 0x82, 0x2c, 0x85, 0x58, 0x85, 0x4c, 0xcd, 0xe3, 0x9a, 0x56, 0x84, 0xe7, 0xa5, 0x6d,
        0xa2, 0x7d,
    ];
    assert_eq!(a.to_vec(), key);
}

#[test]
fn pontem_parse_address_bad_ss58() {
    assert_eq!(
        pontem_parse_address("not-an-address"),
        Err(AddressError::InvalidSs58 { address: "not-an-address".to_string() })
    );
}

#[test]
fn parse_address_reports_unknown_name() {
    assert_eq!(
        parse_address("alice"),
        Err(AddressError::UnknownName { name: "alice".to_string() })
    );
    assert_eq!(parse_address("0x5").unwrap().to_vec(), bytes_with_tail(&[5]));
}

#[test]
fn diem_root_address_value() {
    assert_eq!(diem_root_address().to_vec(), bytes_with_tail(&[0x0a, 0x55, 0x0c, 0x18]));
}

#[test]
fn account_address_of_account() {
    let account = vec![9u8; 32];
    assert_eq!(account_to_account_address(&account).to_vec(), account);
}
