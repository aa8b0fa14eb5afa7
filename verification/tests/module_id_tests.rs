use mvm_rpc::address::AccountAddress;
use mvm_rpc::fn_call::{move_module_id_to_module_id, parse_function_string, submission_target};
use mvm_rpc::module_id::module_access_vector;

fn address_one() -> AccountAddress {
    AccountAddress::from_hex_literal("0x1").unwrap()
}

fn module_id_bytes(name: &str) -> Vec<u8> {
    let mut b = address_one().to_vec();
    b.push(name.len() as u8);
    b.extend_from_slice(name.as_bytes());
    b
}

#[test]
fn parse_function_string_encodes_module_id() {
    let (id, owner) =
        parse_function_string(&"0x1".to_string(), &"Coin".to_string()).unwrap();
    assert_eq!(owner, address_one());
    assert_eq!(id, Some(module_id_bytes("Coin")));
}

#[test]
fn parse_function_string_rejects_bad_parts() {
    assert_eq!(parse_function_string(&"0x1".to_string(), &"1Coin".to_string()), Err(vec![]));
    assert_eq!(parse_function_string(&"0xq".to_string(), &"Coin".to_string()), Err(vec![]));
}

#[test]
fn long_module_name_has_multi_byte_length() {
    let name = "M".repeat(200);
    let (id, _) = parse_function_string(&"0x1".to_string(), &name).unwrap();
    let mut expected = address_one().to_vec();
    expected.push(200 - 128 + 128);
    expected.push(1);
    expected.extend_from_slice(name.as_bytes());
    assert_eq!(id, Some(expected));
}

#[test]
fn access_vector_starts_with_code_tag() {
    let v = module_access_vector(&address_one(), "Genesis");
    let mut expected = vec![0u8];
    expected.extend(module_id_bytes("Genesis"));
    assert_eq!(v, expected);
}

#[test]
fn move_module_id_to_module_id_encodes() {
    let owner = address_one().to_vec();
    let id = move_module_id_to_module_id(&owner, b"Store".to_vec()).unwrap();
    let mut expected = vec![0u8];
    expected.extend(module_id_bytes("Store"));
    assert_eq!(id, Some(expected));
    assert_eq!(move_module_id_to_module_id(&owner, vec![0xff, 0x41]), Err(vec![]));
    assert_eq!(move_module_id_to_module_id(&owner, b"_".to_vec()), Err(vec![]));
}

#[test]
fn self_is_a_valid_identifier() {
    let owner = address_one().to_vec();
    assert!(move_module_id_to_module_id(&owner, b"<SELF>".to_vec()).is_ok());
}

#[test]
fn submission_target_names_module_and_function() {
    let parts = vec!["0x1".to_string(), "Coin".to_string(), "transfer".to_string()];
    let (id, owner, module, func) = submission_target(&parts).unwrap();
    assert_eq!(id, module_id_bytes("Coin"));
    assert_eq!(owner, address_one());
    assert_eq!(module, "Coin");
    assert_eq!(func, "transfer");
}

#[test]
fn module_id_bytes_decode_back() {
    let (id, owner) = parse_function_string(&"0x1".to_string(), &"Coin".to_string()).unwrap();
    let (address, name): ([u8; 32], String) = bcs::from_bytes(&id.unwrap()).unwrap();
    assert_eq!(address.to_vec(), owner.to_vec());
    assert_eq!(name, "Coin");
}
