use mvm_rpc::address::AccountAddress;
use mvm_rpc::signer::{classify_signer, from_str, Signer, Signers};

#[test]
fn root_names() {
    assert_eq!(from_str("root"), Some(Signer::Root));
    assert_eq!(from_str("RT"), Some(Signer::Root));
    assert_eq!(from_str("Dr"), Some(Signer::Root));
    assert_eq!(from_str("ROOT"), Some(Signer::Root));
}

#[test]
fn placeholder_name() {
    assert_eq!(from_str("_"), Some(Signer::Placeholder));
}

#[test]
fn other_names_keep_their_case() {
    assert_eq!(from_str("Alice"), Some(Signer::Name("Alice".to_string())));
    assert_eq!(from_str("rooty"), Some(Signer::Name("rooty".to_string())));
}

#[test]
fn classify_uses_the_lowered_form() {
    assert_eq!(classify_signer("root", "ROOT"), Signer::Root);
    assert_eq!(classify_signer("bob", "BOB"), Signer::Name("BOB".to_string()));
}

#[test]
fn signers_len() {
    let a = AccountAddress::from_hex_literal("0x1").unwrap();
    assert_eq!(Signers::Explicit(vec![a.clone(), a]).len(), 2);
    assert_eq!(Signers::Implicit(vec![Signer::Root]).len(), 1);
    assert_eq!(Signers::Implicit(vec![]).len(), 0);
}
