use mvm_rpc::address::AccountAddress;
use mvm_rpc::rpc::parse_table_handle;
use mvm_rpc::submission::{submission_from_bytes, SubmissionError};

fn bytes(parts: &[&str]) -> Vec<Vec<u8>> {
    parts.iter().map(|p| p.as_bytes().to_vec()).collect()
}

fn coin_id() -> Vec<u8> {
    let mut v = vec![0u8; 31];
    v.push(1);
    v.push(4);
    v.extend_from_slice(b"Coin");
    v
}

#[test]
fn submission_reads_target_and_texts() {
    let s = submission_from_bytes(
        bytes(&["0x1", "Coin", "transfer"]),
        bytes(&["u64"]),
        bytes(&["10", "é"]),
    )
    .unwrap();
    assert_eq!(s.module_id, coin_id());
    assert_eq!(s.owner, AccountAddress::from_hex_literal("0x1").unwrap());
    assert_eq!(s.module_name, "Coin");
    assert_eq!(s.function_name, "transfer");
    assert_eq!(s.type_parameters, vec!["u64".to_string()]);
    assert_eq!(s.arguments, vec!["10".to_string(), "é".to_string()]);
}

#[test]
fn submission_function_parts_must_be_text() {
    let r = submission_from_bytes(vec![vec![0xff]], vec![], vec![]);
    assert_eq!(r.err(), Some(SubmissionError::FunctionNotText));
    let mut f = bytes(&["0x1", "Coin"]);
    f.push(vec![0xc3]);
    assert_eq!(submission_from_bytes(f, vec![], vec![]).err(), Some(SubmissionError::FunctionNotText));
}

#[test]
fn submission_needs_three_parts() {
    let r = submission_from_bytes(bytes(&["0x1", "Coin"]), vec![], vec![]);
    assert_eq!(r.err(), Some(SubmissionError::MissingParts));
}

#[test]
fn submission_rejects_bad_targets() {
    let r = submission_from_bytes(bytes(&["0xzz", "Coin", "f"]), vec![], vec![]);
    assert_eq!(r.err(), Some(SubmissionError::InvalidTarget));
    let r = submission_from_bytes(bytes(&["0x1", "1bad", "f"]), vec![], vec![]);
    assert_eq!(r.err(), Some(SubmissionError::InvalidTarget));
}

#[test]
fn submission_arguments_must_be_text() {
    let r = submission_from_bytes(bytes(&["0x1", "Coin", "f"]), vec![], vec![vec![0xc3]]);
    assert_eq!(r.err(), Some(SubmissionError::ArgumentNotText));
    let r = submission_from_bytes(bytes(&["0x1", "Coin", "f"]), vec![vec![0x80]], vec![]);
    assert_eq!(r.err(), Some(SubmissionError::ArgumentNotText));
}

#[test]
fn table_handles_are_decimal() {
    assert_eq!(parse_table_handle(b"42"), Some(42));
    assert_eq!(parse_table_handle(b"+7"), Some(7));
    assert_eq!(parse_table_handle(b"007"), Some(7));
    assert_eq!(
        parse_table_handle(b"340282366920938463463374607431768211455"),
        Some(u128::MAX)
    );
}

#[test]
fn table_handles_reject_other_texts() {
    assert_eq!(parse_table_handle(b""), None);
    assert_eq!(parse_table_handle(b"+"), None);
    assert_eq!(parse_table_handle(b"-1"), None);
    assert_eq!(parse_table_handle(b" 1"), None);
    assert_eq!(parse_table_handle(b"1_0"), None);
    assert_eq!(parse_table_handle(b"0x10"), None);
    assert_eq!(parse_table_handle(b"340282366920938463463374607431768211456"), None);
}
