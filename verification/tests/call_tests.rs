use mvm_rpc::address::AccountAddress;
use mvm_rpc::fn_call::prepare_function_signature;
use mvm_rpc::value::{MoveValue, TypeLayout};

fn s(v: &str) -> String {
    v.to_string()
}

fn addr(v: &str) -> AccountAddress {
    AccountAddress::from_hex_literal(v).unwrap()
}

fn core_code_address() -> AccountAddress {
    let mut bytes = vec![0u8; 32];
    bytes[31] = 1;
    AccountAddress::from_bytes(bytes).unwrap()
}

#[test]
fn test_args_types() {
    let (signers, args) = prepare_function_signature(&[], &[]).unwrap();
    assert_eq!(signers.len(), 0);
    assert_eq!(args.len(), 0);

    let (signers, args) = prepare_function_signature(&[TypeLayout::U8], &[s("1")]).unwrap();
    assert_eq!(signers.len(), 0);
    assert_eq!(args, vec![MoveValue::U8(1)]);

    let (signers, args) = prepare_function_signature(
        &[TypeLayout::Bool, TypeLayout::Bool],
        &[s("true"), s("false")],
    )
    .unwrap();
    assert_eq!(signers.len(), 0);
    assert_eq!(args, vec![MoveValue::Bool(true), MoveValue::Bool(false)]);

    let (signers, args) = prepare_function_signature(
        &[TypeLayout::U64, TypeLayout::U64, TypeLayout::U128],
        &[s("0"), s("1000000000"), s("10000000000000000")],
    )
    .unwrap();
    assert_eq!(signers.len(), 0);
    assert_eq!(
        args,
        vec![MoveValue::U64(0), MoveValue::U64(1000000000), MoveValue::U128(10000000000000000),]
    );

    let (signers, args) =
        prepare_function_signature(&[TypeLayout::Address], &[s("\"0x1\"")]).unwrap();
    assert_eq!(signers.len(), 0);
    assert_eq!(args, vec![MoveValue::Address(core_code_address())]);

    let (signers, args) = prepare_function_signature(
        &[
            TypeLayout::Vector(Box::new(TypeLayout::Bool)),
            TypeLayout::Vector(Box::new(TypeLayout::U8)),
            TypeLayout::Vector(Box::new(TypeLayout::U8)),
            TypeLayout::Vector(Box::new(TypeLayout::U8)),
            TypeLayout::Vector(Box::new(TypeLayout::U64)),
            TypeLayout::Vector(Box::new(TypeLayout::U128)),
            TypeLayout::Vector(Box::new(TypeLayout::Address)),
        ],
        &[
            s("[true, false]"),
            s("\"0x1000\""),
            s("\"\""),
            s("\"0x0102\""),
            s("[1000, 0]"),
            s("[0]"),
            s("[\"0x1\",\"0x2\"]"),
        ],
    )
    .unwrap();
    assert_eq!(signers.len(), 0);
    assert_eq!(
        args,
        vec![
            MoveValue::Vector(vec![MoveValue::Bool(true), MoveValue::Bool(false)]),
            MoveValue::Vector(vec![MoveValue::U8(16), MoveValue::U8(0)]),
            MoveValue::Vector(vec![]),
            MoveValue::Vector(vec![MoveValue::U8(1), MoveValue::U8(2)]),
            MoveValue::Vector(vec![MoveValue::U64(1000), MoveValue::U64(0)]),
            MoveValue::Vector(vec![MoveValue::U128(0)]),
            MoveValue::Vector(vec![
                MoveValue::Address(addr("0x1")),
                MoveValue::Address(addr("0x2"))
            ]),
        ]
    );
}
