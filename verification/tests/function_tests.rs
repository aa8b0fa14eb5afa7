use mvm_rpc::address::AccountAddress;
use mvm_rpc::arg_parse::{parse_arg, ConvertError, MoveConverter};
use mvm_rpc::fn_call::{
    make_function_call, prepare_function_signature, select_function, CallError,
};
use mvm_rpc::info::{
    find_script_function, AbilitySet, CompiledModule, FunctionDefInfo, TypeAbilities, TypeAbility,
    Visibility,
};
use mvm_rpc::signer::{Signer, Signers};
use mvm_rpc::value::{MoveValue, TypeLayout};

fn s(v: &str) -> String {
    v.to_string()
}

fn def(visibility: Visibility, name: &str, parameters: Vec<TypeLayout>, tps: Vec<AbilitySet>) -> FunctionDefInfo {
    FunctionDefInfo {
        visibility,
        name: name.to_string(),
        parameters,
        type_parameters: tps,
        returns: vec![TypeLayout::Bool],
    }
}

fn module() -> CompiledModule {
    CompiledModule {
        function_defs: vec![
            def(Visibility::Public, "transfer", vec![TypeLayout::U64], vec![]),
            def(Visibility::Script, "transfer", vec![TypeLayout::Signer, TypeLayout::U64], vec![]),
            def(Visibility::Script, "transfer", vec![TypeLayout::Bool], vec![]),
            def(Visibility::Script, "generic", vec![TypeLayout::U8], vec![AbilitySet(0x3)]),
        ],
    }
}

#[test]
fn abilities_in_bit_order() {
    assert_eq!(TypeAbilities::from(&AbilitySet(0)).abilities, vec![]);
    assert_eq!(
        TypeAbilities::from(&AbilitySet(0xf)).abilities,
        vec![TypeAbility::Copy, TypeAbility::Drop, TypeAbility::Store, TypeAbility::Key]
    );
    assert_eq!(
        TypeAbilities::from(&AbilitySet(0xa)).abilities,
        vec![TypeAbility::Drop, TypeAbility::Key]
    );
}

#[test]
fn finds_first_script_function() {
    let m = module();
    let script = find_script_function(&m, "transfer").unwrap();
    assert_eq!(script.name, "transfer");
    assert_eq!(script.parameters, vec![TypeLayout::Signer, TypeLayout::U64]);
    assert_eq!(script.returns, vec![TypeLayout::Bool]);
    assert_eq!(script.type_params_count(), 0);
    let generic = find_script_function(&m, "generic").unwrap();
    assert_eq!(generic.type_params_count(), 1);
    assert_eq!(
        generic.type_parameters[0].abilities,
        vec![TypeAbility::Copy, TypeAbility::Drop]
    );
    assert!(find_script_function(&m, "missing").is_none());
}

#[test]
fn signers_are_named_then_padded() {
    let layouts = [TypeLayout::Signer, TypeLayout::Signer, TypeLayout::Signer, TypeLayout::U8];
    let (signers, values) =
        prepare_function_signature(&layouts, &[s("root"), s("Alice"), s("7")]).unwrap();
    assert_eq!(
        signers,
        Signers::Implicit(vec![Signer::Root, Signer::Name(s("Alice")), Signer::Placeholder])
    );
    assert_eq!(values, vec![MoveValue::U8(7)]);
}

#[test]
fn too_few_arguments() {
    let layouts = [TypeLayout::Signer, TypeLayout::U8, TypeLayout::U8];
    assert_eq!(
        prepare_function_signature(&layouts, &[s("1")]),
        Err(CallError::ParameterCount { expected: 2, passed: 1 })
    );
}

#[test]
fn value_out_of_range() {
    assert_eq!(
        prepare_function_signature(&[TypeLayout::U8], &[s("256")]),
        Err(CallError::Convert(ConvertError::InvalidArgument { index: 0 }))
    );
    assert_eq!(
        prepare_function_signature(&[TypeLayout::U64], &[s("18446744073709551616")]),
        Err(CallError::Convert(ConvertError::InvalidArgument { index: 0 }))
    );
    assert_eq!(
        prepare_function_signature(&[TypeLayout::U64], &[s("18446744073709551615")]),
        Ok((Signers::Implicit(vec![]), vec![MoveValue::U64(u64::MAX)]))
    );
}

#[test]
fn converter_reports_first_bad_argument() {
    assert_eq!(
        MoveConverter::try_into_vm_values(
            &[TypeLayout::Bool, TypeLayout::U8, TypeLayout::U8],
            &[s("true"), s("x"), s("y")]
        ),
        Err(ConvertError::InvalidArgument { index: 1 })
    );
    assert_eq!(
        MoveConverter::try_into_vm_values(&[TypeLayout::Bool], &[]),
        Err(ConvertError::ArgumentCount { expected: 1, passed: 0 })
    );
}

#[test]
fn signer_and_struct_arguments_are_refused() {
    assert_eq!(parse_arg(&TypeLayout::Signer, "\"0x1\""), None);
    assert_eq!(parse_arg(&TypeLayout::Struct(vec![TypeLayout::U8]), "[1]"), None);
}

#[test]
fn blanks_and_nesting() {
    let nested = TypeLayout::Vector(Box::new(TypeLayout::Vector(Box::new(TypeLayout::U64))));
    assert_eq!(
        parse_arg(&nested, " [ [1 , 2] ,[ ] ]\n"),
        Some(MoveValue::Vector(vec![
            MoveValue::Vector(vec![MoveValue::U64(1), MoveValue::U64(2)]),
            MoveValue::Vector(vec![]),
        ]))
    );
    let bytes = TypeLayout::Vector(Box::new(TypeLayout::Vector(Box::new(TypeLayout::U8))));
    assert_eq!(
        parse_arg(&bytes, "[\"0xff\", \"01\"]"),
        Some(MoveValue::Vector(vec![
            MoveValue::Vector(vec![MoveValue::U8(255)]),
            MoveValue::Vector(vec![MoveValue::U8(1)]),
        ]))
    );
}

#[test]
fn malformed_arguments() {
    let list = TypeLayout::Vector(Box::new(TypeLayout::Bool));
    assert_eq!(parse_arg(&list, "[true,]"), None);
    assert_eq!(parse_arg(&list, "[true"), None);
    assert_eq!(parse_arg(&list, "[true] x"), None);
    assert_eq!(parse_arg(&TypeLayout::Bool, "True"), None);
    assert_eq!(parse_arg(&TypeLayout::U8, ""), None);
    let bytes = TypeLayout::Vector(Box::new(TypeLayout::U8));
    assert_eq!(parse_arg(&bytes, "\"0x123\""), None);
    assert_eq!(parse_arg(&bytes, "\"0x12"), None);
}

#[test]
fn select_function_checks_type_arguments() {
    let m = module();
    assert_eq!(
        select_function(&m, "generic", &[s("1")], &[]),
        Err(CallError::TypeParameterCount { passed: 0, expected: 1 })
    );
    assert_eq!(
        select_function(&m, "nothing", &[], &[s("u8")]),
        Err(CallError::FunctionNotFound { type_params: 1 })
    );
    assert_eq!(
        select_function(&m, "generic", &[s("1")], &[s("u8")]),
        Ok((Signers::Implicit(vec![]), vec![MoveValue::U8(1)]))
    );
}

#[test]
fn make_function_call_prepares_call() {
    let m = module();
    let addr = AccountAddress::from_hex_literal("0x1").unwrap();
    let call = make_function_call(
        &m,
        addr.clone(),
        s("Coin"),
        s("transfer"),
        vec![],
        vec![s("_"), s("10")],
    )
    .unwrap();
    assert_eq!(call.signers, vec![Signer::Placeholder]);
    assert_eq!(call.mod_address, addr);
    assert_eq!(call.mod_name, "Coin");
    assert_eq!(call.func_name, "transfer");
    assert_eq!(call.args, vec![MoveValue::U64(10)]);
    let implicit = make_function_call(&m, addr.clone(), s("Coin"), s("transfer"), vec![], vec![s("10")])
        .unwrap();
    assert_eq!(implicit.signers, vec![Signer::Placeholder]);
    assert_eq!(
        make_function_call(&m, addr, s("Coin"), s("9transfer"), vec![], vec![]),
        Err(CallError::InvalidIdentifier)
    );
}

#[test]
fn select_function_reports_failing_argument() {
    let m = CompiledModule {
        function_defs: vec![def(
            Visibility::Script,
            "pair",
            vec![TypeLayout::Signer, TypeLayout::U8, TypeLayout::Bool],
            vec![],
        )],
    };
    assert_eq!(
        select_function(&m, "pair", &[s("1"), s("yes")], &[]),
        Err(CallError::Convert(ConvertError::InvalidArgument { index: 1 }))
    );
}
