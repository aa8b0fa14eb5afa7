use std::sync::Arc;

use mvm_rpc::fn_call::make_abi;
use mvm_rpc::rpc::{
    present_or_rpc_error, runtime_error_into_rpc_err, runtime_error_into_rpc_err2,
    runtime_error_into_rpc_err3, runtime_error_into_rpc_err4, runtime_error_into_rpc_err5,
    runtime_error_into_rpc_err6, runtime_error_into_rpc_err7, ApiStateView, Estimation,
    MVMApi, MVMApiEstimation, RUNTIME_ERROR,
};
use mvm_rpc::vm_config::build;

#[test]
fn errors_carry_code_message_and_detail() {
    let cases = [
        (runtime_error_into_rpc_err("a".to_string()), "Error during requesting Runtime API"),
        (runtime_error_into_rpc_err2("a".to_string()), "Error during publishing module for estimation"),
        (runtime_error_into_rpc_err3("a".to_string()), "Error during script execution  for estimation"),
        (runtime_error_into_rpc_err4("a".to_string()), "ABI error"),
        (runtime_error_into_rpc_err5("a".to_string()), "Error from method"),
        (runtime_error_into_rpc_err6("a".to_string()), "Error from struct tag json"),
    ];
    for (e, message) in cases.iter() {
        assert_eq!(e.code, 500);
        assert_eq!(e.message, *message);
        assert_eq!(e.data, Some("a".to_string()));
    }
    let e = runtime_error_into_rpc_err7();
    assert_eq!(e.code, RUNTIME_ERROR);
    assert_eq!(e.message, "Error from None ");
    assert_eq!(e.data, Some(String::new()));
}

#[test]
fn missing_values_become_errors() {
    assert_eq!(present_or_rpc_error(Some(3)), Ok(3));
    assert_eq!(present_or_rpc_error::<u8>(None), Err(runtime_error_into_rpc_err7()));
}

#[test]
fn estimation_keeps_fields() {
    let e = Estimation::from(MVMApiEstimation { gas_used: 42, status_code: 4001 });
    assert_eq!(e, Estimation { gas_used: 42, status_code: 4001 });
}

#[test]
fn api_handles_keep_their_parts() {
    let client = Arc::new(5u32);
    let api: MVMApi<u32, ()> = MVMApi::new(client.clone());
    assert_eq!(*api.client, 5);
    let view: ApiStateView<u32, u64, String, ()> =
        ApiStateView::new(client, "alice".to_string(), Some(7));
    assert_eq!(view.account_id, "alice");
    assert_eq!(view.at, Some(7));
}

#[test]
fn make_abi_quotes_the_reason() {
    assert_eq!(make_abi::<u8>(Ok(1)), Ok(1));
    assert_eq!(
        make_abi::<u8>(Err("bad magic".to_string())),
        Err(" Failed to parse abi. Error:'bad magic'".to_string())
    );
}

#[test]
fn genesis_call() {
    let (module, func, args) = build(vec![vec![1, 2], vec![]]);
    assert_eq!(module, b"Genesis".to_vec());
    assert_eq!(func, b"initialize".to_vec());
    assert_eq!(args, vec![vec![1, 2], vec![]]);
}
