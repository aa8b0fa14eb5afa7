# mvm_rpc

The RPC layer of a Move VM runtime on a Substrate chain, as a verified library.

- `src/` holds the logic, proved by Verus against its contracts; the few
  functions that call outside crates or std (identifier checks, BCS encoding,
  SS58 decoding, lower-casing, UTF-8 decoding, decimal parsing, `Debug`
  rendering) are trusted wrappers whose contracts state what those functions
  do:
  reading call arguments into Move values (`arg_parse`), account addresses
  (`address`), identifiers and the BCS form of module identifiers
  (`module_id`), signers (`signer`), the script-function lookup of a compiled
  module (`info`), preparing function calls (`fn_call`), reading the byte
  strings of a submission request (`submission`), the RPC handles, gas
  estimations, table handles and errors (`rpc`) and the genesis call
  (`vm_config`).
- `tests/` runs the library on concrete inputs.
- `app/` is the node side: the JSON-RPC server, the state view over the
  runtime API, transaction encoding and reading compiled modules.

The server answers `gas_to_weight`, `weight_to_gas`, `estimate_gas_publish`,
`estimate_gas_execute`, `get_resource`, `get_module_abi`, `get_module` and
`encode_submission`. It does not offer `get_module_abis`, `get_module_abis2`,
`get_resources`, `get_resources2`, `get_resources3` or `get_table_entry`: they rest on struct-tag conversion,
ABI parsing and resource annotation code (the `convert`, `move_types` and
`constant` modules, `move-resource-viewer`) that is not available to this
build. What of them is plain logic stands in `src/`: `make_abi` words an ABI
parse failure, `parse_table_handle` reads a table handle.
