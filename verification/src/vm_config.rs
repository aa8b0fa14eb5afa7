//! The call that initialises the standard library at genesis.

use vstd::prelude::*;

verus! {

/// The name of a module, as bytes.
pub type ModuleName = Vec<u8>;

/// The name of a function, as bytes.
pub type FunctionName = Vec<u8>;

/// The arguments of a function call, each encoded as bytes.
pub type FunctionArgs = Vec<Vec<u8>>;

/// The bytes of the name `Genesis`.
pub open spec fn genesis_module_name() -> Seq<u8> {
    seq![0x47u8, 0x65, 0x6e, 0x65, 0x73, 0x69, 0x73]
}

/// The bytes of the name `initialize`.
pub open spec fn genesis_function_name() -> Seq<u8> {
    seq![0x69u8, 0x6e, 0x69, 0x74, 0x69, 0x61, 0x6c, 0x69, 0x7a, 0x65]
}

/// The call of `Genesis::initialize` with the arguments of the default
/// genesis configuration, `init_args`.
pub fn build(init_args: FunctionArgs) -> (r: (ModuleName, FunctionName, FunctionArgs))
    ensures
        r.0@ == genesis_module_name(),
        r.1@ == genesis_function_name(),
        r.2 == init_args,
{
    let module_name: Vec<u8> = vec![0x47, 0x65, 0x6e, 0x65, 0x73, 0x69, 0x73];
    let func_name: Vec<u8> = vec![0x69, 0x6e, 0x69, 0x74, 0x69, 0x61, 0x6c, 0x69, 0x7a, 0x65];
    assert(module_name@ =~= genesis_module_name());
    assert(func_name@ =~= genesis_function_name());
    (module_name, func_name, init_args)
}

} // verus!
