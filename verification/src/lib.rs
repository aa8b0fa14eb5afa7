//! Argument preparation, address parsing and RPC plumbing for a Move VM
//! runtime, with each piece specified and proved.

pub mod text;
pub mod hex;
pub mod address;
pub mod value;
pub mod arg_parse;
pub mod signer;
pub mod info;
pub mod module_id;
pub mod fn_call;
pub mod submission;
pub mod rpc;
pub mod vm_config;
