//! Content addresses: the root marker and the address of a one-component path.

use vstd::prelude::*;
use hdi::hash_path::path::root_hash;
use hdi::prelude::{Component, Path, WasmError};
use crate::codec::ValidationError;

verus! {

#[verifier::external_type_specification]
#[verifier::external_body]
pub struct ExWasmError(WasmError);

/// The raw address of the path made of the single component that holds `s`, or
/// `None` where that path cannot be serialized.
pub uninterp spec fn component_hash(s: Seq<char>) -> Option<Seq<u8>>;

/// Relies on `Path::path_entry_hash` of the path `[Component::from(s)]`: the
/// address depends on the string alone.
#[verifier::external_body]
fn path_address(s: &String) -> (r: Result<Vec<u8>, WasmError>)
    ensures
        match r {
            Ok(h) => component_hash(s@) == Some(h@),
            Err(_) => component_hash(s@) is None,
        },
{
    Path::from(vec![Component::from(s)]).path_entry_hash().map(|h| h.get_raw_39().to_vec())
}

/// The raw address of the app entry whose serialized bytes are `b`.
pub uninterp spec fn entry_address(b: Seq<u8>) -> Seq<u8>;

/// The address every path starts from: the app entry made of the bytes `[0, 1]`.
pub open spec fn root_marker_address() -> Seq<u8> {
    entry_address(seq![0u8, 1u8])
}

/// Relies on `hdi::hash_path::path::root_hash`: it hashes locally the app entry
/// of the bytes `[0, 1]`, which is under the size limit, so it does not fail.
#[verifier::external_body]
fn root_address() -> (r: Result<Vec<u8>, WasmError>)
    ensures
        r is Ok,
        r is Ok ==> r->Ok_0@ == entry_address(seq![0u8, 1u8]),
{
    root_hash().map(|h| h.get_raw_39().to_vec())
}

/// What `component_target` returns for the string `s`.
pub open spec fn component_target_result(s: Seq<char>) -> Result<Seq<u8>, ValidationError> {
    match component_hash(s) {
        Some(h) => Ok(h),
        None => Err(ValidationError::Hash),
    }
}

/// The address that a record whose tag holds `s` must target.
pub fn component_target(s: &String) -> (r: Result<Vec<u8>, ValidationError>)
    ensures
        match r {
            Ok(h) => component_target_result(s@) == Ok::<Seq<u8>, ValidationError>(h@),
            Err(e) => component_target_result(s@) == Err::<Seq<u8>, ValidationError>(e),
        },
{
    match path_address(s) {
        Ok(h) => Ok(h),
        Err(_) => Err(ValidationError::Hash),
    }
}

/// The root marker: the base address of the first record of every path.
pub fn root_marker() -> (r: Vec<u8>)
    ensures
        r@ == root_marker_address(),
{
    match root_address() {
        Ok(h) => h,
        Err(_) => Vec::new(),
    }
}

} // verus!
