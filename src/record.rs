//! Link records, the model of the ledger entries that form a path.

use vstd::prelude::*;

verus! {

/// An immutable link record of an author's hash chain.
#[derive(Debug, Clone, PartialEq, Eq)]
pub struct LinkRecord {
    /// The address the link starts from.
    pub base_address: Vec<u8>,
    /// The address the link points at.
    pub target_address: Vec<u8>,
    /// The tag payload: a serialized string component.
    pub tag: Vec<u8>,
    /// The hash of the author's previous chain record.
    pub prev_action: Vec<u8>,
    /// The author's public key.
    pub author: Vec<u8>,
    /// The hash that identifies this record.
    pub self_hash: Vec<u8>,
}

/// Tells whether two byte strings are equal.
pub fn same_bytes(a: &Vec<u8>, b: &Vec<u8>) -> (r: bool)
    ensures
        r == (a@ == b@),
{
    if a.len() != b.len() {
        return false;
    }
    let mut i: usize = 0;
    while i < a.len()
        invariant
            a@.len() == b@.len(),
            i <= a@.len(),
            forall|k: int| 0 <= k < i ==> a@[k] == b@[k],
        decreases a@.len() - i,
    {
        if a[i] != b[i] {
            return false;
        }
        i = i + 1;
    }
    assert(a@ =~= b@);
    true
}

} // verus!
