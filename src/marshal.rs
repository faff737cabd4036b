//! Checks and conversions of the values that callers hand across the boundary.
use vstd::prelude::*;
use crate::error::{BoundaryError, HandleRole};
use vstd::string::StringExecFns;

verus! {

broadcast use {vstd::string::axiom_spec_iter, vstd::string::next_postcondition};

/// Fails with `NullPointer` naming `role` where the handle is zero.
pub fn check_handle(handle: i64, role: HandleRole) -> (r: Result<(), BoundaryError>)
    ensures
        handle == 0 <==> r is Err,
        r is Err ==> r == Err::<(), BoundaryError>(BoundaryError::NullPointer(role)),
{
    if handle == 0 {
        Err(BoundaryError::NullPointer(role))
    } else {
        Ok(())
    }
}

/// Whether a release operation (close, end, destroy) has anything to
/// reclaim: the zero handle stands for nothing, and releasing it does nothing.
pub fn needs_release(handle: i64) -> (r: bool)
    ensures
        r == (handle != 0),
{
    handle != 0
}

/// Takes a 32-byte id or pubkey out of `bytes`; any other length is refused
/// with `InvalidIdLength` carrying the length given.
pub fn bytes_to_32(bytes: &Vec<u8>) -> (r: Result<[u8; 32], BoundaryError>)
    ensures
        bytes@.len() == 32 <==> r is Ok,
        r is Ok ==> r->Ok_0@ == bytes@,
        r is Err ==> r == Err::<[u8; 32], BoundaryError>(BoundaryError::InvalidIdLength(bytes@.len() as usize)),
{
    if bytes.len() != 32 {
        return Err(BoundaryError::InvalidIdLength(bytes.len()));
    }
    Ok(block_at(bytes, 0))
}

/// The 32 bytes of `bytes` that start at `start`.
fn block_at(bytes: &Vec<u8>, start: usize) -> (r: [u8; 32])
    requires
        start + 32 <= bytes@.len(),
    ensures
        r@ == bytes@.subrange(start as int, start + 32),
{
    let len: usize = bytes.len();
    let mut out = [0u8; 32];
    let mut j: usize = 0;
    while j < 32
        invariant
            j <= 32,
            len == bytes@.len(),
            start + 32 <= bytes@.len(),
            forall|k: int| 0 <= k < j ==> out@[k] == bytes@[start + k],
        decreases 32 - j,
    {
        out[j] = bytes[start + j];
        j = j + 1;
    }
    assert(out@ =~= bytes@.subrange(start as int, start + 32));
    out
}

/// The little-endian unsigned value of the four bytes of `s` from `at`.
pub open spec fn le_u32_at(s: Seq<u8>, at: int) -> u64 {
    (s[at] + 256 * s[at + 1] + 65536 * s[at + 2] + 16777216 * s[at + 3]) as u64
}

/// Reads kinds from a flat run of 4-byte little-endian unsigned integers.
/// A trailing partial chunk is not read.
pub fn decode_kinds(bytes: &Vec<u8>) -> (r: Vec<u64>)
    ensures
        r@.len() == bytes@.len() / 4,
        forall|i: int| 0 <= i < r@.len() ==> r@[i] == le_u32_at(bytes@, 4 * i),
{
    let len: usize = bytes.len();
    let n: usize = len / 4;
    let mut out: Vec<u64> = Vec::new();
    let mut i: usize = 0;
    let mut at: usize = 0;
    while i < n
        invariant
            len == bytes@.len(),
            n == len / 4,
            at == 4 * i,
            i <= n,
            out@.len() == i,
            forall|k: int| 0 <= k < i ==> out@[k] == le_u32_at(bytes@, 4 * k),
        decreases n - i,
    {
        let v: u64 = bytes[at] as u64 + 256 * (bytes[at + 1] as u64) + 65536 * (
        bytes[at + 2] as u64) + 16777216 * (bytes[at + 3] as u64);
        out.push(v);
        i = i + 1;
        at = at + 4;
    }
    out
}

/// Reads pubkeys from a flat run of 32-byte blocks. A trailing partial block
/// is not read.
pub fn decode_authors(bytes: &Vec<u8>) -> (r: Vec<[u8; 32]>)
    ensures
        r@.len() == bytes@.len() / 32,
        forall|i: int|
            0 <= i < r@.len() ==> r@[i]@ == bytes@.subrange(32 * i, 32 * i + 32),
{
    let len: usize = bytes.len();
    let n: usize = len / 32;
    let mut out: Vec<[u8; 32]> = Vec::new();
    let mut i: usize = 0;
    let mut at: usize = 0;
    while i < n
        invariant
            len == bytes@.len(),
            n == len / 32,
            at == 32 * i,
            i <= n,
            out@.len() == i,
            forall|k: int|
                0 <= k < i ==> out@[k]@ == bytes@.subrange(32 * k, 32 * k + 32),
        decreases n - i,
    {
        out.push(block_at(bytes, at));
        i = i + 1;
        at = at + 32;
    }
    out
}

/// The key of a tag constraint: the first character of its name. An empty
/// name is refused.
pub fn tag_key(name: &str) -> (r: Result<char, BoundaryError>)
    ensures
        name@.len() > 0 <==> r is Ok,
        r is Ok ==> r->Ok_0 == name@[0],
        r is Err ==> r->Err_0 is Filter,
{
    let mut chars = name.chars();
    match chars.next() {
        Some(c) => Ok(c),
        None => Err(BoundaryError::Filter(String::from_str("Empty tag name"))),
    }
}

} // verus!
