use vstd::prelude::*;

verus! {

/// Seed handed to wyhash for every string; fixed for the life of the process.
pub const WYHASH_SEED: u64 = 0;

/// Number of bytes that the cached hash takes in front of a string's bytes.
pub const SIZE_OF_WYHASH: usize = 8;

/// What `wyhash::wyhash` returns for the given bytes and seed.
pub uninterp spec fn wyhash_of(bytes: Seq<u8>, seed: u64) -> u64;

/// The eight bytes of an integer in the host's byte order.
pub uninterp spec fn ne_bytes_of(x: u64) -> Seq<u8>;

/// Relies on `wyhash::wyhash`: a pure function of the bytes and the seed.
#[verifier::external_body]
pub(crate) fn hash_bytes(bytes: &[u8]) -> (r: u64)
    ensures
        r == wyhash_of(bytes@, WYHASH_SEED),
{
    wyhash::wyhash(bytes, WYHASH_SEED)
}

/// Relies on `u64::to_ne_bytes`: the integer's eight bytes in host order.
#[verifier::external_body]
pub(crate) fn to_ne_bytes(x: u64) -> (r: [u8; 8])
    ensures
        r@ == ne_bytes_of(x),
{
    x.to_ne_bytes()
}

/// Relies on `u64::from_ne_bytes`: the inverse of `u64::to_ne_bytes`.
#[verifier::external_body]
pub(crate) fn from_ne_bytes(b: [u8; 8]) -> (r: u64)
    ensures
        ne_bytes_of(r) == b@,
        forall|y: u64| #[trigger] ne_bytes_of(y) == b@ ==> y == r,
{
    u64::from_ne_bytes(b)
}

} // verus!
