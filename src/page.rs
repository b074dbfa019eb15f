use vstd::prelude::*;

verus! {

/// Every page holds a whole multiple of this many bytes.
pub const DEFAULT_CAPACITY: usize = 1024;

/// Largest capacity that a page is asked for.
pub const MAX_CAPACITY: usize = usize::MAX / 4;

/// `n` rounded up to a whole multiple of `DEFAULT_CAPACITY`.
pub open spec fn rounded_capacity(n: nat) -> nat {
    let c = DEFAULT_CAPACITY as nat;
    if n % c == 0 {
        n
    } else {
        (n / c + 1) * c
    }
}

/// Capacity of the page that follows one of `prev` bytes, for a record of
/// `need` bytes: double the previous page, or more where the record needs it.
pub open spec fn next_capacity(prev: nat, need: nat) -> nat {
    rounded_capacity(if 2 * prev >= need { 2 * prev } else { need })
}

/// Relies on `Vec::leak`: the buffer is kept for the rest of the process and
/// handed out with its contents unchanged.
#[verifier::external_body]
fn leak_bytes(v: Vec<u8>) -> (r: &'static mut [u8])
    ensures
        r@ == v@,
{
    v.leak()
}

/// A page of memory that is never freed; records are carved from its front.
pub struct Page {
    pub mem: &'static mut [u8],
}

impl Page {
    /// A page over the given bytes.
    pub fn from_vec(v: Vec<u8>) -> (r: Page)
        ensures
            r.mem@ == v@,
    {
        Page { mem: leak_bytes(v) }
    }

    /// A zeroed page whose capacity is `min_capacity` rounded up to a whole
    /// multiple of `DEFAULT_CAPACITY`.
    pub fn with_min_capacity(min_capacity: usize) -> (r: Page)
        requires
            min_capacity <= MAX_CAPACITY,
        ensures
            r.mem@.len() == rounded_capacity(min_capacity as nat),
            forall|i: int| 0 <= i < r.mem@.len() ==> r.mem@[i] == 0u8,
    {
        let whole = (min_capacity / DEFAULT_CAPACITY) * DEFAULT_CAPACITY;
        let capacity = if min_capacity % DEFAULT_CAPACITY == 0 {
            whole
        } else {
            whole + DEFAULT_CAPACITY
        };
        proof {
            let n = min_capacity as int;
            assert(n == (n / 1024) * 1024 + n % 1024) by (nonlinear_arith);
        }
        let mem: Vec<u8> = vec![0u8; capacity];
        Page::from_vec(mem)
    }

    /// The page that follows one of `prev_capacity` bytes, sized by
    /// `next_capacity`.
    pub fn following(prev_capacity: usize, min_capacity: usize) -> (r: Page)
        requires
            prev_capacity <= MAX_CAPACITY / 2,
            min_capacity <= MAX_CAPACITY,
        ensures
            r.mem@.len() == next_capacity(prev_capacity as nat, min_capacity as nat),
            forall|i: int| 0 <= i < r.mem@.len() ==> r.mem@[i] == 0u8,
    {
        let doubled = prev_capacity * 2;
        let wanted = if doubled >= min_capacity {
            doubled
        } else {
            min_capacity
        };
        Page::with_min_capacity(wanted)
    }
}

} // verus!
