use vstd::prelude::*;

verus! {

/// Bytes in one page of a region.
pub const BYTES_IN_PAGE: u64 = 4096;

/// An opaque handle to a managed object: the address of its first byte.
#[derive(Clone, Copy, Debug, PartialEq, Eq, Structural)]
pub struct ObjectReference {
    pub addr: u64,
}

/// Number of whole pages needed to hold `bytes` bytes.
pub open spec fn pages_for(bytes: int) -> int {
    if bytes <= 0 { 0 } else { (bytes + BYTES_IN_PAGE - 1) / (BYTES_IN_PAGE as int) }
}

pub fn bytes_to_pages_up(bytes: u64) -> (r: u64)
    ensures
        r as int == pages_for(bytes as int),
{
    if bytes == 0 {
        0
    } else {
        (bytes - 1) / BYTES_IN_PAGE + 1
    }
}

/// A region of at most `u64::MAX` bytes spans fewer than 2^53 pages.
pub proof fn lemma_pages_bound(bytes: int)
    requires
        0 <= bytes <= u64::MAX,
    ensures
        0 <= pages_for(bytes) < 0x20_0000_0000_0000,
{
    if bytes > 0 {
        assert((bytes + 4095) / 4096 < 0x20_0000_0000_0000) by (nonlinear_arith)
            requires
                0 < bytes <= u64::MAX,
        ;
    }
}

} // verus!
