//! User-mode side of the kernel's system-call interface: the service
//! numbering that the trap handler dispatches on, the calling shape of each
//! service, and the byte layout of the file-status record.
use vstd::prelude::*;

pub mod service;
pub mod stat;

verus! {

/// Sum of two unsigned 64-bit values; the caller keeps the sum in range.
pub fn add(left: u64, right: u64) -> (r: u64)
    requires
        left + right <= u64::MAX,
    ensures
        r == left + right,
{
    left + right
}

} // verus!
