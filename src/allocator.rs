use vstd::prelude::*;

verus! {

/// Error of a failed secure allocation.
#[derive(Debug, Clone, Copy, PartialEq, Eq)]
pub struct AllocError;

#[derive(Debug, Clone, Copy, Default)]
struct AllocatorContents;

/// Allocator handle for memory from libsodium's guarded heap.
///
/// The raw allocation routine runs outside this library; the handle decides whether
/// what it handed back may be used.
#[derive(Debug, Clone, Copy, Default)]
pub struct Alloc {
    _dummy_private_data: AllocatorContents,
}

impl Alloc {
    /// A new allocator handle.
    pub fn new() -> Alloc {
        Alloc { _dummy_private_data: AllocatorContents }
    }

    /// Decides whether the block at address `addr` (zero for none) that the raw routine
    /// returned serves a request aligned to `align`: it must exist and sit at a multiple
    /// of `align`. The guarded heap places blocks at the end of a page, so larger
    /// alignments are not available.
    pub fn check_allocation(&self, addr: usize, align: usize) -> (r: Result<(), AllocError>)
        requires
            align > 0,
        ensures
            r is Ok <==> addr != 0 && addr % align == 0,
    {
        if addr % align != 0 {
            return Err(AllocError);
        }
        if addr == 0 {
            return Err(AllocError);
        }
        Ok(())
    }
}

} // verus!
