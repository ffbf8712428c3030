use psk_broker::{Alloc, AllocError};

// The guarded heap's own fill pattern belongs to libsodium, which only the application
// layer calls; here the library's decision on the returned block is checked.
fn check_block<const N: usize>(alloc: &Alloc) {
    let block = Box::new([0u8; N]);
    let addr = block.as_ptr() as usize;
    assert_eq!(alloc.check_allocation(addr, std::mem::align_of::<[u8; N]>()), Ok(()));
    assert_eq!(alloc.check_allocation(0, std::mem::align_of::<[u8; N]>()), Err(AllocError));
}

#[test]
fn sodium_allocation() {
    let alloc = Alloc::new();
    check_block::<0>(&alloc);
    check_block::<7>(&alloc);
    check_block::<8>(&alloc);
    check_block::<64>(&alloc);
    check_block::<999>(&alloc);
}

#[test]
fn allocation_checks_reject_null_and_misaligned() {
    let alloc = Alloc::new();
    assert_eq!(alloc.check_allocation(0, 1), Err(AllocError));
    assert_eq!(alloc.check_allocation(4097, 8), Err(AllocError));
    assert_eq!(alloc.check_allocation(4096, 8), Ok(()));
}
