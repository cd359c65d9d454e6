use zbox_bridge::heap::{Heap, EINVAL, ENOMEM};

#[test]
fn malloc_records_capacity_and_free_round_trips() {
    let mut h = Heap::new();
    let p = h.malloc(100);
    assert!(p != 0);
    assert!(h.is_live(p));
    let rec = h.header_record(p);
    assert_eq!(rec.cap_word, 108);
    assert_eq!(rec.len_word, 0);
    h.free(p);
    assert!(!h.is_live(p));
}

#[test]
fn malloc_zero_size_still_allocates_header() {
    let mut h = Heap::new();
    let p = h.malloc(0);
    assert!(p != 0);
    let rec = h.header_record(p);
    assert_eq!(rec.cap_word, 8);
    h.free(p);
    assert!(!h.is_live(p));
}

#[test]
fn free_null_is_a_no_op() {
    let mut h = Heap::new();
    let p = h.malloc(16);
    h.free(0);
    // nothing was released: the live allocation is untouched
    assert!(h.is_live(p));
    assert_eq!(h.header_record(p).cap_word, 24);
}

#[test]
fn free_removes_only_its_own_allocation() {
    let mut h = Heap::new();
    let a = h.malloc(10);
    let b = h.malloc(20);
    let c = h.malloc(30);
    h.free(b);
    assert!(h.is_live(a));
    assert!(!h.is_live(b));
    assert!(h.is_live(c));
    assert_eq!(h.header_record(a).cap_word, 18);
    assert_eq!(h.header_record(c).cap_word, 38);
}

#[test]
fn double_free_is_detectable_before_the_second_call() {
    let mut h = Heap::new();
    let p = h.malloc(12);
    assert!(h.is_live(p));
    h.free(p);
    // the discipline check that guards against a second release
    assert!(!h.is_live(p));
}

#[test]
fn calloc_forwards_the_product() {
    let mut h = Heap::new();
    let p = h.calloc(6, 7);
    assert_eq!(h.header_record(p).cap_word, 50);
}

#[test]
fn payload_sits_eight_bytes_past_the_header() {
    let mut h = Heap::new();
    // a fresh heap starts handing out headers at its base address
    let a = h.malloc(4);
    // next block starts where the previous one ended: 8 header + 4 payload
    let b = h.malloc(4);
    assert_eq!(b, a + 12);
}

#[test]
fn memalign_rejects_non_power_of_two_multiples() {
    let mut h = Heap::new();
    // not a multiple of the pointer width
    assert_eq!(h.posix_memalign(3, 64).0, EINVAL);
    // zero alignment
    assert_eq!(h.posix_memalign(0, 64).0, EINVAL);
    // a multiple of the pointer width whose quotient is not a power of two
    assert_eq!(h.posix_memalign(12, 64).0, EINVAL);
    // rejection performed no allocation: the next malloc lands where it
    // would on a fresh heap
    let p = h.malloc(1);
    let mut fresh = Heap::new();
    assert_eq!(p, fresh.malloc(1));
}

#[test]
fn memalign_honors_the_alignment() {
    let mut h = Heap::new();
    let (code, addr) = h.posix_memalign(64, 100);
    assert_eq!(code, 0);
    assert!(addr != 0);
    assert_eq!(addr % 64, 0);
}

#[test]
fn memalign_reports_exhaustion() {
    let mut h = Heap::new();
    let (code, _) = h.posix_memalign(4, u32::MAX);
    assert_eq!(code, ENOMEM);
}

#[test]
fn sysconf_reports_the_page_size() {
    assert_eq!(zbox_bridge::heap::sysconf(30), 4096);
    assert_eq!(zbox_bridge::heap::sysconf(29), -1);
    assert_eq!(zbox_bridge::heap::sysconf(0), -1);
}

#[test]
fn stub_symbols_report_fixed_values() {
    assert_eq!(zbox_bridge::heap::errno_location(), 0);
    assert_eq!(zbox_bridge::heap::emscripten_asm_const_int(1, 2, 3), 0);
}

#[test]
fn power_of_two_test_is_exact() {
    assert!(!zbox_bridge::heap::is_power_of_two(0));
    assert!(zbox_bridge::heap::is_power_of_two(1));
    assert!(zbox_bridge::heap::is_power_of_two(2));
    assert!(!zbox_bridge::heap::is_power_of_two(3));
    assert!(zbox_bridge::heap::is_power_of_two(1024));
    assert!(!zbox_bridge::heap::is_power_of_two(1023));
    assert!(zbox_bridge::heap::is_power_of_two(0x8000_0000));
    assert!(!zbox_bridge::heap::is_power_of_two(u32::MAX));
}
