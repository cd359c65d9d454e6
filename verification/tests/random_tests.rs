use zbox_bridge::random::pack_random_u32;

#[test]
fn packs_bytes_little_endian() {
    assert_eq!(pack_random_u32(&vec![0, 0, 0, 0]), 0);
    assert_eq!(pack_random_u32(&vec![1, 0, 0, 0]), 1);
    assert_eq!(pack_random_u32(&vec![0, 1, 0, 0]), 0x100);
    assert_eq!(pack_random_u32(&vec![0, 0, 1, 0]), 0x1_0000);
    assert_eq!(pack_random_u32(&vec![0, 0, 0, 1]), 0x100_0000);
    assert_eq!(pack_random_u32(&vec![0x78, 0x56, 0x34, 0x12]), 0x1234_5678);
    assert_eq!(pack_random_u32(&vec![0xff, 0xff, 0xff, 0xff]), u32::MAX);
}

#[test]
fn distinct_quadruples_pack_to_distinct_values() {
    // a crude sweep standing in for the host's entropy: no two of these
    // collide, so the bridge passes the host's randomness through intact
    let mut seen = Vec::new();
    for i in 0..1000u32 {
        let b = vec![
            (i % 256) as u8,
            ((i / 4) % 256) as u8,
            ((i / 16) % 256) as u8,
            ((i / 64) % 256) as u8,
        ];
        let v = pack_random_u32(&b);
        assert!(!seen.contains(&v));
        seen.push(v);
    }
}
