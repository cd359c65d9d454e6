use vstd::prelude::*;

verus! {

/// The 32-bit value encoded by four bytes in little-endian order.
pub open spec fn le32(b: Seq<u8>) -> int
    recommends
        b.len() == 4,
{
    b[0] + 0x100 * b[1] + 0x1_0000 * b[2] + 0x100_0000 * b[3]
}

/// Assemble the four bytes drawn from the host's secure-random capability
/// into one little-endian 32-bit value. The entropy itself comes from the
/// host; this step is pure and loses none of it: every distinct byte
/// quadruple yields a distinct value.
pub fn pack_random_u32(b: &Vec<u8>) -> (r: u32)
    requires
        b@.len() == 4,
    ensures
        r == le32(b@),
{
    let b0: u8 = b[0];
    let b1: u8 = b[1];
    let b2: u8 = b[2];
    let b3: u8 = b[3];
    let r: u32 = ((b3 as u32) << 24u32) | ((b2 as u32) << 16u32) | ((b1 as u32) << 8u32) | (
    b0 as u32);
    proof {
        assert(r == b0 + 0x100 * b1 + 0x1_0000 * b2 + 0x100_0000 * b3) by (bit_vector)
            requires
                r == ((b3 as u32) << 24u32) | ((b2 as u32) << 16u32) | ((b1 as u32) << 8u32) | (
                b0 as u32),
        ;
    }
    r
}

/// The little-endian assembly drops no entropy: each byte of the quadruple
/// is recoverable from the packed value, so two quadruples that differ
/// anywhere pack to different values.
pub proof fn lemma_le32_injective(a: Seq<u8>, b: Seq<u8>)
    requires
        a.len() == 4,
        b.len() == 4,
        le32(a) == le32(b),
    ensures
        a =~= b,
{
    let a0 = a[0] as int;
    let a1 = a[1] as int;
    let a2 = a[2] as int;
    let a3 = a[3] as int;
    let b0 = b[0] as int;
    let b1 = b[1] as int;
    let b2 = b[2] as int;
    let b3 = b[3] as int;
    assert(a0 == (a0 + 0x100 * a1 + 0x1_0000 * a2 + 0x100_0000 * a3) % 0x100) by (nonlinear_arith)
        requires
            0 <= a0 < 0x100,
            0 <= a1 < 0x100,
            0 <= a2 < 0x100,
            0 <= a3 < 0x100,
    ;
    assert(b0 == (b0 + 0x100 * b1 + 0x1_0000 * b2 + 0x100_0000 * b3) % 0x100) by (nonlinear_arith)
        requires
            0 <= b0 < 0x100,
            0 <= b1 < 0x100,
            0 <= b2 < 0x100,
            0 <= b3 < 0x100,
    ;
    assert(a1 == ((a0 + 0x100 * a1 + 0x1_0000 * a2 + 0x100_0000 * a3) / 0x100) % 0x100)
        by (nonlinear_arith)
        requires
            0 <= a0 < 0x100,
            0 <= a1 < 0x100,
            0 <= a2 < 0x100,
            0 <= a3 < 0x100,
    ;
    assert(b1 == ((b0 + 0x100 * b1 + 0x1_0000 * b2 + 0x100_0000 * b3) / 0x100) % 0x100)
        by (nonlinear_arith)
        requires
            0 <= b0 < 0x100,
            0 <= b1 < 0x100,
            0 <= b2 < 0x100,
            0 <= b3 < 0x100,
    ;
    assert(a2 == ((a0 + 0x100 * a1 + 0x1_0000 * a2 + 0x100_0000 * a3) / 0x1_0000) % 0x100)
        by (nonlinear_arith)
        requires
            0 <= a0 < 0x100,
            0 <= a1 < 0x100,
            0 <= a2 < 0x100,
            0 <= a3 < 0x100,
    ;
    assert(b2 == ((b0 + 0x100 * b1 + 0x1_0000 * b2 + 0x100_0000 * b3) / 0x1_0000) % 0x100)
        by (nonlinear_arith)
        requires
            0 <= b0 < 0x100,
            0 <= b1 < 0x100,
            0 <= b2 < 0x100,
            0 <= b3 < 0x100,
    ;
    assert(a3 == (a0 + 0x100 * a1 + 0x1_0000 * a2 + 0x100_0000 * a3) / 0x100_0000)
        by (nonlinear_arith)
        requires
            0 <= a0 < 0x100,
            0 <= a1 < 0x100,
            0 <= a2 < 0x100,
            0 <= a3 < 0x100,
    ;
    assert(b3 == (b0 + 0x100 * b1 + 0x1_0000 * b2 + 0x100_0000 * b3) / 0x100_0000)
        by (nonlinear_arith)
        requires
            0 <= b0 < 0x100,
            0 <= b1 < 0x100,
            0 <= b2 < 0x100,
            0 <= b3 < 0x100,
    ;
}

} // verus!
