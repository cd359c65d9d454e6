use vstd::prelude::*;

verus! {

/// A null terminator exists at or after position `s`.
pub open spec fn has_nul(mem: Seq<u8>, s: int) -> bool {
    exists|z: int| s <= z < mem.len() && mem[z] == 0
}

/// The number of bytes before the first null terminator at or after `s`;
/// zero when `s` lies outside the memory.
pub open spec fn strlen_from(mem: Seq<u8>, s: int) -> nat
    decreases mem.len() - s,
{
    if s < 0 || s >= mem.len() {
        0
    } else if mem[s] == 0 {
        0
    } else {
        (1 + strlen_from(mem, s + 1)) as nat
    }
}

/// The address of the first occurrence of `c` at or after `s` but before
/// the null terminator; the null address when the terminator (or the end
/// of memory) comes first.
pub open spec fn strchr_from(mem: Seq<u8>, s: int, c: u8) -> int
    decreases mem.len() - s,
{
    if s < 0 || s >= mem.len() {
        0
    } else if mem[s] == 0 {
        0
    } else if mem[s] == c {
        s
    } else {
        strchr_from(mem, s + 1, c)
    }
}

/// Byte-wise comparison with standard C semantics: the signed difference
/// of the first pair that differs or that reaches a terminator, zero when
/// every compared pair is equal and nonzero.
pub open spec fn strncmp_seqs(a: Seq<u8>, b: Seq<u8>) -> int
    recommends
        a.len() == b.len(),
    decreases a.len(),
{
    if a.len() == 0 || b.len() == 0 {
        0
    } else if a[0] != b[0] || a[0] == 0 {
        a[0] - b[0]
    } else {
        strncmp_seqs(a.drop_first(), b.drop_first())
    }
}

/// Length of the null-terminated string starting at address `s` in linear
/// memory: the count of bytes strictly before the first null terminator.
#[verifier::loop_isolation(false)]
pub fn strlen(mem: &Vec<u8>, s: u32) -> (r: u32)
    requires
        mem@.len() <= u32::MAX,
        s < mem@.len(),
        has_nul(mem@, s as int),
    ensures
        r == strlen_from(mem@, s as int),
        s + r < mem@.len(),
        mem@[s as int + r as int] == 0,
        forall|k: int| s <= k < s + r ==> mem@[k] != 0,
{
    let ghost z = choose|z: int| s <= z < mem@.len() && mem@[z] == 0;
    let mut i: u32 = s;
    while mem[i as usize] != 0
        invariant
            s <= i <= z,
            strlen_from(mem@, s as int) == i - s + strlen_from(mem@, i as int),
            forall|k: int| s <= k < i ==> mem@[k] != 0,
        decreases z - i,
    {
        i = i + 1;
    }
    i - s
}

/// Address of the first occurrence of the byte `c` (the low 8 bits of the
/// given word) in the null-terminated string at `s`; the null address when
/// the terminator comes first.
#[verifier::loop_isolation(false)]
pub fn strchr(mem: &Vec<u8>, s: u32, c: u32) -> (r: u32)
    requires
        mem@.len() <= u32::MAX,
        s < mem@.len(),
        has_nul(mem@, s as int),
    ensures
        r == strchr_from(mem@, s as int, c as u8),
{
    let ghost z = choose|z: int| s <= z < mem@.len() && mem@[z] == 0;
    let target: u8 = c as u8;
    let mut i: u32 = s;
    while mem[i as usize] != 0
        invariant
            s <= i <= z,
            strchr_from(mem@, s as int, c as u8) == strchr_from(mem@, i as int, c as u8),
            forall|k: int| s <= k < i ==> mem@[k] != 0,
        decreases z - i,
    {
        if mem[i as usize] == target {
            return i;
        }
        i = i + 1;
    }
    0
}

/// Compare up to `n` bytes of the two strings at `s1` and `s2`, stopping
/// early at a mismatch or a terminator and returning the signed difference
/// of the bytes where the comparison stopped.
#[verifier::loop_isolation(false)]
pub fn strncmp(mem: &Vec<u8>, s1: u32, s2: u32, n: u32) -> (r: i32)
    requires
        mem@.len() <= u32::MAX,
        s1 + n <= mem@.len(),
        s2 + n <= mem@.len(),
    ensures
        r == strncmp_seqs(
            mem@.subrange(s1 as int, s1 + n),
            mem@.subrange(s2 as int, s2 + n),
        ),
{
    let ghost a = mem@.subrange(s1 as int, s1 + n);
    let ghost b = mem@.subrange(s2 as int, s2 + n);
    proof {
        assert(a.skip(0) =~= a);
        assert(b.skip(0) =~= b);
    }
    let mut i: u32 = 0;
    while i < n
        invariant
            i <= n,
            strncmp_seqs(a, b) == strncmp_seqs(a.skip(i as int), b.skip(i as int)),
        decreases n - i,
    {
        let x: u8 = mem[(s1 + i) as usize];
        let y: u8 = mem[(s2 + i) as usize];
        proof {
            assert(a.skip(i as int)[0] == x);
            assert(b.skip(i as int)[0] == y);
        }
        if x != y || x == 0 {
            return x as i32 - y as i32;
        }
        proof {
            assert(a.skip(i as int).drop_first() =~= a.skip(i + 1));
            assert(b.skip(i as int).drop_first() =~= b.skip(i + 1));
        }
        i = i + 1;
    }
    proof {
        assert(a.skip(n as int) =~= Seq::<u8>::empty());
        assert(b.skip(n as int) =~= Seq::<u8>::empty());
    }
    0
}

} // verus!
