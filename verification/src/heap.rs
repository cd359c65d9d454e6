use vstd::prelude::*;

verus! {

/// Error code reported when an aligned-allocation request cannot be served
/// because the address space is exhausted.
pub const ENOMEM: i32 = 12;

/// Error code reported when an aligned-allocation request carries an
/// invalid alignment.
pub const EINVAL: i32 = 22;

/// Size in bytes of the bookkeeping header that precedes every payload
/// handed out by `malloc`.
pub const HEADER_SIZE: u32 = 8;

/// Width in bytes of a pointer in the 32-bit linear address space.
pub const PTR_WIDTH: u32 = 4;

/// The two 32-bit bookkeeping words written at the base of every allocation:
/// a length word (always recorded as zero) and the authoritative capacity
/// word, which covers the header itself plus the payload.
#[derive(Clone, Copy, PartialEq, Eq, Structural, Debug)]
pub struct AllocRecord {
    pub len_word: u32,
    pub cap_word: u32,
}

/// A model of the linear-memory heap: the bookkeeping that the C-runtime
/// allocation shim maintains over raw addresses.
///
/// Header-based allocations (`malloc`/`calloc`/`free`) and header-less
/// aligned allocations (`posix_memalign`) are two incompatible strategies
/// sharing one address space, so they are tracked separately and an aligned
/// block can never be released through `free`.
pub struct Heap {
    table: Vec<(u32, AllocRecord)>,
    aligned: Vec<(u32, u32)>,
    next: u32,
}

/// The record table as a map from payload address to its header record.
pub open spec fn table_map(s: Seq<(u32, AllocRecord)>) -> Map<u32, AllocRecord>
    decreases s.len(),
{
    if s.len() == 0 {
        Map::empty()
    } else {
        table_map(s.drop_last()).insert(s.last().0, s.last().1)
    }
}

/// No two entries of the record table share a payload address.
pub open spec fn keys_distinct(s: Seq<(u32, AllocRecord)>) -> bool {
    forall|i: int, j: int|
        0 <= i < j < s.len() ==> (#[trigger] s[i]).0 != (#[trigger] s[j]).0
}

/// True when `n` is a power of two.
pub open spec fn spec_pow2(n: nat) -> bool
    decreases n,
{
    if n == 0 {
        false
    } else if n == 1 {
        true
    } else {
        n % 2 == 0 && spec_pow2(n / 2)
    }
}

/// An alignment is acceptable when it is a nonzero power-of-two multiple of
/// the pointer width.
pub open spec fn valid_alignment(alignment: u32) -> bool {
    alignment % PTR_WIDTH == 0 && spec_pow2((alignment / PTR_WIDTH) as nat)
}

/// The least address at or above `n` that is a multiple of `al`.
pub open spec fn round_up(n: int, al: int) -> int
    recommends
        al > 0,
{
    if n % al == 0 {
        n
    } else {
        n + al - n % al
    }
}

impl Heap {
    /// The live header-based allocations, keyed by payload address.
    pub closed spec fn records(self) -> Map<u32, AllocRecord> {
        table_map(self.table@)
    }

    /// The live aligned allocations, as (address, size) pairs in the order
    /// they were produced.
    pub closed spec fn aligned_blocks(self) -> Seq<(u32, u32)> {
        self.aligned@
    }

    /// The lowest address that has never been handed out.
    pub closed spec fn frontier(self) -> u32 {
        self.next
    }

    /// Well-formedness: every recorded block lies below the frontier, its
    /// payload sits exactly `HEADER_SIZE` bytes past its header base, blocks
    /// are laid out in order without overlap, and aligned blocks stay inside
    /// the handed-out region.
    pub closed spec fn wf(self) -> bool {
        &&& self.next >= HEADER_SIZE
        &&& forall|i: int|
            0 <= i < self.table@.len() ==> {
                let e = #[trigger] self.table@[i];
                &&& e.0 >= 2 * HEADER_SIZE
                &&& e.1.cap_word >= HEADER_SIZE
                &&& e.0 - HEADER_SIZE + e.1.cap_word <= self.next
            }
        &&& forall|i: int, j: int|
            0 <= i < j < self.table@.len()
                ==> (#[trigger] self.table@[i]).0 - HEADER_SIZE
                    + self.table@[i].1.cap_word <= (#[trigger] self.table@[j]).0 - HEADER_SIZE
        &&& forall|i: int|
            0 <= i < self.aligned@.len() ==> {
                let a = #[trigger] self.aligned@[i];
                &&& a.0 >= HEADER_SIZE
                &&& a.0 + a.1 <= self.next
            }
    }

    /// A fresh heap with no allocations.
    pub fn new() -> (h: Heap)
        ensures
            h.wf(),
            h.records() == Map::<u32, AllocRecord>::empty(),
            h.aligned_blocks() == Seq::<(u32, u32)>::empty(),
            h.frontier() == HEADER_SIZE,
    {
        Heap { table: Vec::new(), aligned: Vec::new(), next: HEADER_SIZE }
    }

    proof fn lemma_wf_keys_distinct(self)
        requires
            self.wf(),
        ensures
            keys_distinct(self.table@),
    {
        assert forall|i: int, j: int| 0 <= i < j < self.table@.len() implies (
        #[trigger] self.table@[i]).0 != (#[trigger] self.table@[j]).0 by {
            assert(self.table@[i].0 - HEADER_SIZE + self.table@[i].1.cap_word <= self.table@[j].0
                - HEADER_SIZE);
        }
    }

    proof fn lemma_keys_below_frontier(self)
        requires
            self.wf(),
        ensures
            forall|p: u32| self.records().dom().contains(p) ==> p <= self.frontier(),
    {
        lemma_table_map_dom(self.table@);
    }

    /// Allocate `size` payload bytes behind an `HEADER_SIZE`-byte header.
    ///
    /// The header's length word is recorded as zero and its capacity word as
    /// the full reserved capacity `size + HEADER_SIZE`; the returned payload
    /// address sits exactly `HEADER_SIZE` bytes past the header base and is
    /// the only valid argument to `free`.
    pub fn malloc(&mut self, size: u32) -> (ptr: u32)
        requires
            old(self).wf(),
            old(self).frontier() + HEADER_SIZE + size <= u32::MAX,
        ensures
            final(self).wf(),
            ptr == old(self).frontier() + HEADER_SIZE,
            ptr != 0,
            !old(self).records().dom().contains(ptr),
            final(self).records() == old(self).records().insert(
                ptr,
                (AllocRecord { len_word: 0, cap_word: (size + HEADER_SIZE) as u32 }),
            ),
            final(self).aligned_blocks() == old(self).aligned_blocks(),
            final(self).frontier() == old(self).frontier() + HEADER_SIZE + size,
    {
        let base: u32 = self.next;
        let capacity: u32 = HEADER_SIZE + size;
        let ptr: u32 = base + HEADER_SIZE;
        let rec = AllocRecord { len_word: 0, cap_word: capacity };
        proof {
            self.lemma_keys_below_frontier();
            assert(self.table@.push((ptr, rec)).drop_last() == self.table@);
        }
        self.table.push((ptr, rec));
        self.next = base + capacity;
        ptr
    }

    /// Allocate room for `nmemb` elements of `size` bytes each by forwarding
    /// to `malloc` on the product.
    ///
    /// The returned payload is not zero-filled: this shim diverges from the
    /// conventional zero-initialization contract of this call, and callers
    /// that depend on zeroed memory will observe whatever bytes were already
    /// there.
    pub fn calloc(&mut self, nmemb: u32, size: u32) -> (ptr: u32)
        requires
            old(self).wf(),
            nmemb * size <= u32::MAX,
            old(self).frontier() + HEADER_SIZE + nmemb * size <= u32::MAX,
        ensures
            final(self).wf(),
            ptr == old(self).frontier() + HEADER_SIZE,
            ptr != 0,
            !old(self).records().dom().contains(ptr),
            final(self).records() == old(self).records().insert(
                ptr,
                (AllocRecord { len_word: 0, cap_word: (nmemb * size + HEADER_SIZE) as u32 }),
            ),
            final(self).aligned_blocks() == old(self).aligned_blocks(),
            final(self).frontier() == old(self).frontier() + HEADER_SIZE + nmemb * size,
    {
        self.malloc(nmemb * size)
    }

    /// Release the allocation whose payload starts at `ptr`.
    ///
    /// The null address is a no-op. Otherwise the header just below `ptr` is
    /// read back and the block it records is returned to the host allocator;
    /// the record must still be live, since releasing an address twice, or
    /// one that `malloc` never produced, is a fatal caller error.
    #[verifier::loop_isolation(false)]
    pub fn free(&mut self, ptr: u32)
        requires
            old(self).wf(),
            ptr == 0 || old(self).records().dom().contains(ptr),
        ensures
            final(self).wf(),
            final(self).frontier() == old(self).frontier(),
            final(self).aligned_blocks() == old(self).aligned_blocks(),
            ptr == 0 ==> final(self).records() == old(self).records(),
            ptr != 0 ==> final(self).records() == old(self).records().remove(ptr),
    {
        if ptr == 0 {
            return ;
        }
        proof {
            lemma_table_map_dom(self.table@);
            self.lemma_wf_keys_distinct();
        }
        let ghost s0 = self.table@;
        let mut i: usize = 0;
        while i < self.table.len()
            invariant
                *self == *old(self),
                self.table@ == s0,
                i <= s0.len(),
                exists|k: int| i <= k < s0.len() && (#[trigger] s0[k]).0 == ptr,
                forall|k: int| 0 <= k < i ==> (#[trigger] s0[k]).0 != ptr,
            decreases s0.len() - i,
        {
            if self.table[i].0 == ptr {
                // The header read: the recorded capacity tells how large a
                // block to hand back to the host allocator.
                let _rec: AllocRecord = self.table[i].1;
                proof {
                    lemma_table_map_remove(s0, i as int);
                    s0.remove_ensures(i as int);
                }
                self.table.remove(i);
                assert(final(self).records() =~= old(self).records().remove(ptr));
                return ;
            }
            i += 1;
        }
        proof {
            assert(false);
        }
    }

    /// Serve an aligned-allocation request outside the header scheme.
    ///
    /// The alignment must be a nonzero power-of-two multiple of the pointer
    /// width; otherwise the invalid-argument code is returned and nothing is
    /// allocated. On success the code 0 is paired with the address of a
    /// fresh block honoring the alignment; when the address space cannot
    /// hold the block, the out-of-memory code is returned instead. Blocks
    /// produced here carry no header and must never be passed to `free`.
    pub fn posix_memalign(&mut self, alignment: u32, size: u32) -> (r: (i32, u32))
        requires
            old(self).wf(),
        ensures
            final(self).wf(),
            final(self).records() == old(self).records(),
            r.0 == EINVAL || r.0 == ENOMEM || r.0 == 0,
            (r.0 == EINVAL) <==> !valid_alignment(alignment),
            r.0 != 0 ==> final(self).aligned_blocks() == old(self).aligned_blocks()
                && final(self).frontier() == old(self).frontier(),
            r.0 == 0 ==> r.1 != 0 && r.1 % alignment == 0 && final(self).aligned_blocks()
                == old(self).aligned_blocks().push((r.1, size)) && r.1 + size <= final(self).frontier(),
            valid_alignment(alignment) && round_up(
                old(self).frontier() as int,
                alignment as int,
            ) + size <= u32::MAX ==> r.0 == 0,
            r.0 == 0 ==> r.1 == round_up(old(self).frontier() as int, alignment as int),
    {
        if !(alignment % PTR_WIDTH == 0 && is_power_of_two(alignment / PTR_WIDTH)) {
            return (EINVAL, 0);
        }
        assert(alignment >= PTR_WIDTH);
        let next64: u64 = self.next as u64;
        let al: u64 = alignment as u64;
        let rem: u64 = next64 % al;
        let addr64: u64 = if rem == 0 {
            next64
        } else {
            next64 + (al - rem)
        };
        proof {
            vstd::arithmetic::div_mod::lemma_fundamental_div_mod(next64 as int, al as int);
            if rem != 0 {
                assert(addr64 == al * (next64 / al) + al);
                assert(addr64 == al * (next64 / al + 1)) by (nonlinear_arith)
                    requires
                        addr64 == al * (next64 / al) + al,
                ;
                vstd::arithmetic::div_mod::lemma_mod_multiples_basic(
                    next64 as int / al as int + 1,
                    al as int,
                );
            }
            assert(addr64 % al == 0);
        }
        let end64: u64 = addr64 + size as u64;
        if end64 > 0xFFFF_FFFFu64 {
            return (ENOMEM, 0);
        }
        let addr: u32 = addr64 as u32;
        proof {
            assert(self.aligned@.push((addr, size)).drop_last() == self.aligned@);
        }
        self.aligned.push((addr, size));
        self.next = end64 as u32;
        (0i32, addr)
    }

    /// Whether `ptr` is the payload address of a live header-based
    /// allocation: the addresses that `free` may still be given.
    #[verifier::loop_isolation(false)]
    pub fn is_live(&self, ptr: u32) -> (r: bool)
        requires
            self.wf(),
        ensures
            r == self.records().dom().contains(ptr),
    {
        proof {
            lemma_table_map_dom(self.table@);
        }
        let mut i: usize = 0;
        while i < self.table.len()
            invariant
                i <= self.table@.len(),
                forall|k: int| 0 <= k < i ==> (#[trigger] self.table@[k]).0 != ptr,
            decreases self.table@.len() - i,
        {
            if self.table[i].0 == ptr {
                return true;
            }
            i += 1;
        }
        false
    }

    /// Read back the header record of a live allocation.
    #[verifier::loop_isolation(false)]
    pub fn header_record(&self, ptr: u32) -> (r: AllocRecord)
        requires
            self.wf(),
            self.records().dom().contains(ptr),
        ensures
            r == self.records()[ptr],
    {
        proof {
            lemma_table_map_dom(self.table@);
            self.lemma_wf_keys_distinct();
        }
        let mut i: usize = 0;
        while i < self.table.len()
            invariant
                self.wf(),
                self.records().dom().contains(ptr),
                i <= self.table@.len(),
                exists|k: int| i <= k < self.table@.len() && (#[trigger] self.table@[k]).0 == ptr,
                forall|k: int| 0 <= k < i ==> (#[trigger] self.table@[k]).0 != ptr,
            decreases self.table@.len() - i,
        {
            if self.table[i].0 == ptr {
                proof {
                    self.lemma_wf_keys_distinct();
                    lemma_table_map_get(self.table@, i as int);
                }
                return self.table[i].1;
            }
            i += 1;
        }
        proof {
            assert(false);
        }
        AllocRecord { len_word: 0, cap_word: 0 }
    }
}

/// Exact power-of-two test on a 32-bit word.
pub fn is_power_of_two(x: u32) -> (r: bool)
    ensures
        r == spec_pow2(x as nat),
{
    if x == 0 {
        return false;
    }
    let mut v: u32 = x;
    while v > 1 && v % 2 == 0
        invariant
            v >= 1,
            spec_pow2(x as nat) == spec_pow2(v as nat),
        decreases v,
    {
        v = v / 2;
    }
    v == 1
}

proof fn lemma_table_map_dom(s: Seq<(u32, AllocRecord)>)
    ensures
        forall|p: u32|
            #[trigger] table_map(s).dom().contains(p) <==> exists|k: int|
                0 <= k < s.len() && (#[trigger] s[k]).0 == p,
    decreases s.len(),
{
    if s.len() == 0 {
        assert(table_map(s) == Map::<u32, AllocRecord>::empty());
    } else {
        let t = s.drop_last();
        lemma_table_map_dom(t);
        assert(table_map(s) == table_map(t).insert(s.last().0, s.last().1));
        assert forall|p: u32| #[trigger] table_map(s).dom().contains(p) implies exists|k: int|
            0 <= k < s.len() && (#[trigger] s[k]).0 == p by {
            if p == s.last().0 {
                assert(s[s.len() - 1].0 == p);
            } else {
                assert(table_map(t).dom().contains(p));
                let k = choose|k: int| 0 <= k < t.len() && (#[trigger] t[k]).0 == p;
                assert(s[k] == t[k]);
                assert(s[k].0 == p);
            }
        }
        assert forall|p: u32|
            (exists|k: int| 0 <= k < s.len() && (#[trigger] s[k]).0 == p) implies #[trigger] table_map(
            s,
        ).dom().contains(p) by {
            let k = choose|k: int| 0 <= k < s.len() && (#[trigger] s[k]).0 == p;
            if k < s.len() - 1 {
                assert(t[k] == s[k]);
                assert(t[k].0 == p);
                assert(table_map(t).dom().contains(p));
            }
        }
    }
}

proof fn lemma_table_map_get(s: Seq<(u32, AllocRecord)>, i: int)
    requires
        keys_distinct(s),
        0 <= i < s.len(),
    ensures
        table_map(s).dom().contains(s[i].0),
        table_map(s)[s[i].0] == s[i].1,
    decreases s.len(),
{
    if i == s.len() - 1 {
    } else {
        assert(keys_distinct(s.drop_last())) by {
            assert forall|a: int, b: int| 0 <= a < b < s.drop_last().len() implies (
            #[trigger] s.drop_last()[a]).0 != (#[trigger] s.drop_last()[b]).0 by {
                assert(s[a].0 != s[b].0);
            }
        }
        assert(s.drop_last()[i] == s[i]);
        lemma_table_map_get(s.drop_last(), i);
        assert(s[i].0 != s.last().0);
    }
}

proof fn lemma_table_map_remove(s: Seq<(u32, AllocRecord)>, i: int)
    requires
        keys_distinct(s),
        0 <= i < s.len(),
    ensures
        table_map(s.remove(i)) == table_map(s).remove(s[i].0),
    decreases s.len(),
{
    s.remove_ensures(i);
    lemma_table_map_dom(s.drop_last());
    assert(keys_distinct(s.drop_last())) by {
        assert forall|a: int, b: int| 0 <= a < b < s.drop_last().len() implies (
        #[trigger] s.drop_last()[a]).0 != (#[trigger] s.drop_last()[b]).0 by {
            assert(s[a].0 != s[b].0);
        }
    }
    if i == s.len() - 1 {
        assert(s.remove(i) =~= s.drop_last());
        // the removed key is fresh in the shorter table, so removing it
        // undoes the final insert exactly
        assert(!table_map(s.drop_last()).dom().contains(s[i].0)) by {
            if table_map(s.drop_last()).dom().contains(s[i].0) {
                let k = choose|k: int|
                    0 <= k < s.drop_last().len() && (#[trigger] s.drop_last()[k]).0 == s[i].0;
                assert(s[k].0 == s[i].0);
            }
        }
        assert(table_map(s).remove(s[i].0) =~= table_map(s.drop_last()));
    } else {
        let t = s.drop_last();
        lemma_table_map_remove(t, i);
        assert(s.remove(i).drop_last() =~= t.remove(i)) by {
            t.remove_ensures(i);
        }
        assert(s.remove(i).last() == s.last());
        assert(s[i] == t[i]);
        assert(s.last().0 != s[i].0);
        assert(table_map(s.remove(i)) == table_map(t.remove(i)).insert(s.last().0, s.last().1));
        assert(table_map(t).remove(s[i].0).insert(s.last().0, s.last().1) =~= table_map(t).insert(
            s.last().0,
            s.last().1,
        ).remove(s[i].0));
        assert(table_map(s.remove(i)) =~= table_map(s).remove(s[i].0));
    }
}

/// Allocating at a fresh payload address and then releasing that same
/// address restores the record table exactly, and while the allocation is
/// live its header record is the one the allocation wrote. Together with
/// the contracts of `malloc` (which always yields a fresh live address and
/// records capacity `size + HEADER_SIZE`) and `free` (which accepts every
/// live address), this says a `malloc` immediately followed by `free` of
/// the result is always permitted and leaves no trace.
pub proof fn lemma_alloc_then_release_restores(
    m: Map<u32, AllocRecord>,
    p: u32,
    r: AllocRecord,
)
    requires
        !m.dom().contains(p),
    ensures
        m.insert(p, r).dom().contains(p),
        m.insert(p, r)[p] == r,
        m.insert(p, r).remove(p) == m,
{
    assert(m.insert(p, r).remove(p) =~= m);
}

/// Once `free` has removed a payload address from the record table, that
/// address is no longer live, so the contract of `free` rejects a second
/// release of the same address: a double release is detected at the first
/// offending call rather than corrupting the heap.
pub proof fn lemma_double_release_rejected(m: Map<u32, AllocRecord>, p: u32)
    ensures
        !m.remove(p).dom().contains(p),
{
}

/// Query a runtime configuration value by its numeric selector.
/// Only the page-size selector (30) is supported and reports a 4 KiB page;
/// every other selector is unsupported and yields -1.
pub fn sysconf(name: i32) -> (r: i32)
    ensures
        name == 30 ==> r == 4096,
        name != 30 ==> r == -1,
{
    if name == 30 {
        4096
    } else {
        -1
    }
}

/// The per-thread errno cell is not modeled: the fixed null-equivalent
/// address stands in for it.
pub fn errno_location() -> (r: i32)
    ensures
        r == 0,
{
    0
}

/// Fixed stub present only to satisfy a linkage requirement; it carries no
/// behavioral contract beyond always yielding zero.
pub fn emscripten_asm_const_int(_a: i32, _b: i32, _c: i32) -> (r: i32)
    ensures
        r == 0,
{
    0
}

} // verus!
