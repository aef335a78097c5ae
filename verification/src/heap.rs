use vstd::prelude::*;

verus! {

/// Size of the policy module's fixed heap, in bytes.
pub const HEAP_SIZE: usize = 65536;

/// Bytes to skip from address `addr` to reach the next multiple of `align`.
pub open spec fn align_pad(addr: nat, align: nat) -> nat {
    if addr % align == 0 {
        0
    } else {
        (align - addr % align) as nat
    }
}

/// Where an allocation of `size` bytes, aligned to `align`, starts in a heap at address `base`
/// of which `used` bytes are handed out: the first offset from `used` on whose address is a
/// multiple of `align`; `None` when the request does not fit in the heap from there.
pub open spec fn next_offset(base: nat, used: nat, size: nat, align: nat) -> Option<nat> {
    let offset = used + align_pad(base + used, align);
    if offset + size <= HEAP_SIZE {
        Some(offset)
    } else {
        None
    }
}

proof fn lemma_align_pad(addr: nat, align: nat)
    requires
        align > 0,
    ensures
        (addr + align_pad(addr, align)) % align == 0,
        align_pad(addr, align) < align,
{
    let r = addr % align;
    let q = addr / align;
    assert(addr == q * align + r && 0 <= r < align) by (nonlinear_arith)
        requires
            align > 0,
            r == addr % align,
            q == addr / align,
    ;
    if r != 0 {
        assert(((q * align + r + (align - r)) as nat) % align == 0) by (nonlinear_arith)
            requires
                align > 0,
        {
            assert(q * align + r + (align - r) == (q + 1) * align);
        }
    }
}

/// The bookkeeping of a bump allocator over a fixed heap of `HEAP_SIZE` bytes: every
/// allocation takes the next suitably aligned bytes after the previous one, and nothing is
/// ever given back.
pub struct BumpHeap {
    pos: usize,
}

impl BumpHeap {
    /// Bytes handed out so far, padding included.
    pub closed spec fn used(&self) -> nat {
        self.pos as nat
    }

    #[verifier::type_invariant]
    spec fn within_heap(&self) -> bool {
        self.pos <= HEAP_SIZE
    }

    /// A heap of which nothing is handed out yet.
    pub fn new() -> (h: Self)
        ensures
            h.used() == 0,
    {
        BumpHeap { pos: 0 }
    }

    /// Bytes handed out so far.
    pub fn used_bytes(&self) -> (n: usize)
        ensures
            n == self.used(),
            n <= HEAP_SIZE,
    {
        proof {
            use_type_invariant(self);
        }
        self.pos
    }

    /// Hands out `size` bytes aligned to `align`, for a heap that starts at address `base`:
    /// returns their offset in the heap, the first one after the bytes handed out before
    /// whose address is a multiple of `align`, or `None`, with nothing handed out, when the
    /// request does not fit.
    pub fn allocate(&mut self, base: usize, size: usize, align: usize) -> (r: Option<usize>)
        requires
            align > 0,
            base + HEAP_SIZE <= usize::MAX,
        ensures
            r is Some <==> next_offset(base as nat, old(self).used(), size as nat, align as nat) is Some,
            r matches Some(offset) ==> {
                &&& offset == next_offset(base as nat, old(self).used(), size as nat, align as nat)->0
                &&& old(self).used() <= offset
                &&& offset + size <= HEAP_SIZE
                &&& (base + offset) % (align as int) == 0
                &&& final(self).used() == offset + size
            },
            r is None ==> final(self).used() == old(self).used(),
    {
        proof {
            use_type_invariant(&*self);
            lemma_align_pad((base + self.pos) as nat, align as nat);
        }
        let addr = base + self.pos;
        let rem = addr % align;
        let pad: usize = if rem == 0 { 0 } else { align - rem };
        if pad > HEAP_SIZE - self.pos {
            return None;
        }
        let offset = self.pos + pad;
        if size > HEAP_SIZE - offset {
            return None;
        }
        self.pos = offset + size;
        Some(offset)
    }
}

/// Two allocations in a row get regions that do not overlap: the second begins at or after
/// the end of the first.
pub proof fn law_bump_regions_disjoint(base: nat, used: nat, size1: nat, align1: nat, size2: nat, align2: nat)
    requires
        next_offset(base, used, size1, align1) is Some,
        next_offset(base, next_offset(base, used, size1, align1)->0 + size1, size2, align2) is Some,
    ensures
        ({
            let first = next_offset(base, used, size1, align1)->0;
            let second = next_offset(base, first + size1, size2, align2)->0;
            used <= first && first + size1 <= second
        }),
{
}

} // verus!
