//! DMA buffer pool: accounting for a window of physically contiguous,
//! cache-coherent memory that descriptor rings and packet buffers are
//! carved from.
//!
//! The pool hands out regions bump-style from a fixed window, so two
//! live regions never overlap: every allocation starts at or after the
//! cursor the previous one advanced. Regions handed to a ring must stay
//! valid for the ring's whole active lifetime; the adapter therefore
//! releases ring memory only after a quiesce, and the pool's window is
//! recycled only once every region has been given back.

use vstd::prelude::*;

use vstd::arithmetic::div_mod::{lemma_fundamental_div_mod, lemma_mod_multiples_basic, lemma_mod_bound};

use crate::DriverError;

verus! {

/// An owned block of DMA-able memory: stable physical address and size.
#[derive(Clone, Copy, Debug, PartialEq, Eq, Structural)]
pub struct DmaRegion {
    pub addr: u64,
    pub size: u64,
}

/// The pool: a window `[base, limit)` of platform DMA memory, a bump
/// cursor, and the number of regions currently live.
pub struct DmaPool {
    pub base: u64,
    pub limit: u64,
    pub next: u64,
    pub live: u64,
}

/// `x` rounded up to the next multiple of `a`.
pub open spec fn spec_align_up(x: int, a: int) -> int {
    if x % a == 0 {
        x
    } else {
        x + a - x % a
    }
}

impl DmaPool {
    /// Pool well-formedness. The window sits below the 48-bit bound the
    /// platform's DMA window fits in, which keeps every cursor
    /// computation comfortably inside `u64`; each live region occupies
    /// at least one byte of the consumed prefix.
    pub open spec fn wf(self) -> bool {
        &&& self.base <= self.next <= self.limit
        &&& self.limit <= 0x0001_0000_0000_0000u64
        &&& self.live <= self.next - self.base
    }

    /// Bytes not yet handed out.
    pub open spec fn remaining(self) -> int {
        self.limit - self.next
    }

    /// A fresh pool over the window `[base, limit)`.
    pub fn new(base: u64, limit: u64) -> (r: DmaPool)
        requires
            base <= limit,
            limit <= 0x0001_0000_0000_0000u64,
        ensures
            r.wf(),
            r.base == base,
            r.limit == limit,
            r.next == base,
            r.live == 0,
    {
        DmaPool { base, limit, next: base, live: 0 }
    }

    /// Allocates a region of `size` bytes aligned to `align`. Succeeds,
    /// with an aligned region lying past every earlier allocation and
    /// inside the window, exactly when the aligned cursor still leaves
    /// `size` bytes before the limit; otherwise fails with
    /// `OutOfMemory` and changes nothing.
    pub fn allocate(&mut self, size: u64, align: u64) -> (r: Result<DmaRegion, DriverError>)
        requires
            old(self).wf(),
            1 <= align <= 4096,
            1 <= size,
        ensures
            final(self).wf(),
            final(self).base == old(self).base,
            final(self).limit == old(self).limit,
            (r matches Ok(_)) <==> spec_align_up(old(self).next as int, align as int) + size
                <= old(self).limit,
            r matches Err(e) ==> e == DriverError::OutOfMemory && *final(self) == *old(self),
            r matches Err(_) ==> old(self).limit < old(self).next + (align - 1) + size,
            r matches Ok(region) ==> {
                &&& region.addr == spec_align_up(old(self).next as int, align as int)
                &&& region.size == size
                &&& region.addr as int % align as int == 0
                &&& old(self).next <= region.addr
                &&& region.addr + region.size <= old(self).limit
                &&& final(self).next == region.addr + region.size
                &&& final(self).next <= old(self).next + (align - 1) + size
                &&& final(self).live == old(self).live + 1
            },
    {
        let rem = self.next % align;
        let aligned = if rem == 0 {
            self.next
        } else {
            self.next + (align - rem)
        };
        proof {
            let x = self.next as int;
            let a = align as int;
            lemma_mod_bound(x, a);
            assert(aligned as int == spec_align_up(x, a));
            assert(aligned as int <= x + a - 1);
            if rem != 0 {
                lemma_fundamental_div_mod(x, a);
                let q = x / a;
                assert(aligned as int == (q + 1) * a) by (nonlinear_arith)
                    requires
                        x == a * q + (rem as int),
                        aligned as int == x + a - rem as int,
                ;
                lemma_mod_multiples_basic(q + 1, a);
            }
        }
        if aligned <= self.limit && size <= self.limit - aligned {
            let region = DmaRegion { addr: aligned, size };
            self.next = aligned + size;
            self.live = self.live + 1;
            Ok(region)
        } else {
            Err(DriverError::OutOfMemory)
        }
    }

    /// Gives a region back to the pool. The caller must only do this
    /// once the device can no longer reference the region — the adapter
    /// enforces that by quiescing before teardown. The bump window is
    /// recycled once the last live region has been returned.
    pub fn free(&mut self, region: DmaRegion)
        requires
            old(self).wf(),
            old(self).live >= 1,
        ensures
            final(self).wf(),
            final(self).base == old(self).base,
            final(self).limit == old(self).limit,
            final(self).live == old(self).live - 1,
            final(self).next == (if old(self).live == 1 {
                old(self).base
            } else {
                old(self).next
            }),
    {
        let _ = region;
        self.live = self.live - 1;
        if self.live == 0 {
            self.next = self.base;
        }
    }
}

} // verus!
