//! Receive descriptor ring: the host publishes buffer-backed slots for
//! the device, the device lands packets in them in order and writes
//! back a done bit with the packet length, and the host drains
//! completed slots from `head`.
//!
//! Cursor discipline mirrors the transmit ring: slots in `[head, tail)`
//! are device-usable, the device's write-back has reached `dev`, and
//! exactly the slots in `[head, dev)` carry the done bit. On
//! initialization every advertised slot is backed by a pre-allocated
//! buffer: a receive ring with empty advertised slots would leave the
//! device nowhere to land packets.

use vstd::prelude::*;

use crate::DriverError;
use crate::ring::{valid_ring_size, dist, slot_add, in_window, ring_dist, ring_next};
use crate::ring::{lemma_dist_injective, lemma_window_split};

verus! {

/// One hardware-visible receive descriptor: the buffer the host handed
/// to the device, and the length and done bit the device writes back.
#[derive(Clone, Copy, Debug, PartialEq, Eq, Structural)]
pub struct RxDescriptor {
    pub buf_addr: u64,
    pub pkt_len: u16,
    pub done: bool,
}

/// One received packet as handed to the caller: the backing buffer and
/// the device-reported length.
#[derive(Clone, Copy, Debug, PartialEq, Eq, Structural)]
pub struct RxPacket {
    pub buf_addr: u64,
    pub len: u16,
}

/// The receive ring. `active` is true exactly while the device is
/// permitted to write descriptors (between start and quiesce).
pub struct RxRing {
    pub descs: Vec<RxDescriptor>,
    pub head: usize,
    pub dev: usize,
    pub tail: usize,
    pub active: bool,
}

impl RxRing {
    /// Number of descriptor slots.
    pub open spec fn n(self) -> int {
        self.descs.len() as int
    }

    /// Number of slots currently advertised to the device.
    pub open spec fn avail(self) -> int {
        dist(self.head as int, self.tail as int, self.n())
    }

    /// Number of advertised slots the device has filled and written
    /// back, waiting for the host to drain them.
    pub open spec fn delivered(self) -> int {
        dist(self.head as int, self.dev as int, self.n())
    }

    /// Ring well-formedness: reduced cursors, write-back no further
    /// than the advertised window, and among advertised slots the done
    /// bit set exactly on the window the device has filled.
    pub open spec fn wf(self) -> bool {
        &&& valid_ring_size(self.descs.len())
        &&& self.head < self.descs.len()
        &&& self.dev < self.descs.len()
        &&& self.tail < self.descs.len()
        &&& self.delivered() <= self.avail()
        &&& forall|i: int|
            0 <= i < self.n() && in_window(self.head as int, self.tail as int, i, self.n())
                ==> ((#[trigger] self.descs@[i]).done <==> in_window(
                    self.head as int,
                    self.dev as int,
                    i,
                    self.n(),
                ))
    }

    /// A well-formed ring never advertises more slots than its
    /// capacity allows: the head-to-tail distance stays in `[0, N - 1]`.
    pub proof fn lemma_occupancy_bounded(self)
        requires
            self.wf(),
        ensures
            0 <= self.avail() <= self.n() - 1,
            0 <= self.delivered() <= self.avail(),
    {
    }

    /// Number of slots advertised to the device, as a runtime value.
    pub fn avail_count(&self) -> (r: usize)
        requires
            self.wf(),
        ensures
            r as int == self.avail(),
    {
        ring_dist(self.head, self.tail, self.descs.len())
    }

    /// Number of packets waiting to be drained, as a runtime value.
    pub fn delivered_count(&self) -> (r: usize)
        requires
            self.wf(),
        ensures
            r as int == self.delivered(),
    {
        ring_dist(self.head, self.dev, self.descs.len())
    }

    /// A fully populated, inactive ring: slot `i` is backed by buffer
    /// `buf_addrs[i]`, and all `n - 1` advertisable slots are
    /// advertised from the start.
    pub fn new(n: usize, buf_addrs: &Vec<u64>) -> (r: RxRing)
        requires
            valid_ring_size(n),
            buf_addrs.len() == n,
        ensures
            r.wf(),
            r.n() == n,
            r.head == 0,
            r.dev == 0,
            r.tail == n - 1,
            r.avail() == n - 1,
            r.delivered() == 0,
            !r.active,
            forall|i: int| 0 <= i < n ==> (#[trigger] r.descs@[i]) == (RxDescriptor {
                buf_addr: buf_addrs@[i],
                pkt_len: 0,
                done: false,
            }),
    {
        let mut descs: Vec<RxDescriptor> = Vec::new();
        let mut i: usize = 0;
        while i < n
            invariant
                i <= n,
                descs.len() == i,
                buf_addrs.len() == n,
                forall|j: int| 0 <= j < i ==> (#[trigger] descs@[j]) == (RxDescriptor {
                    buf_addr: buf_addrs@[j],
                    pkt_len: 0,
                    done: false,
                }),
            decreases n - i,
        {
            descs.push(RxDescriptor { buf_addr: buf_addrs[i], pkt_len: 0, done: false });
            i += 1;
        }
        RxRing { descs, head: 0, dev: 0, tail: n - 1, active: false }
    }

    /// Models the device's half of the protocol: the hardware lands one
    /// packet of `len` bytes in the next advertised slot, writing the
    /// length and the done bit. Requires a free advertised slot and an
    /// active ring; touches nothing but that one descriptor.
    pub fn device_deliver(&mut self, len: u16)
        requires
            old(self).wf(),
            old(self).active,
            old(self).delivered() < old(self).avail(),
        ensures
            final(self).wf(),
            final(self).n() == old(self).n(),
            final(self).head == old(self).head,
            final(self).tail == old(self).tail,
            final(self).active == old(self).active,
            final(self).delivered() == old(self).delivered() + 1,
            final(self).dev == slot_add(old(self).dev as int, 1, old(self).n()),
            final(self).descs@ == old(self).descs@.update(
                old(self).dev as int,
                (RxDescriptor { buf_addr: old(self).descs@[old(self).dev as int].buf_addr, pkt_len: len, done: true }),
            ),
    {
        let n = self.descs.len();
        let idx = self.dev;
        proof {
            assert(in_window(self.head as int, self.tail as int, idx as int, self.n()));
            assert(!in_window(self.head as int, self.dev as int, idx as int, self.n()));
        }
        let ghost prev = *self;
        let cur = self.descs[idx];
        self.descs[idx] = RxDescriptor { buf_addr: cur.buf_addr, pkt_len: len, done: true };
        self.dev = ring_next(idx, n);
        proof {
            let m = self.n();
            let h = self.head as int;
            let t = self.tail as int;
            assert forall|i: int|
                0 <= i < m && in_window(h, t, i, m) implies ((#[trigger] self.descs@[i]).done
                <==> in_window(h, self.dev as int, i, m)) by {
                if i != idx as int {
                    if in_window(h, self.dev as int, i, m) && !in_window(h, prev.dev as int, i, m) {
                        lemma_dist_injective(h, i, prev.dev as int, m);
                    }
                    assert(self.descs@[i] == prev.descs@[i]);
                }
            }
        }
    }

    /// Drains up to `budget` completed packets, one per descriptor from
    /// `head`, stopping at the first slot whose done bit is unset. Every
    /// packet returned comes from a descriptor whose done bit was set at
    /// the time of the scan, with the device-reported length; no phantom
    /// packets. Descriptor memory is not written; the drained slots
    /// simply leave the advertised window until replenished.
    pub fn drain(&mut self, budget: usize) -> (pkts: Vec<RxPacket>)
        requires
            old(self).wf(),
        ensures
            final(self).wf(),
            final(self).descs == old(self).descs,
            final(self).tail == old(self).tail,
            final(self).dev == old(self).dev,
            final(self).active == old(self).active,
            pkts@.len() == (if budget as int <= old(self).delivered() {
                budget as int
            } else {
                old(self).delivered()
            }),
            final(self).head == slot_add(old(self).head as int, pkts@.len() as int, old(self).n()),
            final(self).delivered() == old(self).delivered() - pkts@.len(),
            final(self).avail() == old(self).avail() - pkts@.len(),
            forall|j: int|
                0 <= j < pkts@.len() ==> old(self).descs@[slot_add(
                    old(self).head as int,
                    j,
                    old(self).n(),
                )].done,
            forall|j: int|
                0 <= j < pkts@.len() ==> (#[trigger] pkts@[j]) == (RxPacket {
                    buf_addr: old(self).descs@[slot_add(old(self).head as int, j, old(self).n())].buf_addr,
                    len: old(self).descs@[slot_add(old(self).head as int, j, old(self).n())].pkt_len,
                }),
    {
        let n = self.descs.len();
        let mut h = self.head;
        let mut pkts: Vec<RxPacket> = Vec::new();
        while pkts.len() < budget && h != self.tail && self.descs[h].done
            invariant
                self.wf(),
                n == self.descs.len(),
                h < n,
                pkts.len() <= budget,
                pkts.len() == dist(self.head as int, h as int, n as int),
                pkts.len() <= self.delivered(),
                forall|j: int|
                    0 <= j < pkts.len() ==> self.descs@[slot_add(
                        self.head as int,
                        j,
                        n as int,
                    )].done,
                forall|j: int|
                    0 <= j < pkts.len() ==> (#[trigger] pkts@[j]) == (RxPacket {
                        buf_addr: self.descs@[slot_add(self.head as int, j, n as int)].buf_addr,
                        len: self.descs@[slot_add(self.head as int, j, n as int)].pkt_len,
                    }),
            decreases dist(h as int, self.tail as int, n as int),
        {
            proof {
                if pkts.len() == self.avail() {
                    lemma_dist_injective(self.head as int, h as int, self.tail as int, n as int);
                }
                assert(in_window(self.head as int, self.tail as int, h as int, n as int));
                assert(in_window(self.head as int, self.dev as int, h as int, n as int));
                assert(slot_add(self.head as int, pkts.len() as int, n as int) == h as int);
            }
            let d = self.descs[h];
            pkts.push(RxPacket { buf_addr: d.buf_addr, len: d.pkt_len });
            h = ring_next(h, n);
        }
        proof {
            let hd = self.head as int;
            let m = n as int;
            let c = pkts.len() as int;
            if c < budget as int {
                if h == self.tail {
                    assert(c == self.avail());
                    assert(c == self.delivered());
                } else {
                    if c < self.avail() {
                        assert(in_window(hd, self.tail as int, h as int, m));
                        assert(!self.descs@[h as int].done);
                        assert(!in_window(hd, self.dev as int, h as int, m));
                        assert(c >= self.delivered());
                    } else {
                        lemma_dist_injective(hd, h as int, self.tail as int, m);
                    }
                    assert(c == self.delivered());
                }
            }
        }
        let ghost prev = *self;
        self.head = h;
        proof {
            let m = self.n();
            let hd = prev.head as int;
            lemma_dist_injective(hd, h as int, h as int, m);
            assert(self.head as int == slot_add(hd, pkts.len() as int, m));
            assert forall|i: int|
                0 <= i < m && in_window(self.head as int, self.tail as int, i, m) implies ((
            #[trigger] self.descs@[i]).done <==> in_window(
                self.head as int,
                self.dev as int,
                i,
                m,
            )) by {
                lemma_window_split(hd, self.head as int, self.tail as int, i, m);
                lemma_window_split(hd, self.head as int, prev.dev as int, i, m);
            }
        }
        pkts
    }

    /// Hands one fresh buffer back to the ring: writes a clean
    /// descriptor at `tail` and advances it, growing the advertised
    /// window. Fails with `RingFull`, leaving the ring untouched,
    /// exactly when every advertisable slot is already advertised.
    ///
    /// The descriptor is written before the caller may publish the new
    /// tail to the hardware tail register.
    pub fn replenish(&mut self, buf_addr: u64) -> (r: Result<(), DriverError>)
        requires
            old(self).wf(),
            old(self).active,
        ensures
            final(self).wf(),
            final(self).n() == old(self).n(),
            final(self).head == old(self).head,
            final(self).dev == old(self).dev,
            final(self).active == old(self).active,
            (r matches Err(_)) <==> old(self).avail() == old(self).n() - 1,
            r matches Err(e) ==> e == DriverError::RingFull && *final(self) == *old(self),
            r matches Ok(_) ==> final(self).avail() == old(self).avail() + 1,
            r matches Ok(_) ==> final(self).delivered() == old(self).delivered(),
            r matches Ok(_) ==> final(self).tail == slot_add(old(self).tail as int, 1, old(self).n()),
            r matches Ok(_) ==> final(self).descs@ == old(self).descs@.update(
                old(self).tail as int,
                (RxDescriptor { buf_addr: buf_addr, pkt_len: 0, done: false }),
            ),
    {
        let n = self.descs.len();
        let used = ring_dist(self.head, self.tail, n);
        if used == n - 1 {
            return Err(DriverError::RingFull);
        }
        let t = self.tail;
        self.descs[t] = RxDescriptor { buf_addr: buf_addr, pkt_len: 0, done: false };
        self.tail = ring_next(t, n);
        proof {
            let m = self.n();
            let h = old(self).head as int;
            let d = old(self).dev as int;
            assert forall|i: int|
                0 <= i < m && in_window(h, self.tail as int, i, m) implies ((#[trigger] self.descs@[i]).done
                <==> in_window(h, d, i, m)) by {
                if i == t as int {
                    assert(!in_window(h, d, i, m));
                } else {
                    if in_window(h, self.tail as int, i, m) && !in_window(h, old(self).tail as int, i, m) {
                        lemma_dist_injective(h, i, old(self).tail as int, m);
                    }
                    assert(self.descs@[i] == old(self).descs@[i]);
                }
            }
        }
        Ok(())
    }
}

} // verus!
