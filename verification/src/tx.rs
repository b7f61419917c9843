//! Transmit descriptor ring: the host produces descriptors at `tail`,
//! the device consumes them in order and writes back a done bit, and
//! the host reclaims finished slots from `head`.
//!
//! Cursor discipline: `head` is the host's reclaim cursor, `dev` marks
//! the first in-flight slot the device has not yet written back, and
//! `tail` is the next free slot. In-flight slots are the window
//! `[head, tail)`; among them, exactly those in `[head, dev)` carry the
//! done bit, because the device completes strictly in order. The host
//! never lets `tail` advance onto `head`, so at most `N - 1` slots are
//! ever in flight.

use vstd::prelude::*;

use crate::DriverError;
use crate::ring::{valid_ring_size, dist, slot_add, in_window, ring_dist, ring_next};
use crate::ring::{lemma_dist_injective, lemma_window_split};

verus! {

/// One hardware-visible transmit descriptor: buffer address and length
/// written by the host, end-of-packet flag, and the done bit the device
/// writes back on completion.
#[derive(Clone, Copy, Debug, PartialEq, Eq, Structural)]
pub struct TxDescriptor {
    pub buf_addr: u64,
    pub buf_len: u16,
    pub eop: bool,
    pub done: bool,
}

/// One DMA-mapped segment of an outgoing packet.
#[derive(Clone, Copy, Debug, PartialEq, Eq, Structural)]
pub struct TxSegment {
    pub addr: u64,
    pub len: u16,
}

/// The transmit ring. `active` is true exactly while the device is
/// permitted to fetch descriptors (between start and quiesce).
pub struct TxRing {
    pub descs: Vec<TxDescriptor>,
    pub head: usize,
    pub dev: usize,
    pub tail: usize,
    pub active: bool,
}

impl TxRing {
    /// Number of descriptor slots.
    pub open spec fn n(self) -> int {
        self.descs.len() as int
    }

    /// Number of in-flight descriptors (produced, not yet reclaimed).
    pub open spec fn queued(self) -> int {
        dist(self.head as int, self.tail as int, self.n())
    }

    /// Number of in-flight descriptors the device has written back.
    pub open spec fn completed(self) -> int {
        dist(self.head as int, self.dev as int, self.n())
    }

    /// Slots still free for the host to fill.
    pub open spec fn free_slots(self) -> int {
        self.n() - 1 - self.queued()
    }

    /// Ring well-formedness: reduced cursors, completion no further
    /// than production, and among in-flight slots the done bit set
    /// exactly on the window the device has written back.
    pub open spec fn wf(self) -> bool {
        &&& valid_ring_size(self.descs.len())
        &&& self.head < self.descs.len()
        &&& self.dev < self.descs.len()
        &&& self.tail < self.descs.len()
        &&& self.completed() <= self.queued()
        &&& forall|i: int|
            0 <= i < self.n() && in_window(self.head as int, self.tail as int, i, self.n())
                ==> ((#[trigger] self.descs@[i]).done <==> in_window(
                    self.head as int,
                    self.dev as int,
                    i,
                    self.n(),
                ))
    }

    /// A well-formed ring never reports more in-flight descriptors than
    /// its capacity allows: the head-to-tail distance stays in
    /// `[0, N - 1]`.
    pub proof fn lemma_occupancy_bounded(self)
        requires
            self.wf(),
        ensures
            0 <= self.queued() <= self.n() - 1,
            0 <= self.completed() <= self.queued(),
    {
    }

    /// Number of in-flight descriptors, as a runtime value.
    pub fn queued_count(&self) -> (r: usize)
        requires
            self.wf(),
        ensures
            r as int == self.queued(),
    {
        ring_dist(self.head, self.tail, self.descs.len())
    }

    /// Number of slots still free for the host, as a runtime value.
    pub fn free_count(&self) -> (r: usize)
        requires
            self.wf(),
        ensures
            r as int == self.free_slots(),
    {
        let n = self.descs.len();
        (n - 1) - ring_dist(self.head, self.tail, n)
    }

    /// An empty, inactive ring of `n` descriptors.
    pub fn new(n: usize) -> (r: TxRing)
        requires
            valid_ring_size(n),
        ensures
            r.wf(),
            r.n() == n,
            r.head == 0,
            r.dev == 0,
            r.tail == 0,
            r.queued() == 0,
            r.completed() == 0,
            !r.active,
    {
        let mut descs: Vec<TxDescriptor> = Vec::new();
        let mut i: usize = 0;
        while i < n
            invariant
                i <= n,
                descs.len() == i,
            decreases n - i,
        {
            descs.push(TxDescriptor { buf_addr: 0, buf_len: 0, eop: false, done: false });
            i += 1;
        }
        TxRing { descs, head: 0, dev: 0, tail: 0, active: false }
    }

    /// Places one single-segment packet in the next free slot and
    /// advances `tail`. Fails with `RingFull`, leaving the ring
    /// untouched, exactly when `tail` would otherwise catch up to
    /// `head`; succeeds and queues exactly one more descriptor in every
    /// other case.
    ///
    /// The descriptor content is written before the caller may publish
    /// the new tail to the hardware tail register, so the device never
    /// observes a half-written descriptor.
    pub fn enqueue(&mut self, seg: TxSegment) -> (r: Result<(), DriverError>)
        requires
            old(self).wf(),
            old(self).active,
        ensures
            final(self).wf(),
            final(self).n() == old(self).n(),
            final(self).head == old(self).head,
            final(self).dev == old(self).dev,
            final(self).active == old(self).active,
            (r matches Err(_)) <==> old(self).free_slots() == 0,
            r matches Err(e) ==> e == DriverError::RingFull && *final(self) == *old(self),
            r matches Ok(_) ==> final(self).queued() == old(self).queued() + 1,
            r matches Ok(_) ==> final(self).tail == slot_add(old(self).tail as int, 1, old(self).n()),
            r matches Ok(_) ==> final(self).descs@ == old(self).descs@.update(
                old(self).tail as int,
                (TxDescriptor { buf_addr: seg.addr, buf_len: seg.len, eop: true, done: false }),
            ),
    {
        let n = self.descs.len();
        let used = ring_dist(self.head, self.tail, n);
        if used == n - 1 {
            return Err(DriverError::RingFull);
        }
        let t = self.tail;
        self.descs[t] = TxDescriptor { buf_addr: seg.addr, buf_len: seg.len, eop: true, done: false };
        self.tail = ring_next(t, n);
        proof {
            let m = self.n();
            let h = old(self).head as int;
            let d = old(self).dev as int;
            assert forall|i: int|
                0 <= i < m && in_window(h, self.tail as int, i, m) implies ((#[trigger] self.descs@[i]).done
                <==> in_window(h, d, i, m)) by {
                if i == t as int {
                    assert(!in_window(h, d, i, m));
                } else {
                    if in_window(h, self.tail as int, i, m) && !in_window(h, old(self).tail as int, i, m) {
                        lemma_dist_injective(h, i, old(self).tail as int, m);
                    }
                    assert(self.descs@[i] == old(self).descs@[i]);
                }
            }
        }
        Ok(())
    }

    /// Places one packet spanning several segments, one descriptor per
    /// segment, with the end-of-packet flag set on the last segment
    /// only. All-or-nothing: fails with `RingFull`, leaving the ring
    /// untouched, exactly when fewer free slots remain than the packet
    /// has segments, so the device never sees a partial chain.
    pub fn enqueue_chain(&mut self, segs: &Vec<TxSegment>) -> (r: Result<(), DriverError>)
        requires
            old(self).wf(),
            old(self).active,
            segs@.len() >= 1,
        ensures
            final(self).wf(),
            final(self).n() == old(self).n(),
            final(self).head == old(self).head,
            final(self).dev == old(self).dev,
            final(self).active == old(self).active,
            (r matches Err(_)) <==> old(self).free_slots() < segs@.len(),
            r matches Err(e) ==> e == DriverError::RingFull && *final(self) == *old(self),
            r matches Ok(_) ==> final(self).queued() == old(self).queued() + segs@.len(),
            r matches Ok(_) ==> final(self).tail == slot_add(
                old(self).tail as int,
                segs@.len() as int,
                old(self).n(),
            ),
            r matches Ok(_) ==> forall|j: int|
                0 <= j < segs@.len() ==> final(self).descs@[slot_add(
                    old(self).tail as int,
                    j,
                    old(self).n(),
                )] == (TxDescriptor {
                    buf_addr: segs@[j].addr,
                    buf_len: segs@[j].len,
                    eop: j == segs@.len() - 1,
                    done: false,
                }),
            r matches Ok(_) ==> forall|i: int|
                0 <= i < old(self).n() && !in_window(
                    old(self).tail as int,
                    final(self).tail as int,
                    i,
                    old(self).n(),
                ) ==> final(self).descs@[i] == old(self).descs@[i],
    {
        let n = self.descs.len();
        let count = segs.len();
        if self.free_count() < count {
            return Err(DriverError::RingFull);
        }
        let mut j: usize = 0;
        while j < count
            invariant
                self.wf(),
                old(self).wf(),
                n == self.descs.len(),
                count == segs@.len(),
                j <= count,
                count <= old(self).free_slots(),
                self.head == old(self).head,
                self.dev == old(self).dev,
                self.active == old(self).active,
                self.descs@.len() == old(self).descs@.len(),
                self.queued() == old(self).queued() + j,
                self.tail == slot_add(old(self).tail as int, j as int, old(self).n()),
                forall|i: int|
                    0 <= i < old(self).n() && !in_window(
                        old(self).tail as int,
                        self.tail as int,
                        i,
                        old(self).n(),
                    ) ==> self.descs@[i] == old(self).descs@[i],
                forall|jj: int|
                    0 <= jj < j ==> self.descs@[slot_add(
                        old(self).tail as int,
                        jj,
                        old(self).n(),
                    )] == (TxDescriptor {
                        buf_addr: segs@[jj].addr,
                        buf_len: segs@[jj].len,
                        eop: jj == segs@.len() - 1,
                        done: false,
                    }),
            decreases count - j,
        {
            let ghost prev = *self;
            let t = self.tail;
            let s = segs[j];
            self.descs[t] = TxDescriptor {
                buf_addr: s.addr,
                buf_len: s.len,
                eop: j + 1 == count,
                done: false,
            };
            self.tail = ring_next(t, n);
            proof {
                let m = self.n();
                let h = self.head as int;
                let d = self.dev as int;
                assert(!in_window(h, d, t as int, m));
                assert forall|i: int|
                    0 <= i < m && in_window(h, self.tail as int, i, m) implies ((
                #[trigger] self.descs@[i]).done <==> in_window(h, d, i, m)) by {
                    if i != t as int {
                        if in_window(h, self.tail as int, i, m) && !in_window(h, prev.tail as int, i, m) {
                            lemma_dist_injective(h, i, prev.tail as int, m);
                        }
                        assert(self.descs@[i] == prev.descs@[i]);
                    }
                }
                assert forall|i: int|
                    0 <= i < m && !in_window(
                        old(self).tail as int,
                        self.tail as int,
                        i,
                        m,
                    ) implies self.descs@[i] == old(self).descs@[i] by {
                    lemma_window_split(old(self).tail as int, prev.tail as int, self.tail as int, i, m);
                }
                assert forall|jj: int| 0 <= jj < j + 1 implies self.descs@[slot_add(
                    old(self).tail as int,
                    jj,
                    m,
                )] == (TxDescriptor {
                    buf_addr: segs@[jj].addr,
                    buf_len: segs@[jj].len,
                    eop: jj == segs@.len() - 1,
                    done: false,
                }) by {
                    let slot = slot_add(old(self).tail as int, jj, m);
                    if jj < j {
                        assert(prev.descs@[slot] == (TxDescriptor {
                            buf_addr: segs@[jj].addr,
                            buf_len: segs@[jj].len,
                            eop: jj == segs@.len() - 1,
                            done: false,
                        }));
                        if slot == t as int {
                            lemma_dist_injective(old(self).tail as int, slot, t as int, m);
                            assert(false);
                        }
                        assert(self.descs@[slot] == prev.descs@[slot]);
                    } else {
                        assert(slot == t as int);
                    }
                }
            }
            j += 1;
        }
        Ok(())
    }

    /// Reclaims every leading in-flight descriptor the device has
    /// marked done, advancing `head` up to the device's write-back
    /// cursor. Scans the done bits only; writes nothing to descriptor
    /// memory, so it is safe to run from the completion interrupt path
    /// or after the ring is quiesced. Returns the number reclaimed.
    pub fn reclaim_completed(&mut self) -> (count: usize)
        requires
            old(self).wf(),
        ensures
            final(self).wf(),
            final(self).descs == old(self).descs,
            final(self).tail == old(self).tail,
            final(self).dev == old(self).dev,
            final(self).active == old(self).active,
            count == old(self).completed(),
            final(self).head == old(self).dev,
            final(self).queued() == old(self).queued() - count,
            final(self).completed() == 0,
    {
        let n = self.descs.len();
        let mut h = self.head;
        let mut c: usize = 0;
        while h != self.tail && self.descs[h].done
            invariant
                self.wf(),
                n == self.descs.len(),
                h < n,
                c == dist(self.head as int, h as int, n as int),
                c <= self.completed(),
            decreases dist(h as int, self.tail as int, n as int),
        {
            proof {
                if c == self.queued() {
                    lemma_dist_injective(self.head as int, h as int, self.tail as int, n as int);
                }
                assert(in_window(self.head as int, self.tail as int, h as int, n as int));
                assert(self.descs@[h as int].done);
                assert(in_window(self.head as int, self.dev as int, h as int, n as int));
            }
            h = ring_next(h, n);
            c += 1;
        }
        proof {
            let hd = self.head as int;
            let m = n as int;
            if h == self.tail {
                assert(c == self.queued());
                assert(c == self.completed());
            } else {
                if c < self.queued() {
                    assert(in_window(hd, self.tail as int, h as int, m));
                    assert(!self.descs@[h as int].done);
                    assert(!in_window(hd, self.dev as int, h as int, m));
                    assert(c >= self.completed());
                } else {
                    lemma_dist_injective(hd, h as int, self.tail as int, m);
                }
            }
            assert(c == self.completed());
            lemma_dist_injective(hd, h as int, self.dev as int, m);
            assert(h == self.dev);
        }
        let ghost prev = *self;
        self.head = h;
        proof {
            let m = self.n();
            let hd = prev.head as int;
            assert forall|i: int|
                0 <= i < m && in_window(self.head as int, self.tail as int, i, m) implies ((
            #[trigger] self.descs@[i]).done <==> in_window(
                self.head as int,
                self.dev as int,
                i,
                m,
            )) by {
                lemma_window_split(hd, self.head as int, self.tail as int, i, m);
                assert(!in_window(self.head as int, self.dev as int, i, m));
                assert(!self.descs@[i].done);
            }
        }
        c
    }

    /// Models the device's half of the protocol: the hardware fetches
    /// the next `k` in-flight descriptors in order and writes back their
    /// done bits. Touches nothing but the done bit of those `k` slots,
    /// and only while the ring is active.
    pub fn device_complete(&mut self, k: usize)
        requires
            old(self).wf(),
            old(self).active,
            k <= old(self).queued() - old(self).completed(),
        ensures
            final(self).wf(),
            final(self).n() == old(self).n(),
            final(self).head == old(self).head,
            final(self).tail == old(self).tail,
            final(self).active == old(self).active,
            final(self).completed() == old(self).completed() + k,
            final(self).dev == slot_add(old(self).dev as int, k as int, old(self).n()),
            forall|i: int|
                0 <= i < old(self).n() && !in_window(
                    old(self).dev as int,
                    final(self).dev as int,
                    i,
                    old(self).n(),
                ) ==> final(self).descs@[i] == old(self).descs@[i],
            forall|i: int|
                0 <= i < old(self).n() && in_window(
                    old(self).dev as int,
                    final(self).dev as int,
                    i,
                    old(self).n(),
                ) ==> final(self).descs@[i] == (TxDescriptor {
                    done: true,
                    ..old(self).descs@[i]
                }),
    {
        let n = self.descs.len();
        let mut j: usize = 0;
        while j < k
            invariant
                self.wf(),
                old(self).wf(),
                n == self.descs.len(),
                j <= k,
                self.head == old(self).head,
                self.tail == old(self).tail,
                self.active == old(self).active,
                self.descs@.len() == old(self).descs@.len(),
                k <= old(self).queued() - old(self).completed(),
                self.queued() == old(self).queued(),
                self.completed() == old(self).completed() + j,
                self.dev == slot_add(old(self).dev as int, j as int, old(self).n()),
                forall|i: int|
                    0 <= i < old(self).n() && !in_window(
                        old(self).dev as int,
                        self.dev as int,
                        i,
                        old(self).n(),
                    ) ==> self.descs@[i] == old(self).descs@[i],
                forall|i: int|
                    0 <= i < old(self).n() && in_window(
                        old(self).dev as int,
                        self.dev as int,
                        i,
                        old(self).n(),
                    ) ==> self.descs@[i] == (TxDescriptor { done: true, ..old(self).descs@[i] }),
            decreases k - j,
        {
            let ghost prev = *self;
            let idx = self.dev;
            proof {
                assert(in_window(self.head as int, self.tail as int, idx as int, self.n()));
                assert(!in_window(self.head as int, self.dev as int, idx as int, self.n()));
            }
            let cur = self.descs[idx];
            self.descs[idx] = TxDescriptor { done: true, ..cur };
            self.dev = ring_next(idx, n);
            proof {
                let m = self.n();
                let h = self.head as int;
                let t = self.tail as int;
                assert forall|i: int|
                    0 <= i < m && in_window(h, t, i, m) implies ((#[trigger] self.descs@[i]).done
                    <==> in_window(h, self.dev as int, i, m)) by {
                    if i != idx as int {
                        if in_window(h, self.dev as int, i, m) && !in_window(h, prev.dev as int, i, m) {
                            lemma_dist_injective(h, i, prev.dev as int, m);
                        }
                        assert(self.descs@[i] == prev.descs@[i]);
                    }
                }
                assert forall|i: int|
                    0 <= i < old(self).n() && !in_window(
                        old(self).dev as int,
                        self.dev as int,
                        i,
                        old(self).n(),
                    ) implies self.descs@[i] == old(self).descs@[i] by {
                    lemma_window_split(old(self).dev as int, prev.dev as int, self.dev as int, i, m);
                }
                assert forall|i: int|
                    0 <= i < old(self).n() && in_window(
                        old(self).dev as int,
                        self.dev as int,
                        i,
                        old(self).n(),
                    ) implies self.descs@[i] == (TxDescriptor {
                    done: true,
                    ..old(self).descs@[i]
                }) by {
                    lemma_window_split(old(self).dev as int, prev.dev as int, self.dev as int, i, m);
                    if i == idx as int {
                        assert(self.descs@[i] == (TxDescriptor { done: true, ..prev.descs@[i] }));
                        assert(prev.descs@[i] == old(self).descs@[i]);
                    }
                }
            }
            j += 1;
        }
    }
}

} // verus!
