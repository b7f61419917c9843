//! Adapter controller: owns the register translation configuration,
//! both descriptor rings, the DMA pool, and the link machine, and
//! orchestrates bring-up, steady-state dispatch, and quiesce.
//!
//! The controller never touches hardware itself: configuration and
//! quiesce produce the exact ordered sequence of register writes the
//! platform glue must issue, and interrupt dispatch consumes the cause
//! word and PHY status that the glue read. Ring-programming order is
//! part of the contract: descriptor base and length registers are
//! written before the engine enables, and the interrupt unmask comes
//! last; on quiesce the mask comes first and the engine disables after.

use vstd::prelude::*;

use crate::DriverError;
use crate::regs::{RegisterId, ChipRevision, RegWrite, spec_offset, reg_supported, translate_register};
use crate::ring::{valid_ring_size, slot_add};
use crate::tx::{TxRing, TxSegment, TxDescriptor};
use crate::rx::{RxRing, RxPacket};
use crate::dma::{DmaPool, DmaRegion};
use crate::link::{LinkMachine, LinkState, LinkEvent, LinkSpeed, PhyStatus};
use crate::intr::{spec_causes, spec_cause_mask, cause_mask, decode_causes};

verus! {

/// Transmit enable bit of the transmit control register.
pub const TCTL_EN: u32 = 0x2;

/// Receive enable bit of the receive control register.
pub const RCTL_EN: u32 = 0x2;

/// Mask-everything value for the interrupt mask clear register.
pub const IMC_ALL: u32 = 0xFFFF_FFFF;

/// Bytes of one hardware descriptor.
pub const DESC_BYTES: usize = 16;

/// Adapter lifecycle phase.
#[derive(Clone, Copy, Debug, PartialEq, Eq, Structural)]
pub enum AdapterPhase {
    Stopped,
    Running,
}

/// Configuration fixed at initialization; not runtime-mutable without a
/// stop/reconfigure/start cycle.
#[derive(Clone, Copy, Debug, PartialEq, Eq, Structural)]
pub struct AdapterConfig {
    pub tx_size: usize,
    pub rx_size: usize,
    pub rx_buf_size: u64,
    pub link_timeout: u32,
    pub advertised: LinkSpeed,
    pub error_threshold: u32,
}

impl AdapterConfig {
    /// Ring sizes the length registers accept, a sane buffer size, a
    /// positive negotiation timeout, and a positive device-error
    /// threshold.
    pub open spec fn wf(self) -> bool {
        &&& valid_ring_size(self.tx_size)
        &&& valid_ring_size(self.rx_size)
        &&& 256 <= self.rx_buf_size <= 0x10000
        &&& self.link_timeout >= 1
        &&& self.error_threshold >= 1
    }

    /// Runtime check mirroring `wf`.
    pub fn check(&self) -> (r: bool)
        ensures
            r == self.wf(),
    {
        crate::ring::check_ring_size(self.tx_size) && crate::ring::check_ring_size(self.rx_size)
            && 256 <= self.rx_buf_size && self.rx_buf_size <= 0x10000 && self.link_timeout >= 1
            && self.error_threshold >= 1
    }
}

/// Low 32 bits of a DMA address, as programmed into a base register.
pub open spec fn low32(x: u64) -> u32 {
    (x & 0xFFFF_FFFFu64) as u32
}

/// High 32 bits of a DMA address.
pub open spec fn high32(x: u64) -> u32 {
    (x >> 32u64) as u32
}

/// The byte offset of a register known to exist on `rev`; meaningful
/// only under `reg_supported`.
pub open spec fn offset_of(reg: RegisterId, rev: ChipRevision) -> u32 {
    match spec_offset(reg, rev) {
        Some(o) => o,
        None => 0,
    }
}

/// Everything one interrupt invocation produced: descriptors reclaimed,
/// packets drained (bounded by the caller's budget), a link transition
/// to report, and whether repeated device errors call for a full reset.
pub struct DispatchOutcome {
    pub reclaimed: usize,
    pub packets: Vec<RxPacket>,
    pub link_event: Option<LinkEvent>,
    pub hw_error: Option<DriverError>,
    pub needs_reset: bool,
}

/// The adapter: single instance per physical device.
pub struct Adapter {
    pub revision: ChipRevision,
    pub cfg: AdapterConfig,
    pub phase: AdapterPhase,
    pub pool: DmaPool,
    pub tx: TxRing,
    pub rx: RxRing,
    pub tx_region: DmaRegion,
    pub rx_region: DmaRegion,
    pub link: LinkMachine,
    pub error_count: u32,
}

/// Pool bytes that always suffice for initialization: both descriptor
/// rings with their alignment slack, plus every receive buffer.
pub open spec fn init_room(cfg: AdapterConfig) -> int {
    254 + cfg.tx_size * DESC_BYTES + cfg.rx_size * DESC_BYTES + cfg.rx_size * (
    cfg.rx_buf_size + 15)
}

impl Adapter {
    /// Adapter well-formedness: every component well-formed, ring sizes
    /// matching the configuration, descriptor regions sized for their
    /// rings, the link timeout wired through, ring activity tied to the
    /// phase, and the error count never past its threshold.
    pub open spec fn wf(self) -> bool {
        &&& self.cfg.wf()
        &&& self.pool.wf()
        &&& self.tx.wf()
        &&& self.rx.wf()
        &&& self.link.wf()
        &&& self.tx.n() == self.cfg.tx_size
        &&& self.rx.n() == self.cfg.rx_size
        &&& self.tx_region.size == DESC_BYTES * self.cfg.tx_size
        &&& self.rx_region.size == DESC_BYTES * self.cfg.rx_size
        &&& self.link.timeout == self.cfg.link_timeout
        &&& self.link.advertised == self.cfg.advertised
        &&& (self.phase == AdapterPhase::Stopped ==> !self.tx.active && !self.rx.active)
        &&& (self.phase == AdapterPhase::Running ==> self.tx.active && self.rx.active)
        &&& self.error_count <= self.cfg.error_threshold
    }

    /// Quiesced: stopped, with both rings confirmed inactive, so the
    /// device writes no further descriptors and ring memory may be
    /// reclaimed.
    pub open spec fn quiescent(self) -> bool {
        &&& self.phase == AdapterPhase::Stopped
        &&& !self.tx.active
        &&& !self.rx.active
    }

    /// Brings the adapter from power-on state to configured-and-stopped:
    /// allocates both descriptor rings and every receive buffer from the
    /// pool, fully populates the receive ring, and leaves the link down.
    ///
    /// Fails only with `OutOfMemory`, and never when the pool has
    /// `init_room` bytes to spare; a failure aborts bring-up entirely
    /// and surrenders nothing half-configured.
    #[verifier::loop_isolation(false)]
    pub fn init(revision: ChipRevision, cfg: AdapterConfig, pool: DmaPool) -> (r: Result<
        Adapter,
        DriverError,
    >)
        requires
            cfg.wf(),
            pool.wf(),
        ensures
            r matches Err(e) ==> e == DriverError::OutOfMemory,
            pool.remaining() >= init_room(cfg) ==> r matches Ok(_),
            r matches Ok(a) ==> {
                &&& a.wf()
                &&& a.phase == AdapterPhase::Stopped
                &&& a.quiescent()
                &&& a.revision == revision
                &&& a.cfg == cfg
                &&& a.pool.base == pool.base
                &&& a.pool.limit == pool.limit
                &&& a.tx.queued() == 0
                &&& a.tx.completed() == 0
                &&& a.rx.avail() == cfg.rx_size - 1
                &&& a.rx.delivered() == 0
                &&& a.link.state == LinkState::Down
                &&& a.error_count == 0
                // exclusive ownership: the two descriptor regions and every
                // receive buffer are pairwise disjoint and lie inside the pool
                &&& pool.next <= a.tx_region.addr
                &&& a.tx_region.addr + a.tx_region.size <= a.rx_region.addr
                &&& forall|i: int|
                    0 <= i < cfg.rx_size ==> a.rx_region.addr + a.rx_region.size
                        <= (#[trigger] a.rx.descs@[i]).buf_addr
                &&& forall|i: int|
                    0 <= i < cfg.rx_size ==> (#[trigger] a.rx.descs@[i]).buf_addr
                        + cfg.rx_buf_size <= a.pool.next
                &&& forall|i: int, j: int|
                    0 <= i < j < cfg.rx_size ==> (#[trigger] a.rx.descs@[i]).buf_addr
                        + cfg.rx_buf_size <= (#[trigger] a.rx.descs@[j]).buf_addr
                &&& a.pool.next <= a.pool.limit
            },
    {
        let ghost next0 = pool.next as int;
        let ghost limit0 = pool.limit as int;
        let ghost base0 = pool.base as int;
        let ghost c = cfg.rx_buf_size + 15 as int;
        proof {
            assert(cfg.rx_size * c >= 0 && cfg.rx_size * DESC_BYTES >= 0) by (nonlinear_arith)
                requires
                    cfg.rx_size >= 0,
                    c >= 0,
                    DESC_BYTES >= 0,
            ;
        }
        let mut pool = pool;

        let tx_bytes = cfg.tx_size * DESC_BYTES;
        let tx_region = match pool.allocate(tx_bytes as u64, 128) {
            Ok(reg) => reg,
            Err(e) => {
                return Err(e);
            },
        };
        let rx_bytes = cfg.rx_size * DESC_BYTES;
        let rx_region = match pool.allocate(rx_bytes as u64, 128) {
            Ok(reg) => reg,
            Err(e) => {
                return Err(e);
            },
        };

        let ghost bufs_start = pool.next as int;
        proof {
            assert(bufs_start <= next0 + 254 + tx_bytes + rx_bytes);
        }
        let mut bufs: Vec<u64> = Vec::new();
        let mut i: usize = 0;
        while i < cfg.rx_size
            invariant
                cfg.wf(),
                pool.wf(),
                i <= cfg.rx_size,
                bufs.len() == i,
                pool.limit == limit0,
                pool.base == base0,
                c == cfg.rx_buf_size + 15,
                bufs_start <= next0 + 254 + cfg.tx_size * DESC_BYTES + cfg.rx_size * DESC_BYTES,
                pool.next <= bufs_start + i * c,
                bufs_start <= pool.next,
                rx_region.addr + rx_region.size == bufs_start,
                forall|j: int| 0 <= j < i ==> bufs_start <= #[trigger] bufs@[j],
                forall|j: int| 0 <= j < i ==> (#[trigger] bufs@[j]) + cfg.rx_buf_size
                    <= pool.next,
                forall|j1: int, j2: int|
                    0 <= j1 < j2 < i ==> (#[trigger] bufs@[j1]) + cfg.rx_buf_size
                        <= #[trigger] bufs@[j2],
            decreases cfg.rx_size - i,
        {
            let ghost prev_next = pool.next as int;
            match pool.allocate(cfg.rx_buf_size, 16) {
                Ok(reg) => {
                    bufs.push(reg.addr);
                },
                Err(e) => {
                    proof {
                        assert((i + 1) * c <= cfg.rx_size * c) by (nonlinear_arith)
                            requires
                                i + 1 <= cfg.rx_size,
                                c >= 0,
                        ;
                        assert((i + 1) * c == i * c + c) by (nonlinear_arith);
                        assert(limit0 < next0 + init_room(cfg));
                    }
                    return Err(e);
                },
            }
            proof {
                assert((i + 1) * c == i * c + c) by (nonlinear_arith);
            }
            i += 1;
        }

        let tx = TxRing::new(cfg.tx_size);
        let rx = RxRing::new(cfg.rx_size, &bufs);
        let link = LinkMachine::new(cfg.link_timeout, cfg.advertised);
        Ok(Adapter {
            revision,
            cfg,
            phase: AdapterPhase::Stopped,
            pool,
            tx,
            rx,
            tx_region,
            rx_region,
            link,
            error_count: 0,
        })
    }
}

/// The exact ordered register program that brings the adapter up:
/// interrupts masked first, then each ring's base, length, and cursors,
/// then the engine enables, and the interrupt unmask last — so the
/// device never fetches from a half-programmed ring and no interrupt
/// fires before the rings exist.
pub open spec fn spec_start_program(a: Adapter) -> Seq<RegWrite> {
    seq![
        RegWrite { offset: offset_of(RegisterId::Imc, a.revision), value: IMC_ALL },
        RegWrite { offset: offset_of(RegisterId::Tdbal, a.revision), value: low32(a.tx_region.addr) },
        RegWrite { offset: offset_of(RegisterId::Tdbah, a.revision), value: high32(a.tx_region.addr) },
        RegWrite { offset: offset_of(RegisterId::Tdlen, a.revision), value: (a.tx.descs.len() * DESC_BYTES) as u32 },
        RegWrite { offset: offset_of(RegisterId::Tdh, a.revision), value: a.tx.head as u32 },
        RegWrite { offset: offset_of(RegisterId::Tdt, a.revision), value: a.tx.tail as u32 },
        RegWrite { offset: offset_of(RegisterId::Rdbal, a.revision), value: low32(a.rx_region.addr) },
        RegWrite { offset: offset_of(RegisterId::Rdbah, a.revision), value: high32(a.rx_region.addr) },
        RegWrite { offset: offset_of(RegisterId::Rdlen, a.revision), value: (a.rx.descs.len() * DESC_BYTES) as u32 },
        RegWrite { offset: offset_of(RegisterId::Rdh, a.revision), value: a.rx.head as u32 },
        RegWrite { offset: offset_of(RegisterId::Rdt, a.revision), value: a.rx.tail as u32 },
        RegWrite { offset: offset_of(RegisterId::Tctl, a.revision), value: TCTL_EN },
        RegWrite { offset: offset_of(RegisterId::Rctl, a.revision), value: RCTL_EN },
        RegWrite { offset: offset_of(RegisterId::Ims, a.revision), value: spec_cause_mask() },
    ]
}

/// The exact ordered register program that quiesces the adapter:
/// interrupts masked before the transmit and receive engines are
/// disabled, so no handler runs against a dying ring.
pub open spec fn spec_stop_program(rev: ChipRevision) -> Seq<RegWrite> {
    seq![
        RegWrite { offset: offset_of(RegisterId::Imc, rev), value: IMC_ALL },
        RegWrite { offset: offset_of(RegisterId::Tctl, rev), value: 0u32 },
        RegWrite { offset: offset_of(RegisterId::Rctl, rev), value: 0u32 },
    ]
}

/// Low half of a DMA address for a base register.
fn lo32(x: u64) -> (r: u32)
    ensures
        r == low32(x),
{
    proof {
        assert(x & 0xFFFF_FFFFu64 <= 0xFFFF_FFFFu64) by (bit_vector);
    }
    (x & 0xFFFF_FFFF) as u32
}

/// High half of a DMA address for a base register.
fn hi32(x: u64) -> (r: u32)
    ensures
        r == high32(x),
{
    proof {
        assert(x >> 32u64 <= 0xFFFF_FFFFu64) by (bit_vector);
    }
    (x >> 32) as u32
}

/// Offset of a register the revision is known to carry.
fn must_offset(reg: RegisterId, rev: ChipRevision) -> (off: u32)
    requires
        reg_supported(reg, rev),
    ensures
        off == offset_of(reg, rev),
{
    match translate_register(reg, rev) {
        Ok(o) => o,
        Err(_) => {
            proof {
                assert(false);
            }
            0
        },
    }
}

impl Adapter {
    /// Starts the adapter: emits the bring-up register program for the
    /// platform glue to issue in order, marks both rings active, resets
    /// the device-error count, and begins link negotiation. The rings'
    /// descriptors and cursors are untouched.
    pub fn start(&mut self) -> (prog: Vec<RegWrite>)
        requires
            old(self).wf(),
            old(self).phase == AdapterPhase::Stopped,
        ensures
            final(self).wf(),
            final(self).phase == AdapterPhase::Running,
            final(self).tx.active,
            final(self).rx.active,
            final(self).revision == old(self).revision,
            final(self).cfg == old(self).cfg,
            final(self).pool == old(self).pool,
            final(self).tx_region == old(self).tx_region,
            final(self).rx_region == old(self).rx_region,
            final(self).tx == (TxRing { active: true, ..old(self).tx }),
            final(self).rx == (RxRing { active: true, ..old(self).rx }),
            final(self).link == (LinkMachine {
                state: LinkState::Negotiating { ticks: 0u32 },
                timeout: old(self).cfg.link_timeout,
                advertised: old(self).cfg.advertised,
            }),
            final(self).error_count == 0,
            prog@ == spec_start_program(*old(self)),
    {
        let rev = self.revision;
        let mut prog: Vec<RegWrite> = Vec::new();
        prog.push(RegWrite { offset: must_offset(RegisterId::Imc, rev), value: IMC_ALL });
        prog.push(RegWrite { offset: must_offset(RegisterId::Tdbal, rev), value: lo32(self.tx_region.addr) });
        prog.push(RegWrite { offset: must_offset(RegisterId::Tdbah, rev), value: hi32(self.tx_region.addr) });
        prog.push(RegWrite { offset: must_offset(RegisterId::Tdlen, rev), value: (self.tx.descs.len() * DESC_BYTES) as u32 });
        prog.push(RegWrite { offset: must_offset(RegisterId::Tdh, rev), value: self.tx.head as u32 });
        prog.push(RegWrite { offset: must_offset(RegisterId::Tdt, rev), value: self.tx.tail as u32 });
        prog.push(RegWrite { offset: must_offset(RegisterId::Rdbal, rev), value: lo32(self.rx_region.addr) });
        prog.push(RegWrite { offset: must_offset(RegisterId::Rdbah, rev), value: hi32(self.rx_region.addr) });
        prog.push(RegWrite { offset: must_offset(RegisterId::Rdlen, rev), value: (self.rx.descs.len() * DESC_BYTES) as u32 });
        prog.push(RegWrite { offset: must_offset(RegisterId::Rdh, rev), value: self.rx.head as u32 });
        prog.push(RegWrite { offset: must_offset(RegisterId::Rdt, rev), value: self.rx.tail as u32 });
        prog.push(RegWrite { offset: must_offset(RegisterId::Tctl, rev), value: TCTL_EN });
        prog.push(RegWrite { offset: must_offset(RegisterId::Rctl, rev), value: RCTL_EN });
        prog.push(RegWrite { offset: must_offset(RegisterId::Ims, rev), value: cause_mask() });
        self.tx.active = true;
        self.rx.active = true;
        self.phase = AdapterPhase::Running;
        self.link.begin_negotiation();
        self.error_count = 0;
        proof {
            assert(prog@ =~= spec_start_program(*old(self)));
        }
        prog
    }

    /// Stops the adapter: emits the quiesce register program (mask
    /// interrupts, then disable both engines), after which neither the
    /// host nor the device writes another descriptor — every
    /// descriptor-writing operation of this crate demands a running
    /// phase or an active ring, and the device's access ends with the
    /// engine disables. Ring contents and cursors are left exactly as
    /// they were, so completed work can still be reclaimed and buffer
    /// memory released safely.
    pub fn stop(&mut self) -> (prog: Vec<RegWrite>)
        requires
            old(self).wf(),
        ensures
            final(self).wf(),
            final(self).quiescent(),
            final(self).revision == old(self).revision,
            final(self).cfg == old(self).cfg,
            final(self).pool == old(self).pool,
            final(self).tx_region == old(self).tx_region,
            final(self).rx_region == old(self).rx_region,
            final(self).tx == (TxRing { active: false, ..old(self).tx }),
            final(self).rx == (RxRing { active: false, ..old(self).rx }),
            final(self).link == (LinkMachine { state: LinkState::Down, ..old(self).link }),
            final(self).error_count == old(self).error_count,
            prog@ == spec_stop_program(old(self).revision),
    {
        let rev = self.revision;
        let mut prog: Vec<RegWrite> = Vec::new();
        prog.push(RegWrite { offset: must_offset(RegisterId::Imc, rev), value: IMC_ALL });
        prog.push(RegWrite { offset: must_offset(RegisterId::Tctl, rev), value: 0 });
        prog.push(RegWrite { offset: must_offset(RegisterId::Rctl, rev), value: 0 });
        self.tx.active = false;
        self.rx.active = false;
        self.phase = AdapterPhase::Stopped;
        self.link.state = LinkState::Down;
        proof {
            assert(prog@ =~= spec_stop_program(old(self).revision));
        }
        prog
    }

    /// Enqueues one outbound packet. On success the new tail has been
    /// written to descriptor memory and the returned register write —
    /// the new tail value to the hardware tail register — must be
    /// issued *after* this call returns, preserving the
    /// descriptor-before-tail ordering the device requires. Fails with
    /// `RingFull`, changing nothing, exactly when the ring has no free
    /// slot; the caller applies backpressure on that signal.
    pub fn transmit(&mut self, seg: TxSegment) -> (r: Result<RegWrite, DriverError>)
        requires
            old(self).wf(),
            old(self).phase == AdapterPhase::Running,
        ensures
            final(self).wf(),
            final(self).phase == old(self).phase,
            final(self).revision == old(self).revision,
            final(self).cfg == old(self).cfg,
            final(self).pool == old(self).pool,
            final(self).rx == old(self).rx,
            final(self).link == old(self).link,
            final(self).error_count == old(self).error_count,
            (r matches Err(_)) <==> old(self).tx.free_slots() == 0,
            r matches Err(e) ==> e == DriverError::RingFull && *final(self) == *old(self),
            r matches Ok(_) ==> final(self).tx.queued() == old(self).tx.queued() + 1,
            r matches Ok(_) ==> final(self).tx.head == old(self).tx.head && final(self).tx.dev
                == old(self).tx.dev && final(self).tx.tail == slot_add(
                old(self).tx.tail as int,
                1,
                old(self).tx.n(),
            ),
            r matches Ok(_) ==> final(self).tx.descs@ == old(self).tx.descs@.update(
                old(self).tx.tail as int,
                (TxDescriptor { buf_addr: seg.addr, buf_len: seg.len, eop: true, done: false }),
            ),
            r matches Ok(w) ==> w == (RegWrite {
                offset: offset_of(RegisterId::Tdt, old(self).revision),
                value: final(self).tx.tail as u32,
            }),
    {
        match self.tx.enqueue(seg) {
            Ok(_) => {
                let off = must_offset(RegisterId::Tdt, self.revision);
                Ok(RegWrite { offset: off, value: self.tx.tail as u32 })
            },
            Err(e) => Err(e),
        }
    }

    /// Enqueues one packet spanning several DMA segments, one
    /// descriptor per segment with end-of-packet on the last, and
    /// returns the tail register write to issue afterwards.
    /// All-or-nothing: fails with `RingFull`, changing nothing, exactly
    /// when fewer free slots remain than the packet has segments.
    pub fn transmit_chain(&mut self, segs: &Vec<TxSegment>) -> (r: Result<RegWrite, DriverError>)
        requires
            old(self).wf(),
            old(self).phase == AdapterPhase::Running,
            segs@.len() >= 1,
        ensures
            final(self).wf(),
            final(self).phase == old(self).phase,
            final(self).revision == old(self).revision,
            final(self).cfg == old(self).cfg,
            final(self).pool == old(self).pool,
            final(self).rx == old(self).rx,
            final(self).link == old(self).link,
            final(self).error_count == old(self).error_count,
            (r matches Err(_)) <==> old(self).tx.free_slots() < segs@.len(),
            r matches Err(e) ==> e == DriverError::RingFull && *final(self) == *old(self),
            r matches Ok(_) ==> final(self).tx.queued() == old(self).tx.queued() + segs@.len(),
            r matches Ok(_) ==> forall|j: int|
                0 <= j < segs@.len() ==> final(self).tx.descs@[slot_add(
                    old(self).tx.tail as int,
                    j,
                    old(self).tx.n(),
                )] == (TxDescriptor {
                    buf_addr: segs@[j].addr,
                    buf_len: segs@[j].len,
                    eop: j == segs@.len() - 1,
                    done: false,
                }),
            r matches Ok(w) ==> w == (RegWrite {
                offset: offset_of(RegisterId::Tdt, old(self).revision),
                value: final(self).tx.tail as u32,
            }),
    {
        match self.tx.enqueue_chain(segs) {
            Ok(_) => {
                let off = must_offset(RegisterId::Tdt, self.revision);
                Ok(RegWrite { offset: off, value: self.tx.tail as u32 })
            },
            Err(e) => Err(e),
        }
    }

    /// Returns one drained buffer to the receive ring. On success the
    /// fresh descriptor has been written and the returned write — the
    /// new receive tail — must be issued after this call returns, in
    /// keeping with the same descriptor-before-tail ordering. Fails
    /// with `RingFull`, changing nothing, exactly when every
    /// advertisable slot is already advertised.
    pub fn replenish(&mut self, buf_addr: u64) -> (r: Result<RegWrite, DriverError>)
        requires
            old(self).wf(),
            old(self).phase == AdapterPhase::Running,
        ensures
            final(self).wf(),
            final(self).phase == old(self).phase,
            final(self).revision == old(self).revision,
            final(self).cfg == old(self).cfg,
            final(self).pool == old(self).pool,
            final(self).tx == old(self).tx,
            final(self).link == old(self).link,
            final(self).error_count == old(self).error_count,
            (r matches Err(_)) <==> old(self).rx.avail() == old(self).rx.n() - 1,
            r matches Err(e) ==> e == DriverError::RingFull && *final(self) == *old(self),
            r matches Ok(_) ==> final(self).rx.avail() == old(self).rx.avail() + 1
                && final(self).rx.delivered() == old(self).rx.delivered() && final(self).rx.head
                == old(self).rx.head && final(self).rx.dev == old(self).rx.dev,
            r matches Ok(w) ==> w == (RegWrite {
                offset: offset_of(RegisterId::Rdt, old(self).revision),
                value: final(self).rx.tail as u32,
            }),
    {
        match self.rx.replenish(buf_addr) {
            Ok(_) => {
                let off = must_offset(RegisterId::Rdt, self.revision);
                Ok(RegWrite { offset: off, value: self.rx.tail as u32 })
            },
            Err(e) => Err(e),
        }
    }

    /// Dispatches one interrupt: decodes the cause word once and routes
    /// each set cause to exactly one handler — transmit write-back to
    /// reclaim, receive-ready to a drain bounded by `rx_budget`, link
    /// change to one poll of the link machine, and receiver overrun to
    /// the device-error count. Work is bounded per invocation; the
    /// remainder waits for the next interrupt.
    ///
    /// `icr` is the value of one read of the interrupt cause register,
    /// whose read-to-clear semantics mean that single read already
    /// acknowledged every cause handled here; the glue must not read it
    /// again before this call returns, or causes would be lost.
    pub fn on_interrupt(&mut self, icr: u32, phy: PhyStatus, rx_budget: usize) -> (out:
        DispatchOutcome)
        requires
            old(self).wf(),
            old(self).phase == AdapterPhase::Running,
        ensures
            final(self).wf(),
            final(self).phase == AdapterPhase::Running,
            final(self).revision == old(self).revision,
            final(self).cfg == old(self).cfg,
            final(self).pool == old(self).pool,
            // transmit write-back: reclaim everything completed, nothing else
            !spec_causes(icr).tx_done ==> final(self).tx == old(self).tx && out.reclaimed == 0,
            spec_causes(icr).tx_done ==> out.reclaimed == old(self).tx.completed()
                && final(self).tx == (TxRing { head: old(self).tx.dev, ..old(self).tx }),
            // receive: drain at most rx_budget completed descriptors from head
            !spec_causes(icr).rx_ready ==> final(self).rx == old(self).rx && out.packets@.len()
                == 0,
            spec_causes(icr).rx_ready ==> out.packets@.len() == (if rx_budget as int
                <= old(self).rx.delivered() {
                rx_budget as int
            } else {
                old(self).rx.delivered()
            }) && final(self).rx.delivered() == old(self).rx.delivered() - out.packets@.len()
                && final(self).rx == (RxRing {
                head: final(self).rx.head,
                ..old(self).rx
            }) && final(self).rx.head as int == slot_add(
                old(self).rx.head as int,
                out.packets@.len() as int,
                old(self).rx.n(),
            ),
            // no phantom packets: every drained packet's descriptor had its
            // done bit set at scan time, and carries the device-reported length
            spec_causes(icr).rx_ready ==> forall|j: int|
                0 <= j < out.packets@.len() ==> old(self).rx.descs@[slot_add(
                    old(self).rx.head as int,
                    j,
                    old(self).rx.n(),
                )].done && (#[trigger] out.packets@[j]) == (RxPacket {
                    buf_addr: old(self).rx.descs@[slot_add(
                        old(self).rx.head as int,
                        j,
                        old(self).rx.n(),
                    )].buf_addr,
                    len: old(self).rx.descs@[slot_add(
                        old(self).rx.head as int,
                        j,
                        old(self).rx.n(),
                    )].pkt_len,
                }),
            // link: one machine step, exactly as specified
            !spec_causes(icr).link_change ==> final(self).link == old(self).link
                && out.link_event is None,
            spec_causes(icr).link_change ==> (final(self).link, out.link_event) == old(
                self,
            ).link.spec_poll(phy),
            // overrun: surfaced as a device error and counted against the
            // threshold; reset requested when the threshold is reached
            out.hw_error == (if spec_causes(icr).rx_overrun {
                Some(DriverError::DeviceError)
            } else {
                None::<DriverError>
            }),
            !spec_causes(icr).rx_overrun ==> final(self).error_count == old(self).error_count
                && !out.needs_reset,
            spec_causes(icr).rx_overrun ==> final(self).error_count == (if old(self).error_count
                < old(self).cfg.error_threshold {
                old(self).error_count + 1
            } else {
                old(self).error_count as int
            }) && out.needs_reset == (final(self).error_count == old(self).cfg.error_threshold),
    {
        let causes = decode_causes(icr);
        let reclaimed = if causes.tx_done {
            self.tx.reclaim_completed()
        } else {
            0
        };
        let packets = if causes.rx_ready {
            self.rx.drain(rx_budget)
        } else {
            Vec::new()
        };
        let link_event = if causes.link_change {
            self.link.poll(phy)
        } else {
            None
        };
        let (hw_error, needs_reset) = if causes.rx_overrun {
            if self.error_count < self.cfg.error_threshold {
                self.error_count = self.error_count + 1;
            }
            (Some(DriverError::DeviceError), self.error_count == self.cfg.error_threshold)
        } else {
            (None, false)
        };
        DispatchOutcome { reclaimed, packets, link_event, hw_error, needs_reset }
    }

    /// Surrenders the DMA pool for reclamation. Demanding a quiesced
    /// adapter is what makes this safe: the device has been cut off
    /// from both rings, so no region handed out here can still be
    /// written.
    pub fn into_pool(self) -> (p: DmaPool)
        requires
            self.wf(),
            self.quiescent(),
        ensures
            p == self.pool,
    {
        self.pool
    }
}

} // verus!
