use e1000_core::adapter::{Adapter, AdapterConfig, AdapterPhase};
use e1000_core::regs::RegWrite;
use e1000_core::dma::DmaPool;
use e1000_core::link::{LinkState, LinkEvent, LinkSpeed, Duplex, PhyStatus, link_event_error};
use e1000_core::regs::ChipRevision;
use e1000_core::tx::TxSegment;
use e1000_core::DriverError;

fn cfg8() -> AdapterConfig {
    AdapterConfig {
        tx_size: 8,
        rx_size: 8,
        rx_buf_size: 2048,
        link_timeout: 4,
        advertised: LinkSpeed::Mb1000,
        error_threshold: 2,
    }
}

fn big_pool() -> DmaPool {
    DmaPool::new(0x10_0000, 0x20_0000)
}

fn phy_up() -> PhyStatus {
    PhyStatus { link_up: true, autoneg_done: true, speed: LinkSpeed::Mb1000, duplex: Duplex::Full }
}

fn phy_none() -> PhyStatus {
    PhyStatus { link_up: false, autoneg_done: false, speed: LinkSpeed::Mb10, duplex: Duplex::Half }
}

#[test]
fn config_check_accepts_ring_sizes_the_hardware_takes() {
    assert!(cfg8().check());
    let mut bad = cfg8();
    bad.tx_size = 6; // not a power of two
    assert!(!bad.check());
    bad = cfg8();
    bad.rx_size = 8192; // past the length register's range
    assert!(!bad.check());
    bad = cfg8();
    bad.link_timeout = 0;
    assert!(!bad.check());
}

#[test]
fn init_builds_a_stopped_adapter_with_populated_rx_ring() {
    let a = Adapter::init(ChipRevision::Mac82544, cfg8(), big_pool()).unwrap();
    assert_eq!(a.phase, AdapterPhase::Stopped);
    assert_eq!(a.link.state, LinkState::Down);
    assert_eq!(a.tx.queued_count(), 0);
    assert_eq!(a.rx.avail_count(), 7);
    assert_eq!(a.tx_region.addr % 128, 0);
    assert_eq!(a.tx_region.size, 128);
    assert_eq!(a.rx_region.size, 128);
    for d in a.rx.descs.iter() {
        assert!(d.buf_addr >= 0x10_0000 && d.buf_addr + 2048 <= 0x20_0000);
        assert!(!d.done);
    }
}

#[test]
fn init_hands_out_pairwise_disjoint_dma_regions() {
    let a = Adapter::init(ChipRevision::Mac82544, cfg8(), big_pool()).unwrap();
    assert!(a.tx_region.addr + a.tx_region.size <= a.rx_region.addr);
    let mut ends = vec![
        (a.tx_region.addr, a.tx_region.addr + a.tx_region.size),
        (a.rx_region.addr, a.rx_region.addr + a.rx_region.size),
    ];
    for d in a.rx.descs.iter() {
        ends.push((d.buf_addr, d.buf_addr + 2048));
    }
    for i in 0..ends.len() {
        for j in 0..ends.len() {
            if i != j {
                let (s1, e1) = ends[i];
                let (s2, e2) = ends[j];
                assert!(e1 <= s2 || e2 <= s1, "regions overlap");
            }
        }
    }
}

#[test]
fn init_without_room_fails_out_of_memory() {
    let tiny = DmaPool::new(0x1000, 0x1400);
    assert!(matches!(
        Adapter::init(ChipRevision::Mac82544, cfg8(), tiny),
        Err(DriverError::OutOfMemory)
    ));
}

#[test]
fn start_emits_ring_setup_before_enables_and_unmask_last() {
    let mut a = Adapter::init(ChipRevision::Mac82544, cfg8(), big_pool()).unwrap();
    let tx_base = a.tx_region.addr;
    let rx_base = a.rx_region.addr;
    let prog = a.start();
    let expected = vec![
        RegWrite { offset: 0x00D8, value: 0xFFFF_FFFF },           // mask all
        RegWrite { offset: 0x3800, value: tx_base as u32 },        // TX base low
        RegWrite { offset: 0x3804, value: (tx_base >> 32) as u32 },// TX base high
        RegWrite { offset: 0x3808, value: 128 },                   // TX ring bytes
        RegWrite { offset: 0x3810, value: 0 },                     // TX head
        RegWrite { offset: 0x3818, value: 0 },                     // TX tail
        RegWrite { offset: 0x2800, value: rx_base as u32 },        // RX base low
        RegWrite { offset: 0x2804, value: (rx_base >> 32) as u32 },// RX base high
        RegWrite { offset: 0x2808, value: 128 },                   // RX ring bytes
        RegWrite { offset: 0x2810, value: 0 },                     // RX head
        RegWrite { offset: 0x2818, value: 7 },                     // RX tail: populated ring
        RegWrite { offset: 0x0400, value: 0x2 },                   // TX enable
        RegWrite { offset: 0x0100, value: 0x2 },                   // RX enable
        RegWrite { offset: 0x00D0, value: 0x01 | 0x04 | 0x40 | 0x80 }, // unmask causes
    ];
    assert_eq!(prog, expected);
    assert_eq!(a.phase, AdapterPhase::Running);
    assert_eq!(a.link.state, LinkState::Negotiating { ticks: 0 });
    assert!(a.tx.active && a.rx.active);
}

#[test]
fn start_uses_legacy_offsets_on_82542() {
    let mut a = Adapter::init(ChipRevision::Mac82542Rev2_0, cfg8(), big_pool()).unwrap();
    let prog = a.start();
    assert_eq!(prog[1].offset, 0x0420); // TX base low, legacy layout
    assert_eq!(prog[6].offset, 0x0110); // RX base low, legacy layout
    assert_eq!(prog[13].offset, 0x00D0); // unmask is layout-independent
}

#[test]
fn transmit_returns_the_tail_write_and_backpressure_when_full() {
    let mut a = Adapter::init(ChipRevision::Mac82544, cfg8(), big_pool()).unwrap();
    a.start();
    for i in 0..7u64 {
        let w = a.transmit(TxSegment { addr: 0x4000 + i * 0x800, len: 1514 }).unwrap();
        assert_eq!(w.offset, 0x3818);
        assert_eq!(w.value, ((i + 1) % 8) as u32);
    }
    assert_eq!(
        a.transmit(TxSegment { addr: 0x9000, len: 64 }),
        Err(DriverError::RingFull)
    );
    // device completes three; the dispatcher's reclaim frees exactly three
    a.tx.device_complete(3);
    let out = a.on_interrupt(0x01, phy_none(), 8);
    assert_eq!(out.reclaimed, 3);
    assert_eq!(a.tx.free_count(), 3);
}

#[test]
fn interrupt_dispatch_routes_each_cause_once() {
    let mut a = Adapter::init(ChipRevision::Mac82544, cfg8(), big_pool()).unwrap();
    a.start();
    a.transmit(TxSegment { addr: 0x4000, len: 256 }).unwrap();
    a.tx.device_complete(1);
    a.rx.device_deliver(60);
    a.rx.device_deliver(1514);
    // transmit write-back, receive ready, and link change all at once
    let out = a.on_interrupt(0x01 | 0x80 | 0x04, phy_up(), 8);
    assert_eq!(out.reclaimed, 1);
    assert_eq!(out.packets.len(), 2);
    assert_eq!(out.packets[0].len, 60);
    assert_eq!(out.packets[1].len, 1514);
    assert_eq!(
        out.link_event,
        Some(LinkEvent::CameUp { speed: LinkSpeed::Mb1000, duplex: Duplex::Full })
    );
    assert!(!out.needs_reset);
    assert_eq!(a.link.state, LinkState::Up { speed: LinkSpeed::Mb1000, duplex: Duplex::Full });
}

#[test]
fn drained_packets_all_carry_a_set_completion_bit() {
    let mut a = Adapter::init(ChipRevision::Mac82544, cfg8(), big_pool()).unwrap();
    a.start();
    a.rx.device_deliver(100);
    let head_before = a.rx.head;
    let descs_before = a.rx.descs.clone();
    let out = a.on_interrupt(0x80, phy_none(), 8);
    // only the one completed descriptor comes out, never the five
    // advertised-but-empty ones
    assert_eq!(out.packets.len(), 1);
    assert!(descs_before[head_before].done);
    assert_eq!(out.packets[0].buf_addr, descs_before[head_before].buf_addr);
}

#[test]
fn repeated_overruns_request_a_reset_at_the_threshold() {
    let mut a = Adapter::init(ChipRevision::Mac82544, cfg8(), big_pool()).unwrap();
    a.start();
    let out = a.on_interrupt(0x40, phy_none(), 8);
    assert_eq!(a.error_count, 1);
    assert_eq!(out.hw_error, Some(DriverError::DeviceError));
    assert!(!out.needs_reset);
    let out = a.on_interrupt(0x40, phy_none(), 8);
    assert_eq!(a.error_count, 2);
    assert!(out.needs_reset);
    // an interrupt without the overrun cause carries no device error
    let out = a.on_interrupt(0x01, phy_none(), 8);
    assert_eq!(out.hw_error, None);
}

#[test]
fn transmit_chain_returns_one_tail_write_for_the_whole_packet() {
    let mut a = Adapter::init(ChipRevision::Mac82544, cfg8(), big_pool()).unwrap();
    a.start();
    let segs = vec![
        TxSegment { addr: 0x4000, len: 1024 },
        TxSegment { addr: 0x5000, len: 490 },
    ];
    let w = a.transmit_chain(&segs).unwrap();
    assert_eq!(w.offset, 0x3818);
    assert_eq!(w.value, 2);
    assert!(!a.tx.descs[0].eop);
    assert!(a.tx.descs[1].eop);
}

#[test]
fn link_up_reports_what_the_partner_negotiated_not_the_advertisement() {
    // the configuration advertises gigabit, but the partner holds the
    // negotiation down to 100 half
    let mut a = Adapter::init(ChipRevision::Mac82544, cfg8(), big_pool()).unwrap();
    a.start();
    let partner_limited = PhyStatus {
        link_up: true,
        autoneg_done: true,
        speed: LinkSpeed::Mb100,
        duplex: Duplex::Half,
    };
    let out = a.on_interrupt(0x04, partner_limited, 8);
    assert_eq!(
        out.link_event,
        Some(LinkEvent::CameUp { speed: LinkSpeed::Mb100, duplex: Duplex::Half })
    );
    assert_eq!(a.link.state, LinkState::Up { speed: LinkSpeed::Mb100, duplex: Duplex::Half });
    assert_eq!(a.link.advertised, LinkSpeed::Mb1000);
}

#[test]
fn stalled_negotiation_surfaces_as_link_timeout() {
    let mut a = Adapter::init(ChipRevision::Mac82544, cfg8(), big_pool()).unwrap();
    a.start();
    let mut last = None;
    for _ in 0..4 {
        let out = a.on_interrupt(0x04, phy_none(), 8);
        last = out.link_event;
    }
    assert_eq!(last, Some(LinkEvent::TimedOut));
    assert_eq!(link_event_error(last), Some(DriverError::LinkTimeout));
    assert_eq!(link_event_error(None), None);
    assert_eq!(a.link.state, LinkState::Down);
}

#[test]
fn replenish_returns_the_rx_tail_write() {
    let mut a = Adapter::init(ChipRevision::Mac82544, cfg8(), big_pool()).unwrap();
    a.start();
    a.rx.device_deliver(500);
    let out = a.on_interrupt(0x80, phy_none(), 8);
    let buf = out.packets[0].buf_addr;
    let w = a.replenish(buf).unwrap();
    assert_eq!(w.offset, 0x2818);
    assert_eq!(w.value, a.rx.tail as u32);
    // window full again: next replenish is refused
    assert_eq!(a.replenish(0xBBBB), Err(DriverError::RingFull));
}

#[test]
fn stop_quiesces_and_leaves_descriptors_untouched() {
    let mut a = Adapter::init(ChipRevision::Mac82544, cfg8(), big_pool()).unwrap();
    a.start();
    a.transmit(TxSegment { addr: 0x4000, len: 256 }).unwrap();
    let tx_before = a.tx.descs.clone();
    let rx_before = a.rx.descs.clone();
    let prog = a.stop();
    let expected = vec![
        RegWrite { offset: 0x00D8, value: 0xFFFF_FFFF }, // mask first
        RegWrite { offset: 0x0400, value: 0 },           // TX engine off
        RegWrite { offset: 0x0100, value: 0 },           // RX engine off
    ];
    assert_eq!(prog, expected);
    assert_eq!(a.phase, AdapterPhase::Stopped);
    assert!(!a.tx.active && !a.rx.active);
    assert_eq!(a.link.state, LinkState::Down);
    assert_eq!(a.tx.descs, tx_before);
    assert_eq!(a.rx.descs, rx_before);
    // quiesced: ring memory may be reclaimed
    let pool = a.into_pool();
    assert!(pool.live > 0);
}

#[test]
fn dma_pool_aligns_and_reports_exhaustion() {
    let mut pool = DmaPool::new(0x1001, 0x2000);
    let r1 = pool.allocate(0x100, 128).unwrap();
    assert_eq!(r1.addr % 128, 0);
    assert!(r1.addr >= 0x1001);
    let r2 = pool.allocate(0x100, 128).unwrap();
    assert!(r2.addr >= r1.addr + 0x100);
    assert_eq!(
        pool.allocate(0x10_0000, 16),
        Err(DriverError::OutOfMemory)
    );
    pool.free(r1);
    pool.free(r2);
    assert_eq!(pool.live, 0);
    assert_eq!(pool.next, pool.base);
}
