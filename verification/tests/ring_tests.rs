use e1000_core::tx::{TxRing, TxSegment};
use e1000_core::rx::RxRing;
use e1000_core::DriverError;

fn seg(addr: u64, len: u16) -> TxSegment {
    TxSegment { addr, len }
}

fn occupancy(head: usize, tail: usize, n: usize) -> usize {
    if tail >= head {
        tail - head
    } else {
        tail + n - head
    }
}

#[test]
fn tx_ring_of_8_takes_7_then_reports_full() {
    let mut ring = TxRing::new(8);
    ring.active = true;
    for i in 0..7 {
        assert_eq!(ring.enqueue(seg(0x1000 + i, 64)), Ok(()));
        assert_eq!(ring.queued_count(), (i + 1) as usize);
    }
    // tail may never catch head: the next two calls both see a full ring
    assert_eq!(ring.enqueue(seg(0x2000, 64)), Err(DriverError::RingFull));
    assert_eq!(ring.enqueue(seg(0x2001, 64)), Err(DriverError::RingFull));
    assert_eq!(ring.queued_count(), 7);
}

#[test]
fn tx_reclaim_after_3_completions_frees_exactly_3_slots() {
    let mut ring = TxRing::new(8);
    ring.active = true;
    for i in 0..7 {
        assert_eq!(ring.enqueue(seg(0x1000 + i, 64)), Ok(()));
    }
    assert_eq!(ring.free_count(), 0);
    ring.device_complete(3);
    assert_eq!(ring.reclaim_completed(), 3);
    assert_eq!(ring.free_count(), 3);
    assert_eq!(ring.queued_count(), 4);
    // exactly three more fit before backpressure returns
    for i in 0..3 {
        assert_eq!(ring.enqueue(seg(0x3000 + i, 64)), Ok(()));
    }
    assert_eq!(ring.enqueue(seg(0x4000, 64)), Err(DriverError::RingFull));
}

#[test]
fn tx_cursor_distance_stays_under_capacity_throughout() {
    let n = 8;
    let mut ring = TxRing::new(n);
    ring.active = true;
    for round in 0..5u64 {
        for i in 0..6 {
            let _ = ring.enqueue(seg(round * 0x100 + i, 32));
            assert!(occupancy(ring.head, ring.tail, n) <= n - 1);
        }
        ring.device_complete(ring.queued_count());
        let _ = ring.reclaim_completed();
        assert!(occupancy(ring.head, ring.tail, n) <= n - 1);
    }
}

#[test]
fn tx_descriptor_written_before_tail_moves() {
    let mut ring = TxRing::new(8);
    ring.active = true;
    assert_eq!(ring.enqueue(seg(0xDEAD_0000, 1514)), Ok(()));
    let d = ring.descs[0];
    assert_eq!(d.buf_addr, 0xDEAD_0000);
    assert_eq!(d.buf_len, 1514);
    assert!(d.eop);
    assert!(!d.done);
    assert_eq!(ring.tail, 1);
}

#[test]
fn tx_reclaim_stops_at_first_unfinished_descriptor() {
    let mut ring = TxRing::new(8);
    ring.active = true;
    for i in 0..5 {
        assert_eq!(ring.enqueue(seg(i, 64)), Ok(()));
    }
    ring.device_complete(2);
    assert_eq!(ring.reclaim_completed(), 2);
    assert_eq!(ring.queued_count(), 3);
    assert_eq!(ring.reclaim_completed(), 0);
}

#[test]
fn tx_chain_sets_end_of_packet_on_last_segment_only() {
    let mut ring = TxRing::new(8);
    ring.active = true;
    let segs = vec![seg(0x1000, 512), seg(0x2000, 512), seg(0x3000, 490)];
    assert_eq!(ring.enqueue_chain(&segs), Ok(()));
    assert_eq!(ring.queued_count(), 3);
    assert!(!ring.descs[0].eop);
    assert!(!ring.descs[1].eop);
    assert!(ring.descs[2].eop);
    assert_eq!(ring.descs[1].buf_addr, 0x2000);
    assert_eq!(ring.descs[2].buf_len, 490);
}

#[test]
fn tx_chain_is_all_or_nothing() {
    let mut ring = TxRing::new(8);
    ring.active = true;
    for i in 0..5 {
        assert_eq!(ring.enqueue(seg(i, 64)), Ok(()));
    }
    // two free slots, three segments: nothing may be written
    let tail_before = ring.tail;
    let segs = vec![seg(0x1000, 512), seg(0x2000, 512), seg(0x3000, 512)];
    assert_eq!(ring.enqueue_chain(&segs), Err(DriverError::RingFull));
    assert_eq!(ring.tail, tail_before);
    assert_eq!(ring.queued_count(), 5);
    // a two-segment packet still fits exactly
    let segs = vec![seg(0x4000, 512), seg(0x5000, 512)];
    assert_eq!(ring.enqueue_chain(&segs), Ok(()));
    assert_eq!(ring.queued_count(), 7);
}

#[test]
fn rx_ring_starts_fully_populated() {
    let bufs: Vec<u64> = (0..8u64).map(|i| 0x9000 + i * 0x800).collect();
    let ring = RxRing::new(8, &bufs);
    assert_eq!(ring.avail_count(), 7);
    assert_eq!(ring.delivered_count(), 0);
    for (i, d) in ring.descs.iter().enumerate() {
        assert_eq!(d.buf_addr, bufs[i]);
        assert!(!d.done);
    }
}

#[test]
fn rx_drain_returns_only_completed_descriptors() {
    let bufs: Vec<u64> = (0..8u64).map(|i| 0x9000 + i * 0x800).collect();
    let mut ring = RxRing::new(8, &bufs);
    ring.active = true;
    ring.device_deliver(100);
    ring.device_deliver(200);
    // five more slots are advertised but not completed
    let pkts = ring.drain(64);
    assert_eq!(pkts.len(), 2);
    assert_eq!(pkts[0].buf_addr, 0x9000);
    assert_eq!(pkts[0].len, 100);
    assert_eq!(pkts[1].buf_addr, 0x9800);
    assert_eq!(pkts[1].len, 200);
    assert_eq!(ring.delivered_count(), 0);
    assert_eq!(ring.avail_count(), 5);
}

#[test]
fn rx_drain_is_bounded_and_restartable() {
    let bufs: Vec<u64> = (0..16u64).map(|i| i * 0x1000).collect();
    let mut ring = RxRing::new(16, &bufs);
    ring.active = true;
    for i in 0..5 {
        ring.device_deliver(60 + i);
    }
    let first = ring.drain(2);
    assert_eq!(first.len(), 2);
    assert_eq!(ring.delivered_count(), 3);
    let second = ring.drain(16);
    assert_eq!(second.len(), 3);
    assert_eq!(second[0].len, 62);
    assert_eq!(second[2].len, 64);
}

#[test]
fn rx_replenish_restores_the_advertised_window() {
    let bufs: Vec<u64> = (0..8u64).map(|i| i * 0x800).collect();
    let mut ring = RxRing::new(8, &bufs);
    ring.active = true;
    ring.device_deliver(300);
    let pkts = ring.drain(8);
    assert_eq!(pkts.len(), 1);
    assert_eq!(ring.avail_count(), 6);
    assert_eq!(ring.replenish(pkts[0].buf_addr), Ok(()));
    assert_eq!(ring.avail_count(), 7);
    // window at its limit: one more buffer cannot be advertised
    assert_eq!(ring.replenish(0xAAAA), Err(DriverError::RingFull));
}
