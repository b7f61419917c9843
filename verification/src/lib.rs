//! Core engine for an Intel e1000-family Ethernet controller driver:
//! per-revision register translation, transmit and receive descriptor
//! rings with producer/consumer bookkeeping, DMA region accounting, the
//! link negotiation state machine, and interrupt-cause dispatch.
//!
//! Everything the device and the host exchange is modeled as plain
//! values, so every rule the hardware imposes (cursor bounds, descriptor
//! ownership, ordering of ring programming) is stated in contracts and
//! proved. The surrounding platform glue performs the actual
//! memory-mapped accesses that these contracts describe.

use vstd::prelude::*;

pub mod regs;
pub mod ring;
pub mod tx;
pub mod rx;
pub mod link;
pub mod dma;
pub mod intr;
pub mod adapter;

verus! {

/// Every failure the driver core can report.
///
/// `UnsupportedRegister` is fatal at initialization (wrong driver
/// binding for the chip revision); `RingFull` is transient backpressure;
/// `OutOfMemory` aborts the setup of the ring that requested it;
/// `DeviceError` counts hardware-reported faults; `LinkTimeout` means
/// negotiation stalled and the link is reported down.
#[derive(Clone, Copy, Debug, PartialEq, Eq, Structural)]
pub enum DriverError {
    UnsupportedRegister,
    RingFull,
    OutOfMemory,
    DeviceError,
    LinkTimeout,
}

} // verus!
