//! Interrupt cause decoding.
//!
//! One read of the interrupt cause register yields a word of cause
//! bits; each bit of interest is dispatched to exactly one handler by
//! the adapter. The bit positions are the device's: transmit descriptor
//! written back, link status change, receiver overrun, and receiver
//! timer (packets ready).

use vstd::prelude::*;

verus! {

/// Transmit descriptor write-back cause bit.
pub const ICR_TXDW: u32 = 0x01;

/// Link status change cause bit.
pub const ICR_LSC: u32 = 0x04;

/// Receiver overrun cause bit.
pub const ICR_RXO: u32 = 0x40;

/// Receiver timer / packets ready cause bit.
pub const ICR_RXT0: u32 = 0x80;

/// The decoded causes of one interrupt, one flag per handled bit.
#[derive(Clone, Copy, Debug, PartialEq, Eq, Structural)]
pub struct InterruptCauses {
    pub tx_done: bool,
    pub rx_ready: bool,
    pub link_change: bool,
    pub rx_overrun: bool,
}

/// What one cause-register word decodes to.
pub open spec fn spec_causes(icr: u32) -> InterruptCauses {
    InterruptCauses {
        tx_done: icr & ICR_TXDW != 0,
        rx_ready: icr & ICR_RXT0 != 0,
        link_change: icr & ICR_LSC != 0,
        rx_overrun: icr & ICR_RXO != 0,
    }
}

/// The mask of every cause bit the dispatcher handles; written to the
/// interrupt mask register to enable exactly those causes.
pub open spec fn spec_cause_mask() -> u32 {
    ICR_TXDW | ICR_LSC | ICR_RXO | ICR_RXT0
}

/// Decodes one read of the interrupt cause register into flags, one
/// per cause the dispatcher handles.
pub fn decode_causes(icr: u32) -> (c: InterruptCauses)
    ensures
        c == spec_causes(icr),
{
    InterruptCauses {
        tx_done: icr & ICR_TXDW != 0,
        rx_ready: icr & ICR_RXT0 != 0,
        link_change: icr & ICR_LSC != 0,
        rx_overrun: icr & ICR_RXO != 0,
    }
}

/// The handled-cause mask as a value to program into the mask register.
pub fn cause_mask() -> (m: u32)
    ensures
        m == spec_cause_mask(),
{
    ICR_TXDW | ICR_LSC | ICR_RXO | ICR_RXT0
}

} // verus!
