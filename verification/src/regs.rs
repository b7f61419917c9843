//! Register access layer: logical register identifiers and their
//! translation to byte offsets for each supported chip revision.
//!
//! The 82542 steppings predate the unified register layout, so most of
//! the ring-control registers live at different offsets there, and a few
//! registers do not exist at all. Translation is a pure function of the
//! (identifier, revision) pair; an identifier with no mapping on a
//! revision is a declared capability gap and is reported as
//! `UnsupportedRegister`, never papered over with a guessed offset.

use vstd::prelude::*;

use crate::DriverError;

verus! {

/// One ordered, volatile register write for the platform glue to
/// issue: a single, non-reordered, non-cached store of `value` at byte
/// offset `offset` from the mapped register base.
#[derive(Clone, Copy, Debug, PartialEq, Eq, Structural)]
pub struct RegWrite {
    pub offset: u32,
    pub value: u32,
}

/// Logical register identifier, decoupled from the physical offset.
#[derive(Clone, Copy, Debug, PartialEq, Eq, Structural)]
pub enum RegisterId {
    /// Device control.
    Ctrl,
    /// Device status.
    Status,
    /// Interrupt cause read.
    Icr,
    /// Interrupt mask set.
    Ims,
    /// Interrupt mask clear.
    Imc,
    /// Receive control.
    Rctl,
    /// Transmit control.
    Tctl,
    /// Receive interrupt delay timer.
    Rdtr,
    /// Receive descriptor base address, low half.
    Rdbal,
    /// Receive descriptor base address, high half.
    Rdbah,
    /// Receive descriptor ring length in bytes.
    Rdlen,
    /// Receive descriptor head.
    Rdh,
    /// Receive descriptor tail.
    Rdt,
    /// Transmit descriptor base address, low half.
    Tdbal,
    /// Transmit descriptor base address, high half.
    Tdbah,
    /// Transmit descriptor ring length in bytes.
    Tdlen,
    /// Transmit descriptor head.
    Tdh,
    /// Transmit descriptor tail.
    Tdt,
    /// Transmit interrupt delay value.
    Tidv,
    /// Transmit descriptor control; absent on the pre-unified layout.
    Txdctl,
    /// Receive descriptor control; absent on the pre-unified layout.
    Rxdctl,
}

/// Chip revision, fixed at adapter initialization.
#[derive(Clone, Copy, Debug, PartialEq, Eq, Structural)]
pub enum ChipRevision {
    Mac82542Rev2_0,
    Mac82542Rev2_1,
    Mac82543,
    Mac82544,
    Mac82540,
}

/// True on the 82542 steppings, whose ring registers live at the
/// original offsets rather than the unified layout used from the 82543
/// generation on.
pub open spec fn legacy_layout(rev: ChipRevision) -> bool {
    rev == ChipRevision::Mac82542Rev2_0 || rev == ChipRevision::Mac82542Rev2_1
}

/// The per-revision offset table: the byte offset of `reg` on revision
/// `rev`, or `None` where the revision lacks that register.
pub open spec fn spec_offset(reg: RegisterId, rev: ChipRevision) -> Option<u32> {
    if legacy_layout(rev) {
        match reg {
            RegisterId::Ctrl => Some(0x0000u32),
            RegisterId::Status => Some(0x0008u32),
            RegisterId::Icr => Some(0x00C0u32),
            RegisterId::Ims => Some(0x00D0u32),
            RegisterId::Imc => Some(0x00D8u32),
            RegisterId::Rctl => Some(0x0100u32),
            RegisterId::Tctl => Some(0x0400u32),
            RegisterId::Rdtr => Some(0x0108u32),
            RegisterId::Rdbal => Some(0x0110u32),
            RegisterId::Rdbah => Some(0x0114u32),
            RegisterId::Rdlen => Some(0x0118u32),
            RegisterId::Rdh => Some(0x0120u32),
            RegisterId::Rdt => Some(0x0128u32),
            RegisterId::Tdbal => Some(0x0420u32),
            RegisterId::Tdbah => Some(0x0424u32),
            RegisterId::Tdlen => Some(0x0428u32),
            RegisterId::Tdh => Some(0x0430u32),
            RegisterId::Tdt => Some(0x0438u32),
            RegisterId::Tidv => Some(0x0440u32),
            RegisterId::Txdctl => None,
            RegisterId::Rxdctl => None,
        }
    } else {
        match reg {
            RegisterId::Ctrl => Some(0x0000u32),
            RegisterId::Status => Some(0x0008u32),
            RegisterId::Icr => Some(0x00C0u32),
            RegisterId::Ims => Some(0x00D0u32),
            RegisterId::Imc => Some(0x00D8u32),
            RegisterId::Rctl => Some(0x0100u32),
            RegisterId::Tctl => Some(0x0400u32),
            RegisterId::Rdtr => Some(0x2820u32),
            RegisterId::Rdbal => Some(0x2800u32),
            RegisterId::Rdbah => Some(0x2804u32),
            RegisterId::Rdlen => Some(0x2808u32),
            RegisterId::Rdh => Some(0x2810u32),
            RegisterId::Rdt => Some(0x2818u32),
            RegisterId::Tdbal => Some(0x3800u32),
            RegisterId::Tdbah => Some(0x3804u32),
            RegisterId::Tdlen => Some(0x3808u32),
            RegisterId::Tdh => Some(0x3810u32),
            RegisterId::Tdt => Some(0x3818u32),
            RegisterId::Tidv => Some(0x3820u32),
            RegisterId::Txdctl => Some(0x3828u32),
            RegisterId::Rxdctl => Some(0x2828u32),
        }
    }
}

/// True when `reg` has an offset on revision `rev`.
pub open spec fn reg_supported(reg: RegisterId, rev: ChipRevision) -> bool {
    spec_offset(reg, rev) is Some
}

/// Translates a logical register identifier to its byte offset on the
/// given chip revision. Fails with `UnsupportedRegister`, and never
/// with a guessed offset, where the revision lacks the register.
pub fn translate_register(reg: RegisterId, rev: ChipRevision) -> (r: Result<u32, DriverError>)
    ensures
        r == match spec_offset(reg, rev) {
            Some(off) => Ok::<u32, DriverError>(off),
            None => Err::<u32, DriverError>(DriverError::UnsupportedRegister),
        },
{
    let table: Option<u32> = if matches!(rev, ChipRevision::Mac82542Rev2_0 | ChipRevision::Mac82542Rev2_1) {
        match reg {
            RegisterId::Ctrl => Some(0x0000u32),
            RegisterId::Status => Some(0x0008u32),
            RegisterId::Icr => Some(0x00C0u32),
            RegisterId::Ims => Some(0x00D0u32),
            RegisterId::Imc => Some(0x00D8u32),
            RegisterId::Rctl => Some(0x0100u32),
            RegisterId::Tctl => Some(0x0400u32),
            RegisterId::Rdtr => Some(0x0108u32),
            RegisterId::Rdbal => Some(0x0110u32),
            RegisterId::Rdbah => Some(0x0114u32),
            RegisterId::Rdlen => Some(0x0118u32),
            RegisterId::Rdh => Some(0x0120u32),
            RegisterId::Rdt => Some(0x0128u32),
            RegisterId::Tdbal => Some(0x0420u32),
            RegisterId::Tdbah => Some(0x0424u32),
            RegisterId::Tdlen => Some(0x0428u32),
            RegisterId::Tdh => Some(0x0430u32),
            RegisterId::Tdt => Some(0x0438u32),
            RegisterId::Tidv => Some(0x0440u32),
            RegisterId::Txdctl => None,
            RegisterId::Rxdctl => None,
        }
    } else {
        match reg {
            RegisterId::Ctrl => Some(0x0000u32),
            RegisterId::Status => Some(0x0008u32),
            RegisterId::Icr => Some(0x00C0u32),
            RegisterId::Ims => Some(0x00D0u32),
            RegisterId::Imc => Some(0x00D8u32),
            RegisterId::Rctl => Some(0x0100u32),
            RegisterId::Tctl => Some(0x0400u32),
            RegisterId::Rdtr => Some(0x2820u32),
            RegisterId::Rdbal => Some(0x2800u32),
            RegisterId::Rdbah => Some(0x2804u32),
            RegisterId::Rdlen => Some(0x2808u32),
            RegisterId::Rdh => Some(0x2810u32),
            RegisterId::Rdt => Some(0x2818u32),
            RegisterId::Tdbal => Some(0x3800u32),
            RegisterId::Tdbah => Some(0x3804u32),
            RegisterId::Tdlen => Some(0x3808u32),
            RegisterId::Tdh => Some(0x3810u32),
            RegisterId::Tdt => Some(0x3818u32),
            RegisterId::Tidv => Some(0x3820u32),
            RegisterId::Txdctl => Some(0x3828u32),
            RegisterId::Rxdctl => Some(0x2828u32),
        }
    };
    match table {
        Some(off) => Ok(off),
        None => Err(DriverError::UnsupportedRegister),
    }
}

/// Plans one register write: translates the identifier for the
/// revision and pairs it with the value to store. A read is the dual:
/// the glue issues a single volatile load at the offset
/// `translate_register` yields. Both fail with `UnsupportedRegister`
/// where the revision lacks the register, so no access is ever issued
/// at a guessed offset.
pub fn write_register(reg: RegisterId, rev: ChipRevision, value: u32) -> (r: Result<
    RegWrite,
    DriverError,
>)
    ensures
        r == match spec_offset(reg, rev) {
            Some(off) => Ok::<RegWrite, DriverError>(RegWrite { offset: off, value }),
            None => Err::<RegWrite, DriverError>(DriverError::UnsupportedRegister),
        },
{
    match translate_register(reg, rev) {
        Ok(off) => Ok(RegWrite { offset: off, value }),
        Err(e) => Err(e),
    }
}

} // verus!
