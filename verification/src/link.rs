//! Link/PHY negotiation state machine.
//!
//! The machine moves between down, negotiating, and up, driven only by
//! the PHY status bits the poller hands it — never fabricated. When the
//! link comes up, the resolved speed and duplex are taken from hardware
//! status, not from the configured advertisement, because
//! auto-negotiation may settle on less than was advertised. Negotiation
//! that makes no progress for the configured number of polls times out
//! back to down.

use vstd::prelude::*;

use crate::DriverError;

verus! {

/// Resolved link speed in megabits per second.
#[derive(Clone, Copy, Debug, PartialEq, Eq, Structural)]
pub enum LinkSpeed {
    Mb10,
    Mb100,
    Mb1000,
}

/// Resolved duplex mode.
#[derive(Clone, Copy, Debug, PartialEq, Eq, Structural)]
pub enum Duplex {
    Half,
    Full,
}

/// Link state: down, negotiating (with the number of polls spent so
/// far), or up at a resolved speed and duplex.
#[derive(Clone, Copy, Debug, PartialEq, Eq, Structural)]
pub enum LinkState {
    Down,
    Negotiating { ticks: u32 },
    Up { speed: LinkSpeed, duplex: Duplex },
}

/// Transition reported to the surrounding stack.
#[derive(Clone, Copy, Debug, PartialEq, Eq, Structural)]
pub enum LinkEvent {
    CameUp { speed: LinkSpeed, duplex: Duplex },
    WentDown,
    TimedOut,
}

/// The PHY status bits a poll reads back from hardware: carrier,
/// negotiation-complete, and the resolved speed and duplex fields.
#[derive(Clone, Copy, Debug, PartialEq, Eq, Structural)]
pub struct PhyStatus {
    pub link_up: bool,
    pub autoneg_done: bool,
    pub speed: LinkSpeed,
    pub duplex: Duplex,
}

/// The state machine: current state plus its configuration inputs,
/// fixed at start — the negotiation timeout in polls, and the fastest
/// advertised mode. The advertisement is programmed into the PHY by the
/// glue and narrows what the partner may resolve; the machine itself
/// never reads it back, so a resolved link always reflects hardware
/// status.
#[derive(Clone, Copy, Debug, PartialEq, Eq, Structural)]
pub struct LinkMachine {
    pub state: LinkState,
    pub timeout: u32,
    pub advertised: LinkSpeed,
}

impl LinkMachine {
    /// Well-formedness: a positive timeout, and a negotiation tick
    /// count that has not yet reached it.
    pub open spec fn wf(self) -> bool {
        &&& self.timeout >= 1
        &&& (self.state matches LinkState::Negotiating { ticks } ==> ticks < self.timeout)
    }

    /// The transition function: next state and reported event for one
    /// poll of the PHY status.
    pub open spec fn spec_poll(self, phy: PhyStatus) -> (LinkMachine, Option<LinkEvent>) {
        match self.state {
            LinkState::Down => (self, None),
            LinkState::Negotiating { ticks } => {
                if phy.link_up && phy.autoneg_done {
                    (
                        LinkMachine {
                            state: LinkState::Up { speed: phy.speed, duplex: phy.duplex },
                            ..self
                        },
                        Some(LinkEvent::CameUp { speed: phy.speed, duplex: phy.duplex }),
                    )
                } else if ticks + 1 >= self.timeout {
                    (LinkMachine { state: LinkState::Down, ..self }, Some(LinkEvent::TimedOut))
                } else {
                    (
                        LinkMachine {
                            state: LinkState::Negotiating { ticks: (ticks + 1) as u32 },
                            ..self
                        },
                        None,
                    )
                }
            },
            LinkState::Up { speed, duplex } => {
                if phy.link_up {
                    (self, None)
                } else {
                    (LinkMachine { state: LinkState::Down, ..self }, Some(LinkEvent::WentDown))
                }
            },
        }
    }

    /// A new machine, down, with the given negotiation timeout and
    /// advertisement.
    pub fn new(timeout: u32, advertised: LinkSpeed) -> (r: LinkMachine)
        requires
            timeout >= 1,
        ensures
            r.wf(),
            r.state == LinkState::Down,
            r.timeout == timeout,
            r.advertised == advertised,
    {
        LinkMachine { state: LinkState::Down, timeout, advertised }
    }

    /// Begins auto-negotiation from scratch.
    pub fn begin_negotiation(&mut self)
        requires
            old(self).wf(),
        ensures
            final(self).wf(),
            *final(self) == (LinkMachine { state: LinkState::Negotiating { ticks: 0u32 }, ..*old(self) }),
    {
        self.state = LinkState::Negotiating { ticks: 0 };
    }

    /// Drives one step of the machine from the PHY status just read,
    /// returning the transition to report, if any. The step is exactly
    /// `spec_poll`; in particular, a link that comes up carries the
    /// speed and duplex the hardware resolved.
    pub fn poll(&mut self, phy: PhyStatus) -> (ev: Option<LinkEvent>)
        requires
            old(self).wf(),
        ensures
            final(self).wf(),
            (*final(self), ev) == old(self).spec_poll(phy),
            final(self).timeout == old(self).timeout,
    {
        match self.state {
            LinkState::Down => None,
            LinkState::Negotiating { ticks } => {
                if phy.link_up && phy.autoneg_done {
                    self.state = LinkState::Up { speed: phy.speed, duplex: phy.duplex };
                    Some(LinkEvent::CameUp { speed: phy.speed, duplex: phy.duplex })
                } else if ticks + 1 >= self.timeout {
                    self.state = LinkState::Down;
                    Some(LinkEvent::TimedOut)
                } else {
                    self.state = LinkState::Negotiating { ticks: ticks + 1 };
                    None
                }
            },
            LinkState::Up { speed: _, duplex: _ } => {
                if phy.link_up {
                    None
                } else {
                    self.state = LinkState::Down;
                    Some(LinkEvent::WentDown)
                }
            },
        }
    }

    /// Whenever a poll takes the machine from a state that is not up
    /// into the up state, the reported speed and duplex are the ones
    /// the PHY resolved — the configured advertisement never enters the
    /// transition.
    pub proof fn lemma_up_reflects_negotiated(self, phy: PhyStatus)
        requires
            self.wf(),
            !(self.state matches LinkState::Up { .. }),
            self.spec_poll(phy).0.state matches LinkState::Up { .. },
        ensures
            self.spec_poll(phy).0.state == (LinkState::Up { speed: phy.speed, duplex: phy.duplex }),
            self.spec_poll(phy).1 == Some(LinkEvent::CameUp { speed: phy.speed, duplex: phy.duplex }),
    {
    }

    /// The configured advertisement narrows what the partner may
    /// resolve, but it never enters the resolution itself: two machines
    /// that differ only in their advertisement take the same state
    /// transition and report the same event on every PHY status.
    pub proof fn lemma_resolution_ignores_advertisement(
        self,
        other: LinkMachine,
        phy: PhyStatus,
    )
        requires
            self.state == other.state,
            self.timeout == other.timeout,
        ensures
            self.spec_poll(phy).0.state == other.spec_poll(phy).0.state,
            self.spec_poll(phy).1 == other.spec_poll(phy).1,
    {
    }

    /// The machine only reports up while the PHY reported carrier and
    /// completed negotiation at this or an earlier poll; it never
    /// fabricates a link.
    pub proof fn lemma_no_fabricated_link(self, phy: PhyStatus)
        requires
            self.wf(),
            !(self.state matches LinkState::Up { .. }),
            phy.link_up ==> !phy.autoneg_done,
        ensures
            !(self.spec_poll(phy).0.state matches LinkState::Up { .. }),
    {
    }
}

/// How a link transition surfaces in the error taxonomy: a stalled
/// negotiation is reported as `LinkTimeout` — and the link as down, not
/// as a fatal fault; every other transition carries no error.
pub fn link_event_error(ev: Option<LinkEvent>) -> (r: Option<DriverError>)
    ensures
        r == (if ev == Some(LinkEvent::TimedOut) {
            Some(DriverError::LinkTimeout)
        } else {
            None::<DriverError>
        }),
{
    match ev {
        Some(LinkEvent::TimedOut) => Some(DriverError::LinkTimeout),
        _ => None,
    }
}

} // verus!
