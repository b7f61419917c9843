use e1000_core::link::{LinkMachine, LinkState, LinkEvent, LinkSpeed, Duplex, PhyStatus};

fn phy_down() -> PhyStatus {
    PhyStatus { link_up: false, autoneg_done: false, speed: LinkSpeed::Mb10, duplex: Duplex::Half }
}

fn phy_up(speed: LinkSpeed, duplex: Duplex) -> PhyStatus {
    PhyStatus { link_up: true, autoneg_done: true, speed, duplex }
}

#[test]
fn negotiation_reports_the_resolved_speed_not_the_advertised_one() {
    // gigabit-capable configuration, but the partner constrains the
    // negotiation to 100 full: the up state must carry what the PHY
    // resolved
    let mut m = LinkMachine::new(10, LinkSpeed::Mb1000);
    m.begin_negotiation();
    let ev = m.poll(phy_up(LinkSpeed::Mb100, Duplex::Full));
    assert_eq!(ev, Some(LinkEvent::CameUp { speed: LinkSpeed::Mb100, duplex: Duplex::Full }));
    assert_eq!(m.state, LinkState::Up { speed: LinkSpeed::Mb100, duplex: Duplex::Full });
}

#[test]
fn negotiation_waits_while_autoneg_is_incomplete() {
    let mut m = LinkMachine::new(10, LinkSpeed::Mb1000);
    m.begin_negotiation();
    let carrier_no_resolution = PhyStatus {
        link_up: true,
        autoneg_done: false,
        speed: LinkSpeed::Mb1000,
        duplex: Duplex::Full,
    };
    assert_eq!(m.poll(carrier_no_resolution), None);
    assert_eq!(m.state, LinkState::Negotiating { ticks: 1 });
}

#[test]
fn stalled_negotiation_times_out_back_to_down() {
    let mut m = LinkMachine::new(3, LinkSpeed::Mb1000);
    m.begin_negotiation();
    assert_eq!(m.poll(phy_down()), None);
    assert_eq!(m.poll(phy_down()), None);
    assert_eq!(m.poll(phy_down()), Some(LinkEvent::TimedOut));
    assert_eq!(m.state, LinkState::Down);
}

#[test]
fn carrier_loss_reports_went_down() {
    let mut m = LinkMachine::new(5, LinkSpeed::Mb1000);
    m.begin_negotiation();
    m.poll(phy_up(LinkSpeed::Mb1000, Duplex::Full));
    assert_eq!(m.state, LinkState::Up { speed: LinkSpeed::Mb1000, duplex: Duplex::Full });
    assert_eq!(m.poll(phy_up(LinkSpeed::Mb1000, Duplex::Full)), None);
    assert_eq!(m.poll(phy_down()), Some(LinkEvent::WentDown));
    assert_eq!(m.state, LinkState::Down);
}

#[test]
fn down_state_only_moves_through_begin_negotiation() {
    let mut m = LinkMachine::new(5, LinkSpeed::Mb1000);
    assert_eq!(m.poll(phy_up(LinkSpeed::Mb1000, Duplex::Full)), None);
    assert_eq!(m.state, LinkState::Down);
}
