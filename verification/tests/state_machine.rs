use lanmon::clock::WallClock;
use lanmon::node::Node;
use lanmon::registry::{Event, Registry};

fn sample_wall() -> WallClock {
    WallClock { year: 2018, month: 11, day: 25, hour: 14, minute: 5 }
}

fn single_node_registry(threshold_seen_at: u64) -> (Registry, String) {
    let addr = String::from("192.168.1.10");
    let resolved = vec![(addr.clone(), String::from("node1"))];
    let reg = Registry::initialize(resolved, threshold_seen_at, sample_wall()).unwrap();
    (reg, addr)
}

#[test]
fn scenario_a_first_alert_after_threshold() {
    // threshold = 1 minute, node last seen at T0 = 0
    let (mut reg, addr) = single_node_registry(0);
    let ev = Event::Unreached { addr: addr.clone() };

    // T0 + 30 s: within the grace period, no notification
    let r = reg.dispatch(&ev, 30_000, sample_wall(), 60_000, "ops@example.org", true);
    assert!(r.is_none());
    assert!(!reg.get(&addr).unwrap().alerted);

    // T0 + 61 s: threshold crossed, exactly one down-notification
    let r = reg.dispatch(&ev, 61_000, sample_wall(), 60_000, "ops@example.org", true);
    let n = r.unwrap();
    assert_eq!(n.recipient, "ops@example.org");
    assert_eq!(n.subject, "LANMON - node node1 - not seen since 25-Nov-2018 14:05");
    assert_eq!(n.body, "Message from LANMON\n\n Node node1 not seen since 25-Nov-2018 14:05");
    assert!(reg.get(&addr).unwrap().alerted);
}

#[test]
fn scenario_b_no_duplicate_alert() {
    let (mut reg, addr) = single_node_registry(0);
    let ev = Event::Unreached { addr: addr.clone() };
    assert!(reg.dispatch(&ev, 61_000, sample_wall(), 60_000, "ops@example.org", true).is_some());

    // T0 + 90 s: still down, already alerted, no further notification
    let r = reg.dispatch(&ev, 90_000, sample_wall(), 60_000, "ops@example.org", true);
    assert!(r.is_none());
    assert!(reg.get(&addr).unwrap().alerted);
}

#[test]
fn scenario_c_restore_notification() {
    let (mut reg, addr) = single_node_registry(0);
    let down = Event::Unreached { addr: addr.clone() };
    assert!(reg.dispatch(&down, 61_000, sample_wall(), 60_000, "ops@example.org", true).is_some());
    assert!(reg.dispatch(&down, 90_000, sample_wall(), 60_000, "ops@example.org", true).is_none());

    // T0 + 120 s: node answers again, restore flag set
    let up = Event::Reached { addr: addr.clone(), rtt_micros: 740 };
    let later = WallClock { year: 2018, month: 11, day: 25, hour: 14, minute: 7 };
    let r = reg.dispatch(&up, 120_000, later, 60_000, "ops@example.org", true);
    let n = r.unwrap();
    assert_eq!(n.recipient, "ops@example.org");
    assert_eq!(n.subject, "LANMON - node node1 - reactivated");
    assert_eq!(n.body, "Message from LANMON\n\n Node node1 - reactivated");
    let node = reg.get(&addr).unwrap();
    assert!(!node.alerted);
    assert_eq!(node.last_seen_mono, 120_000);
}

#[test]
fn scenario_d_no_restore_notification_when_not_configured() {
    let (mut reg, addr) = single_node_registry(0);
    let down = Event::Unreached { addr: addr.clone() };
    assert!(reg.dispatch(&down, 61_000, sample_wall(), 60_000, "ops@example.org", false).is_some());

    // restore flag unset: the alert is still reset, silently
    let up = Event::Reached { addr: addr.clone(), rtt_micros: 740 };
    let r = reg.dispatch(&up, 120_000, sample_wall(), 60_000, "ops@example.org", false);
    assert!(r.is_none());
    let node = reg.get(&addr).unwrap();
    assert!(!node.alerted);
    assert_eq!(node.last_seen_mono, 120_000);
}

#[test]
fn scenario_e_only_the_down_node_alerts() {
    let addr_a = String::from("10.0.0.1");
    let addr_b = String::from("10.0.0.2");
    let resolved = vec![
        (addr_a.clone(), String::from("alpha")),
        (addr_b.clone(), String::from("beta")),
    ];
    let mut reg = Registry::initialize(resolved, 0, sample_wall()).unwrap();
    let mut notifications = Vec::new();

    for (t, ev) in [
        (20_000u64, Event::Unreached { addr: addr_a.clone() }),
        (20_500, Event::Reached { addr: addr_b.clone(), rtt_micros: 512 }),
        (80_000, Event::Unreached { addr: addr_a.clone() }),
        (80_500, Event::Reached { addr: addr_b.clone(), rtt_micros: 498 }),
        (140_000, Event::Unreached { addr: addr_a.clone() }),
        (140_500, Event::Reached { addr: addr_b.clone(), rtt_micros: 505 }),
    ] {
        if let Some(n) = reg.dispatch(&ev, t, sample_wall(), 60_000, "ops@example.org", true) {
            notifications.push(n);
        }
    }

    assert_eq!(notifications.len(), 1);
    assert_eq!(
        notifications[0].subject,
        "LANMON - node alpha - not seen since 25-Nov-2018 14:05"
    );
    assert!(reg.get(&addr_a).unwrap().alerted);
    assert!(!reg.get(&addr_b).unwrap().alerted);
}

#[test]
fn unknown_address_changes_nothing() {
    let (mut reg, addr) = single_node_registry(0);
    let stranger = String::from("172.16.0.9");
    let r = reg.dispatch(
        &Event::Unreached { addr: stranger.clone() },
        500_000,
        sample_wall(),
        60_000,
        "ops@example.org",
        true,
    );
    assert!(r.is_none());
    assert!(reg.get(&stranger).is_none());
    let node = reg.get(&addr).unwrap();
    assert!(!node.alerted);
    assert_eq!(node.last_seen_mono, 0);

    let r = reg.dispatch(
        &Event::Reached { addr: stranger, rtt_micros: 3 },
        500_001,
        sample_wall(),
        60_000,
        "ops@example.org",
        true,
    );
    assert!(r.is_none());
    assert!(!reg.get(&addr).unwrap().alerted);
}

#[test]
fn exactly_at_threshold_stays_silent() {
    let (mut reg, addr) = single_node_registry(0);
    let ev = Event::Unreached { addr: addr.clone() };
    // strict comparison: elapsed == threshold does not alert yet
    let r = reg.dispatch(&ev, 60_000, sample_wall(), 60_000, "ops@example.org", true);
    assert!(r.is_none());
    assert!(!reg.get(&addr).unwrap().alerted);
}

#[test]
fn reached_refreshes_grace_period() {
    let (mut reg, addr) = single_node_registry(0);
    let up = Event::Reached { addr: addr.clone(), rtt_micros: 100 };
    let down = Event::Unreached { addr: addr.clone() };
    assert!(reg.dispatch(&up, 100_000, sample_wall(), 60_000, "ops@example.org", true).is_none());
    // only 50 s since the last successful probe, although 150 s since start
    assert!(reg.dispatch(&down, 150_000, sample_wall(), 60_000, "ops@example.org", true).is_none());
    // 61 s since the last successful probe
    assert!(reg.dispatch(&down, 161_000, sample_wall(), 60_000, "ops@example.org", true).is_some());
}

#[test]
fn second_outage_alerts_again() {
    let (mut reg, addr) = single_node_registry(0);
    let up = Event::Reached { addr: addr.clone(), rtt_micros: 100 };
    let down = Event::Unreached { addr: addr.clone() };
    assert!(reg.dispatch(&down, 61_000, sample_wall(), 60_000, "ops@example.org", true).is_some());
    assert!(reg.dispatch(&up, 120_000, sample_wall(), 60_000, "ops@example.org", true).is_some());
    assert!(reg.dispatch(&down, 150_000, sample_wall(), 60_000, "ops@example.org", true).is_none());
    let r = reg.dispatch(&down, 181_000, sample_wall(), 60_000, "ops@example.org", true);
    assert!(r.is_some());
}

#[test]
fn node_idle_and_seen_direct() {
    let mut node = Node::new(String::from("fileserver"), 1_000, sample_wall());
    assert!(node.idle(60_000, "admin@example.org", 31_000).is_none());
    let n = node.idle(60_000, "admin@example.org", 62_000).unwrap();
    assert_eq!(n.subject, "LANMON - node fileserver - not seen since 25-Nov-2018 14:05");
    assert!(node.alerted);
    assert!(node.idle(60_000, "admin@example.org", 90_000).is_none());
    let wall = WallClock { year: 2019, month: 1, day: 2, hour: 3, minute: 4 };
    let n = node.seen("admin@example.org", true, 95_000, wall).unwrap();
    assert_eq!(n.subject, "LANMON - node fileserver - reactivated");
    assert_eq!(n.recipient, "admin@example.org");
    assert!(!node.alerted);
    assert_eq!(node.last_seen_mono, 95_000);
    assert_eq!(node.last_seen_wall.year, 2019);
    // repeated success while healthy stays silent
    assert!(node.seen("admin@example.org", true, 96_000, wall).is_none());
}

#[test]
fn never_alerted_node_never_sends_restore() {
    let mut node = Node::new(String::from("printer"), 0, sample_wall());
    assert!(node.seen("admin@example.org", true, 10_000, sample_wall()).is_none());
    assert!(node.seen("admin@example.org", false, 20_000, sample_wall()).is_none());
}
