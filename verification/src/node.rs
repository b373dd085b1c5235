//! Per-node availability state and its transition logic.
//!
//! Each monitored node carries the monotonic and wall-clock moments of its
//! last successful probe and an `alerted` flag.  The two transitions —
//! `idle` for a failed probe cycle and `seen` for a successful one — decide
//! whether a notification fires and update the state; their effect is pinned
//! down by the spec-level step functions `unreached_step` and `reached_step`.

use vstd::prelude::*;
use vstd::string::StringExecFns;
use crate::clock::{WallClock, timestamp_text};

verus! {

/// A notification ready for delivery: three opaque strings handed to
/// whatever transport the surrounding program provides.
#[derive(Debug)]
pub struct Notification {
    pub recipient: String,
    pub subject: String,
    pub body: String,
}

/// The monitoring state of one node.
#[derive(Debug)]
pub struct Node {
    /// The configured identifier, used in notification text.
    pub name: String,
    /// Monotonic-clock milliseconds of the last successful probe; drives the
    /// threshold comparison and is never touched by wall-clock adjustments.
    pub last_seen_mono: u64,
    /// Wall-clock moment of the last successful probe; used only for the
    /// human-readable notification text.
    pub last_seen_wall: WallClock,
    /// True iff a down-notification has been sent for the current outage and
    /// no recovery has reset it yet.
    pub alerted: bool,
}

/// The mathematical image of a `Node`.
pub struct NodeView {
    pub name: Seq<char>,
    pub last_seen_mono: int,
    pub last_seen_wall: WallClock,
    pub alerted: bool,
}

impl View for Node {
    type V = NodeView;

    open spec fn view(&self) -> NodeView {
        NodeView {
            name: self.name@,
            last_seen_mono: self.last_seen_mono as int,
            last_seen_wall: self.last_seen_wall,
            alerted: self.alerted,
        }
    }
}

impl NodeView {
    pub open spec fn wf(self) -> bool {
        &&& self.last_seen_wall.wf()
        &&& 0 <= self.last_seen_mono <= u64::MAX
    }
}

/// A failed probe at monotonic time `now` fires a down-notification iff the
/// node has been unseen for strictly longer than the threshold and no
/// down-notification is outstanding.
pub open spec fn unreached_fires(n: NodeView, now: int, threshold: int) -> bool {
    now - n.last_seen_mono > threshold && !n.alerted
}

/// State after a failed probe: only the `alerted` flag may change; the
/// last-seen moments are left alone, so elapsed downtime keeps growing.
pub open spec fn unreached_step(n: NodeView, now: int, threshold: int) -> NodeView {
    if unreached_fires(n, now, threshold) {
        NodeView { alerted: true, ..n }
    } else {
        n
    }
}

/// A successful probe fires a restore-notification iff a down-notification
/// was outstanding and restore notifications are configured.
pub open spec fn reached_fires(n: NodeView, notify_on_restore: bool) -> bool {
    n.alerted && notify_on_restore
}

/// State after a successful probe: both last-seen moments are refreshed and
/// any outstanding alert is cleared.
pub open spec fn reached_step(n: NodeView, now: int, wall: WallClock) -> NodeView {
    NodeView { last_seen_mono: now, last_seen_wall: wall, alerted: false, ..n }
}

/// Subject line of a down-notification.
pub open spec fn down_subject(name: Seq<char>, ts: Seq<char>) -> Seq<char> {
    "LANMON - node "@ + name + " - not seen since "@ + ts
}

/// Body of a down-notification.
pub open spec fn down_body(name: Seq<char>, ts: Seq<char>) -> Seq<char> {
    "Message from LANMON\n\n Node "@ + name + " not seen since "@ + ts
}

/// Subject line of a restore-notification.
pub open spec fn restore_subject(name: Seq<char>) -> Seq<char> {
    "LANMON - node "@ + name + " - reactivated"@
}

/// Body of a restore-notification.
pub open spec fn restore_body(name: Seq<char>) -> Seq<char> {
    "Message from LANMON\n\n Node "@ + name + " - reactivated"@
}

impl Node {
    /// A freshly registered node: seen "now", with no alert outstanding.
    pub fn new(name: String, now: u64, wall: WallClock) -> (r: Node)
        ensures
            r@ == (NodeView {
                name: name@,
                last_seen_mono: now as int,
                last_seen_wall: wall,
                alerted: false,
            }),
    {
        Node { name, last_seen_mono: now, last_seen_wall: wall, alerted: false }
    }

    /// Marks the node alerted and composes the down-notification addressed
    /// to `alertto`, quoting the last confirmed-alive wall-clock moment.
    pub fn alert(&mut self, alertto: &str) -> (r: Notification)
        requires
            old(self)@.wf(),
        ensures
            final(self)@ == (NodeView { alerted: true, ..old(self)@ }),
            r.recipient@ == alertto@,
            r.subject@ == down_subject(old(self)@.name, timestamp_text(old(self)@.last_seen_wall)),
            r.body@ == down_body(old(self)@.name, timestamp_text(old(self)@.last_seen_wall)),
    {
        let dt = self.last_seen_wall.format_timestamp();
        self.alerted = true;
        let subject = String::from_str("LANMON - node ").concat(self.name.as_str()).concat(
            " - not seen since ",
        ).concat(dt.as_str());
        let body = String::from_str("Message from LANMON\n\n Node ").concat(
            self.name.as_str(),
        ).concat(" not seen since ").concat(dt.as_str());
        Notification { recipient: String::from_str(alertto), subject, body }
    }

    /// Handles one failed probe cycle at monotonic time `now`.  Fires the
    /// down-notification exactly when the node has been unseen for strictly
    /// longer than `threshold_millis` and no alert is outstanding; never
    /// refreshes the last-seen moments.
    pub fn idle(&mut self, threshold_millis: u64, alertto: &str, now: u64) -> (r: Option<
        Notification,
    >)
        requires
            old(self)@.wf(),
            old(self).last_seen_mono <= now,
        ensures
            final(self)@ == unreached_step(old(self)@, now as int, threshold_millis as int),
            r is Some <==> unreached_fires(old(self)@, now as int, threshold_millis as int),
            r matches Some(m) ==> {
                &&& m.recipient@ == alertto@
                &&& m.subject@ == down_subject(
                    old(self)@.name,
                    timestamp_text(old(self)@.last_seen_wall),
                )
                &&& m.body@ == down_body(
                    old(self)@.name,
                    timestamp_text(old(self)@.last_seen_wall),
                )
            },
    {
        let elapsed = now - self.last_seen_mono;
        if elapsed > threshold_millis && !self.alerted {
            Some(self.alert(alertto))
        } else {
            None
        }
    }

    /// Handles one successful probe at monotonic time `now` / wall-clock
    /// moment `wall`.  Clears an outstanding alert, refreshes both last-seen
    /// moments, and emits the restore-notification iff an alert was
    /// outstanding and `emailonrestore` is set.
    pub fn seen(&mut self, alertto: &str, emailonrestore: bool, now: u64, wall: WallClock) -> (r:
        Option<Notification>)
        ensures
            final(self)@ == reached_step(old(self)@, now as int, wall),
            r is Some <==> reached_fires(old(self)@, emailonrestore),
            r matches Some(m) ==> {
                &&& m.recipient@ == alertto@
                &&& m.subject@ == restore_subject(old(self)@.name)
                &&& m.body@ == restore_body(old(self)@.name)
            },
    {
        let mut r: Option<Notification> = None;
        if self.alerted {
            self.alerted = false;
            if emailonrestore {
                let subject = String::from_str("LANMON - node ").concat(
                    self.name.as_str(),
                ).concat(" - reactivated");
                let body = String::from_str("Message from LANMON\n\n Node ").concat(
                    self.name.as_str(),
                ).concat(" - reactivated");
                r = Some(Notification { recipient: String::from_str(alertto), subject, body });
            }
        }
        self.last_seen_mono = now;
        self.last_seen_wall = wall;
        r
    }
}

} // verus!
