//! The monitor's availability guarantees, proved over whole probe
//! sequences.
//!
//! `run`, `downs` and `restores` fold the per-event step functions of
//! `crate::node` over a sequence of probe outcomes for one node — exactly
//! the transitions `Registry::dispatch` performs — and the lemmas below pin
//! down how many notifications such a sequence can emit.

use vstd::prelude::*;
use crate::clock::WallClock;
use crate::node::{NodeView, reached_fires, reached_step, unreached_fires, unreached_step};

verus! {

/// One probe outcome for a single node: the monotonic moment it was
/// processed and, for a successful probe, the wall-clock moment sampled
/// with it.
pub enum Probe {
    Reached { now: int, wall: WallClock },
    Unreached { now: int },
}

/// The monotonic moment a probe outcome was processed.
pub open spec fn probe_time(p: Probe) -> int {
    match p {
        Probe::Reached { now, .. } => now,
        Probe::Unreached { now } => now,
    }
}

/// The state-machine step one probe outcome performs.
pub open spec fn probe_step(n: NodeView, p: Probe, threshold: int) -> NodeView {
    match p {
        Probe::Reached { now, wall } => reached_step(n, now, wall),
        Probe::Unreached { now } => unreached_step(n, now, threshold),
    }
}

/// Whether processing `p` emits a down-notification.
pub open spec fn emits_down(n: NodeView, p: Probe, threshold: int) -> bool {
    match p {
        Probe::Reached { .. } => false,
        Probe::Unreached { now } => unreached_fires(n, now, threshold),
    }
}

/// Whether processing `p` emits a restore-notification.
pub open spec fn emits_restore(n: NodeView, p: Probe, restore: bool) -> bool {
    match p {
        Probe::Reached { .. } => reached_fires(n, restore),
        Probe::Unreached { .. } => false,
    }
}

/// The node state after processing `ps` in order.
pub open spec fn run(n: NodeView, ps: Seq<Probe>, threshold: int) -> NodeView
    decreases ps.len(),
{
    if ps.len() == 0 {
        n
    } else {
        run(probe_step(n, ps[0], threshold), ps.drop_first(), threshold)
    }
}

/// How many down-notifications processing `ps` emits.
pub open spec fn downs(n: NodeView, ps: Seq<Probe>, threshold: int) -> nat
    decreases ps.len(),
{
    if ps.len() == 0 {
        0nat
    } else {
        (if emits_down(n, ps[0], threshold) {
            1nat
        } else {
            0nat
        }) + downs(probe_step(n, ps[0], threshold), ps.drop_first(), threshold)
    }
}

/// How many restore-notifications processing `ps` emits.
pub open spec fn restores(n: NodeView, ps: Seq<Probe>, threshold: int, restore: bool) -> nat
    decreases ps.len(),
{
    if ps.len() == 0 {
        0nat
    } else {
        (if emits_restore(n, ps[0], restore) {
            1nat
        } else {
            0nat
        }) + restores(probe_step(n, ps[0], threshold), ps.drop_first(), threshold, restore)
    }
}

/// Every probe in the sequence failed.
pub open spec fn all_unreached(ps: Seq<Probe>) -> bool {
    forall|i: int| 0 <= i < ps.len() ==> (#[trigger] ps[i]) is Unreached
}

/// Some probe in the sequence lies strictly beyond the grace period,
/// measured from the node's last confirmed-alive moment.
pub open spec fn crosses(n: NodeView, ps: Seq<Probe>, threshold: int) -> bool {
    exists|i: int| 0 <= i < ps.len() && probe_time(#[trigger] ps[i]) - n.last_seen_mono > threshold
}

/// Below-threshold silence: while every failed probe still lies within the
/// grace period, nothing is emitted and the node state does not move.
pub proof fn lemma_below_threshold_silence(n: NodeView, ps: Seq<Probe>, threshold: int, restore: bool)
    requires
        all_unreached(ps),
        forall|i: int|
            0 <= i < ps.len() ==> probe_time(#[trigger] ps[i]) - n.last_seen_mono <= threshold,
    ensures
        downs(n, ps, threshold) == 0,
        restores(n, ps, threshold, restore) == 0,
        run(n, ps, threshold) == n,
    decreases ps.len(),
{
    if ps.len() == 0 {
    } else {
        assert(ps[0] is Unreached);
        assert(probe_step(n, ps[0], threshold) == n);
        assert(forall|i: int| 0 <= i < ps.drop_first().len() ==> #[trigger] ps.drop_first()[i]
            == ps[i + 1]);
        lemma_below_threshold_silence(n, ps.drop_first(), threshold, restore);
    }
}

/// An outstanding alert suppresses every further failed probe: nothing is
/// emitted and the node state does not move.
pub proof fn lemma_alerted_suppresses(n: NodeView, ps: Seq<Probe>, threshold: int, restore: bool)
    requires
        n.alerted,
        all_unreached(ps),
    ensures
        downs(n, ps, threshold) == 0,
        restores(n, ps, threshold, restore) == 0,
        run(n, ps, threshold) == n,
    decreases ps.len(),
{
    if ps.len() == 0 {
    } else {
        assert(ps[0] is Unreached);
        assert(probe_step(n, ps[0], threshold) == n);
        assert(forall|i: int| 0 <= i < ps.drop_first().len() ==> #[trigger] ps.drop_first()[i]
            == ps[i + 1]);
        lemma_alerted_suppresses(n, ps.drop_first(), threshold, restore);
    }
}

/// A single alert per outage: starting with no alert outstanding, a run of
/// failed probes of which at least one lies beyond the grace period emits
/// exactly one down-notification — however many failed probes follow — and
/// leaves the node alerted, its last-seen moments untouched.
pub proof fn lemma_single_alert_per_outage(
    n: NodeView,
    ps: Seq<Probe>,
    threshold: int,
    restore: bool,
)
    requires
        !n.alerted,
        all_unreached(ps),
        crosses(n, ps, threshold),
    ensures
        downs(n, ps, threshold) == 1,
        restores(n, ps, threshold, restore) == 0,
        run(n, ps, threshold) == (NodeView { alerted: true, ..n }),
    decreases ps.len(),
{
    assert(ps.len() > 0);
    assert(forall|i: int| 0 <= i < ps.drop_first().len() ==> #[trigger] ps.drop_first()[i]
        == ps[i + 1]);
    if emits_down(n, ps[0], threshold) {
        let n1 = probe_step(n, ps[0], threshold);
        assert(n1 == (NodeView { alerted: true, ..n }));
        lemma_alerted_suppresses(n1, ps.drop_first(), threshold, restore);
    } else {
        assert(probe_step(n, ps[0], threshold) == n);
        let i = choose|i: int|
            0 <= i < ps.len() && probe_time(#[trigger] ps[i]) - n.last_seen_mono > threshold;
        assert(i != 0);
        assert(probe_time(ps.drop_first()[i - 1]) - n.last_seen_mono > threshold);
        assert(crosses(n, ps.drop_first(), threshold));
        lemma_single_alert_per_outage(n, ps.drop_first(), threshold, restore);
    }
}

/// Processing a concatenation is processing the pieces in turn, and the
/// notification counts add up.
pub proof fn lemma_run_append(
    n: NodeView,
    ps1: Seq<Probe>,
    ps2: Seq<Probe>,
    threshold: int,
    restore: bool,
)
    ensures
        run(n, ps1 + ps2, threshold) == run(run(n, ps1, threshold), ps2, threshold),
        downs(n, ps1 + ps2, threshold) == downs(n, ps1, threshold) + downs(
            run(n, ps1, threshold),
            ps2,
            threshold,
        ),
        restores(n, ps1 + ps2, threshold, restore) == restores(n, ps1, threshold, restore)
            + restores(run(n, ps1, threshold), ps2, threshold, restore),
    decreases ps1.len(),
{
    if ps1.len() == 0 {
        assert(ps1 + ps2 =~= ps2);
    } else {
        assert((ps1 + ps2)[0] == ps1[0]);
        assert((ps1 + ps2).drop_first() =~= ps1.drop_first() + ps2);
        lemma_run_append(probe_step(n, ps1[0], threshold), ps1.drop_first(), ps2, threshold, restore);
    }
}

/// Recovery resets the alert state: one outage fires exactly once; the next
/// successful probe clears the flag, emitting a restore-notification iff
/// restore notifications are configured; and a second outage beyond the
/// grace period fires exactly once more.
pub proof fn lemma_recovery_resets(
    n: NodeView,
    ps1: Seq<Probe>,
    rec: Probe,
    ps2: Seq<Probe>,
    threshold: int,
    restore: bool,
)
    requires
        !n.alerted,
        all_unreached(ps1),
        crosses(n, ps1, threshold),
        rec is Reached,
        all_unreached(ps2),
        exists|j: int|
            0 <= j < ps2.len() && probe_time(#[trigger] ps2[j]) - probe_time(rec) > threshold,
    ensures
        downs(n, ps1 + seq![rec] + ps2, threshold) == 2,
        restores(n, ps1 + seq![rec] + ps2, threshold, restore) == if restore {
            1nat
        } else {
            0nat
        },
        run(n, ps1 + seq![rec] + ps2, threshold).alerted,
{
    lemma_single_alert_per_outage(n, ps1, threshold, restore);
    let n1 = run(n, ps1, threshold);
    let n2 = probe_step(n1, rec, threshold);
    assert(!n2.alerted);
    assert(n2.last_seen_mono == probe_time(rec));
    assert(crosses(n2, ps2, threshold));
    lemma_single_alert_per_outage(n2, ps2, threshold, restore);
    lemma_run_append(n, ps1, seq![rec] + ps2, threshold, restore);
    lemma_run_append(n1, seq![rec], ps2, threshold, restore);
    assert(ps1 + seq![rec] + ps2 =~= ps1 + (seq![rec] + ps2));
    let s1 = seq![rec];
    assert(s1[0] == rec);
    assert(s1.drop_first() =~= Seq::<Probe>::empty());
    assert(run(n2, Seq::<Probe>::empty(), threshold) == n2);
    assert(downs(n2, Seq::<Probe>::empty(), threshold) == 0);
    assert(restores(n2, Seq::<Probe>::empty(), threshold, restore) == 0);
    assert(run(n1, s1, threshold) == n2);
    assert(!emits_down(n1, rec, threshold));
    assert(downs(n1, s1, threshold) == 0);
    assert(emits_restore(n1, rec, restore) == restore);
    assert(restores(n1, s1, threshold, restore) == if restore {
        1nat
    } else {
        0nat
    });
}

} // verus!
