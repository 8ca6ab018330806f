//! What holds of the detector's model in every state and across steps.
//!
//! Each statement is about the spec functions of [`crate::detector`], which
//! the executable methods are proved to follow.

use vstd::prelude::*;
use crate::clock::Timestamp;
use crate::config::DetectionConfig;
use crate::detector::{
    accept_fires, accept_window, age, appended, bounded, compacted, cooldown_span, cooling,
    empty_state, eviction_allowed, fast_fires, fast_window, fires, hit_lists_capped,
    hits_are_tracked, lemma_fresh_len, list_of, needs_room, observed, raised, slow_fires,
    slow_window, stepped, unique_ports, window_ports, DetectorState, ScanType,
};
use crate::ip::IpKey;
use crate::parser::LogEvent;
use crate::ports::{lemma_ascending, strictly_increasing};
use crate::store::PortHit;

verus! {

/// Processing an event keeps the invariants: no hit list is longer than the
/// per-source cap, the number of tracked sources stays within its cap, every
/// source with a hit list is tracked, and, with a per-source cap of at least
/// one, every tracked source has a hit list that is not empty.
pub proof fn lemma_step_keeps_bounds(
    s: DetectorState,
    cfg: DetectionConfig,
    event: LogEvent,
    now: u128,
    victim: Option<IpKey>,
)
    requires
        bounded(s, cfg),
        eviction_allowed(s, cfg, event.source_ip.key_spec(), victim),
    ensures
        bounded(stepped(s, cfg, event, now, victim), cfg),
{
}

/// Compaction keeps the invariants.
pub proof fn lemma_compaction_keeps_bounds(
    s: DetectorState,
    cfg: DetectionConfig,
    max_age: int,
    now: u128,
)
    requires
        bounded(s, cfg),
    ensures
        bounded(compacted(s, cfg, max_age, now), cfg),
{
    let after = compacted(s, cfg, max_age, now);
    assert forall|k: IpKey| #[trigger] after.drop_hits.contains_key(k) implies after.drop_hits[k].len()
        <= cfg.max_hits_per_ip by {
        lemma_fresh_len(s.drop_hits[k], max_age, now);
    }
    assert forall|k: IpKey| #[trigger]
        after.accept_hits.contains_key(k) implies after.accept_hits[k].len()
        <= cfg.max_hits_per_ip by {
        lemma_fresh_len(s.accept_hits[k], max_age, now);
    }
    vstd::set_lib::lemma_len_subset(after.last_seen.dom(), s.last_seen.dom());
}

/// With a cap of at least one, the number of tracked sources never exceeds
/// the cap.
pub proof fn lemma_tracked_within_cap(s: DetectorState, cfg: DetectionConfig)
    requires
        bounded(s, cfg),
        cfg.max_tracked_ips >= 1,
    ensures
        s.last_seen.len() <= cfg.max_tracked_ips,
{
}

/// Memory stays bounded: each of the two hit maps holds at most as many
/// lists as sources may be tracked, and each list at most as many hits as
/// the per-source cap allows.
pub proof fn lemma_hit_maps_within_caps(s: DetectorState, cfg: DetectionConfig)
    requires
        bounded(s, cfg),
        cfg.max_tracked_ips >= 1,
    ensures
        s.drop_hits.dom().finite(),
        s.accept_hits.dom().finite(),
        s.drop_hits.len() <= cfg.max_tracked_ips,
        s.accept_hits.len() <= cfg.max_tracked_ips,
        forall|k: IpKey| #[trigger]
            s.drop_hits.contains_key(k) ==> s.drop_hits[k].len() <= cfg.max_hits_per_ip,
        forall|k: IpKey| #[trigger]
            s.accept_hits.contains_key(k) ==> s.accept_hits[k].len() <= cfg.max_hits_per_ip,
{
    assert(s.drop_hits.dom().subset_of(s.last_seen.dom()));
    assert(s.accept_hits.dom().subset_of(s.last_seen.dom()));
    vstd::set_lib::lemma_len_subset(s.drop_hits.dom(), s.last_seen.dom());
    vstd::set_lib::lemma_len_subset(s.accept_hits.dom(), s.last_seen.dom());
}

/// After compaction the tracked sources are exactly those with a hit list,
/// and no list is empty.
pub proof fn lemma_compaction_tracks_exactly(
    s: DetectorState,
    cfg: DetectionConfig,
    max_age: int,
    now: u128,
)
    requires
        bounded(s, cfg),
    ensures
        forall|k: IpKey|
            compacted(s, cfg, max_age, now).last_seen.contains_key(k) <==> (compacted(
                s,
                cfg,
                max_age,
                now,
            ).drop_hits.contains_key(k) || compacted(s, cfg, max_age, now).accept_hits.contains_key(
                k,
            )),
        forall|k: IpKey| #[trigger]
            compacted(s, cfg, max_age, now).drop_hits.contains_key(k) ==> compacted(
                s,
                cfg,
                max_age,
                now,
            ).drop_hits[k].len() > 0,
        forall|k: IpKey| #[trigger]
            compacted(s, cfg, max_age, now).accept_hits.contains_key(k) ==> compacted(
                s,
                cfg,
                max_age,
                now,
            ).accept_hits[k].len() > 0,
{
}

/// The ports that a rule sees are sorted and strictly increasing, and each
/// of them was hit within the window: some entry of the source's list has
/// that port and is at most `window` old.
pub proof fn lemma_unique_ports_sound(
    hits: Map<IpKey, Seq<PortHit>>,
    ip: IpKey,
    window: int,
    now: u128,
)
    ensures
        strictly_increasing(unique_ports(hits, ip, window, now)),
        forall|p: u16|
            unique_ports(hits, ip, window, now).contains(p) <==> (hits.contains_key(ip)
                && exists|i: int|
                0 <= i < hits[ip].len() && (#[trigger] hits[ip][i]).port == p && age(
                    now,
                    hits[ip][i].seen_at,
                ) <= window),
{
    if hits.contains_key(ip) {
        lemma_ascending(window_ports(hits[ip], window, now));
    }
}

/// The hit list that a rule reads.
pub open spec fn hits_of(s: DetectorState, rule: ScanType) -> Map<IpKey, Seq<PortHit>> {
    match rule {
        ScanType::Fast => s.drop_hits,
        ScanType::Slow => s.drop_hits,
        ScanType::AcceptScan => s.accept_hits,
    }
}

/// The window of a rule, in nanoseconds.
pub open spec fn window_of(cfg: DetectionConfig, rule: ScanType) -> int {
    match rule {
        ScanType::Fast => fast_window(cfg),
        ScanType::Slow => slow_window(cfg),
        ScanType::AcceptScan => accept_window(cfg),
    }
}

/// The threshold of a rule.
pub open spec fn threshold_of(cfg: DetectionConfig, rule: ScanType) -> usize {
    match rule {
        ScanType::Fast => cfg.fast_scan.port_threshold,
        ScanType::Slow => cfg.slow_scan.port_threshold,
        ScanType::AcceptScan => cfg.accept_scan.port_threshold,
    }
}

/// Every alert is for the source of the event, lists more ports than the
/// threshold of its rule, lists them sorted and strictly increasing, and
/// lists only ports that were hit within the window: for each there is an
/// entry in the source's list, in the map that the rule reads, with that
/// port and at most the rule's window old.
pub proof fn lemma_alert_ports(
    s: DetectorState,
    cfg: DetectionConfig,
    event: LogEvent,
    now: u128,
    wall: Timestamp,
    i: int,
)
    requires
        0 <= i < raised(s, cfg, event, now, wall).len(),
    ensures
        ({
            let alert = raised(s, cfg, event, now, wall)[i];
            let ip = event.source_ip.key_spec();
            let hits = hits_of(s, alert.scan_type);
            let window = window_of(cfg, alert.scan_type);
            &&& alert.source_ip == event.source_ip
            &&& alert.unique_ports == unique_ports(hits, ip, window, now)
            &&& alert.unique_ports.len() > threshold_of(cfg, alert.scan_type)
            &&& strictly_increasing(alert.unique_ports)
            &&& hits.contains_key(ip)
            &&& forall|p: u16|
                alert.unique_ports.contains(p) ==> exists|k: int|
                    0 <= k < hits[ip].len() && (#[trigger] hits[ip][k]).port == p && age(
                        now,
                        hits[ip][k].seen_at,
                    ) <= window
        }),
{
    let ip = event.source_ip.key_spec();
    lemma_unique_ports_sound(s.drop_hits, ip, fast_window(cfg), now);
    lemma_unique_ports_sound(s.drop_hits, ip, slow_window(cfg), now);
    lemma_unique_ports_sound(s.accept_hits, ip, accept_window(cfg), now);
}

/// The threshold is strict: a rule that sees no more ports than its
/// threshold does not fire.
pub proof fn lemma_at_threshold_silent(
    ports: Seq<u16>,
    threshold: usize,
    cooldowns: Map<IpKey, u128>,
    ip: IpKey,
    span: int,
    now: u128,
)
    requires
        ports.len() <= threshold,
    ensures
        !fires(ports, threshold, cooldowns, ip, span, now),
{
}

/// One port above the threshold fires the rule, unless its cooldown is
/// active.
pub proof fn lemma_above_threshold_fires(
    ports: Seq<u16>,
    threshold: usize,
    cooldowns: Map<IpKey, u128>,
    ip: IpKey,
    span: int,
    now: u128,
)
    requires
        ports.len() == threshold + 1,
    ensures
        fires(ports, threshold, cooldowns, ip, span, now) <==> !cooling(cooldowns, ip, span, now),
{
}

/// A hit exactly `window` old is still inside the window.
pub proof fn lemma_window_edge_included(hits: Seq<PortHit>, i: int, window: int, now: u128)
    requires
        0 <= i < hits.len(),
        age(now, hits[i].seen_at) == window,
    ensures
        window_ports(hits, window, now).contains(hits[i].port),
{
}

/// One hit more than the cap: the list keeps the size of the cap, the oldest
/// entry goes and the new hit is the last one.
pub proof fn lemma_full_list_drops_oldest(
    hits: Map<IpKey, Seq<PortHit>>,
    ip: IpKey,
    hit: PortHit,
    cap: usize,
)
    requires
        list_of(hits, ip).len() == cap,
    ensures
        appended(hits, ip, hit, cap)[ip].len() == cap,
        appended(hits, ip, hit, cap)[ip] == list_of(hits, ip).push(hit).subrange(1, cap + 1),
{
}

/// A new source that arrives when the cap is reached evicts a least recently
/// seen source: after the step that source is in none of the six maps, and
/// the new source is tracked.
pub proof fn lemma_overflow_evicts_least_recent(
    s: DetectorState,
    cfg: DetectionConfig,
    event: LogEvent,
    now: u128,
    victim: Option<IpKey>,
)
    requires
        needs_room(s, cfg, event.source_ip.key_spec()),
        eviction_allowed(s, cfg, event.source_ip.key_spec(), victim),
    ensures
        victim is Some,
        s.last_seen.contains_key(victim->0),
        forall|k: IpKey| s.last_seen.contains_key(k) ==> s.last_seen[victim->0] <= s.last_seen[k],
        ({
            let after = stepped(s, cfg, event, now, victim);
            &&& !after.drop_hits.contains_key(victim->0)
            &&& !after.accept_hits.contains_key(victim->0)
            &&& !after.last_seen.contains_key(victim->0)
            &&& !after.fast_cooldowns.contains_key(victim->0)
            &&& !after.slow_cooldowns.contains_key(victim->0)
            &&& !after.accept_cooldowns.contains_key(victim->0)
            &&& after.last_seen.contains_key(event.source_ip.key_spec())
        }),
{
}

/// The cooldown map of a rule.
pub open spec fn cooldowns_of(s: DetectorState, rule: ScanType) -> Map<IpKey, u128> {
    match rule {
        ScanType::Fast => s.fast_cooldowns,
        ScanType::Slow => s.slow_cooldowns,
        ScanType::AcceptScan => s.accept_cooldowns,
    }
}

/// A step raises an alert of the given rule.
pub open spec fn raises(
    s: DetectorState,
    cfg: DetectionConfig,
    event: LogEvent,
    now: u128,
    victim: Option<IpKey>,
    rule: ScanType,
) -> bool {
    let seen = observed(s, cfg, event, now, victim);
    let ip = event.source_ip.key_spec();
    match rule {
        ScanType::Fast => fast_fires(seen, cfg, ip, now),
        ScanType::Slow => slow_fires(seen, cfg, ip, now),
        ScanType::AcceptScan => accept_fires(seen, cfg, ip, now),
    }
}

/// A step raises an alert of a rule only when the rule's cooldown for the
/// source is not active, and then it installs the cooldown at `now`: while
/// that entry stays, a later step at a time less than the cooldown after
/// `now` raises no alert of that rule for that source.
pub proof fn lemma_alert_installs_cooldown(
    s: DetectorState,
    cfg: DetectionConfig,
    event: LogEvent,
    now: u128,
    victim: Option<IpKey>,
    rule: ScanType,
)
    requires
        eviction_allowed(s, cfg, event.source_ip.key_spec(), victim),
        raises(s, cfg, event, now, victim, rule),
    ensures
        !cooling(cooldowns_of(s, rule), event.source_ip.key_spec(), cooldown_span(cfg), now),
        cooldowns_of(stepped(s, cfg, event, now, victim), rule).contains_key(
            event.source_ip.key_spec(),
        ),
        cooldowns_of(stepped(s, cfg, event, now, victim), rule)[event.source_ip.key_spec()] == now,
{
}

/// A step leaves the cooldown entries of every other source alone, but for
/// the source that admission control evicts.
pub proof fn lemma_step_keeps_other_cooldowns(
    s: DetectorState,
    cfg: DetectionConfig,
    event: LogEvent,
    now: u128,
    victim: Option<IpKey>,
    rule: ScanType,
    other: IpKey,
)
    requires
        other != event.source_ip.key_spec(),
        victim != Some(other),
        cooldowns_of(s, rule).contains_key(other),
    ensures
        cooldowns_of(stepped(s, cfg, event, now, victim), rule).contains_key(other),
        cooldowns_of(stepped(s, cfg, event, now, victim), rule)[other] == cooldowns_of(
            s,
            rule,
        )[other],
{
}

/// Two alerts of one rule for one source, raised by two steps one after the
/// other on a clock that does not run backwards, are at least the cooldown
/// apart.
pub proof fn lemma_consecutive_alerts_apart(
    s: DetectorState,
    cfg: DetectionConfig,
    first: LogEvent,
    first_at: u128,
    first_victim: Option<IpKey>,
    second: LogEvent,
    second_at: u128,
    second_victim: Option<IpKey>,
    rule: ScanType,
)
    requires
        first.source_ip == second.source_ip,
        first_at <= second_at,
        eviction_allowed(s, cfg, first.source_ip.key_spec(), first_victim),
        eviction_allowed(
            stepped(s, cfg, first, first_at, first_victim),
            cfg,
            second.source_ip.key_spec(),
            second_victim,
        ),
        raises(s, cfg, first, first_at, first_victim, rule),
        raises(
            stepped(s, cfg, first, first_at, first_victim),
            cfg,
            second,
            second_at,
            second_victim,
            rule,
        ),
    ensures
        second_at - first_at >= cooldown_span(cfg),
{
}

/// One processed event: the event, the monotonic time at which it is
/// processed, and the choice that admission control makes.
pub struct Step {
    pub event: LogEvent,
    pub now: u128,
    pub victim: Option<IpKey>,
}

/// The state after a run of steps.
pub open spec fn run(s: DetectorState, cfg: DetectionConfig, steps: Seq<Step>) -> DetectorState
    decreases steps.len(),
{
    if steps.len() == 0 {
        s
    } else {
        let last = steps.last();
        stepped(run(s, cfg, steps.drop_last()), cfg, last.event, last.now, last.victim)
    }
}

/// A cooldown entry outlasts a run of steps that does not evict its source,
/// and on a clock that has not gone back behind the entry it never gets
/// older.
pub proof fn lemma_cooldown_outlasts_run(
    s: DetectorState,
    cfg: DetectionConfig,
    rule: ScanType,
    ip: IpKey,
    steps: Seq<Step>,
)
    requires
        cooldowns_of(s, rule).contains_key(ip),
        forall|i: int| 0 <= i < steps.len() ==> (#[trigger] steps[i]).victim != Some(ip),
        forall|i: int| 0 <= i < steps.len() ==> (#[trigger] steps[i]).now >= cooldowns_of(s, rule)[ip],
    ensures
        cooldowns_of(run(s, cfg, steps), rule).contains_key(ip),
        cooldowns_of(run(s, cfg, steps), rule)[ip] >= cooldowns_of(s, rule)[ip],
    decreases steps.len(),
{
    if steps.len() > 0 {
        let front = steps.drop_last();
        lemma_cooldown_outlasts_run(s, cfg, rule, ip, front);
    }
}

/// Two alerts of one rule for one source are at least the cooldown apart:
/// if a rule's cooldown for a source was installed at `raised_at`, then after
/// any run of steps that does not evict the source, on a clock that does not
/// go back behind `raised_at`, a step that raises the rule for the source
/// again comes no sooner than the cooldown after `raised_at`.
pub proof fn lemma_alerts_apart(
    s: DetectorState,
    cfg: DetectionConfig,
    rule: ScanType,
    raised_at: u128,
    steps: Seq<Step>,
    next: Step,
)
    requires
        cooldowns_of(s, rule).contains_key(next.event.source_ip.key_spec()),
        cooldowns_of(s, rule)[next.event.source_ip.key_spec()] == raised_at,
        forall|i: int|
            0 <= i < steps.len() ==> (#[trigger] steps[i]).victim != Some(
                next.event.source_ip.key_spec(),
            ),
        forall|i: int| 0 <= i < steps.len() ==> (#[trigger] steps[i]).now >= raised_at,
        next.victim != Some(next.event.source_ip.key_spec()),
        next.now >= raised_at,
        raises(run(s, cfg, steps), cfg, next.event, next.now, next.victim, rule),
    ensures
        next.now - raised_at >= cooldown_span(cfg),
{
    lemma_cooldown_outlasts_run(s, cfg, rule, next.event.source_ip.key_spec(), steps);
}

/// Admission control makes an allowed choice in every step of the run.
pub open spec fn allowed_run(s: DetectorState, cfg: DetectionConfig, steps: Seq<Step>) -> bool
    decreases steps.len(),
{
    if steps.len() == 0 {
        true
    } else {
        let last = steps.last();
        &&& allowed_run(s, cfg, steps.drop_last())
        &&& eviction_allowed(
            run(s, cfg, steps.drop_last()),
            cfg,
            last.event.source_ip.key_spec(),
            last.victim,
        )
    }
}

/// The invariants hold after any run of steps from a state in which they
/// hold.
pub proof fn lemma_run_keeps_bounds(s: DetectorState, cfg: DetectionConfig, steps: Seq<Step>)
    requires
        bounded(s, cfg),
        allowed_run(s, cfg, steps),
    ensures
        bounded(run(s, cfg, steps), cfg),
    decreases steps.len(),
{
    if steps.len() > 0 {
        lemma_run_keeps_bounds(s, cfg, steps.drop_last());
        let last = steps.last();
        lemma_step_keeps_bounds(
            run(s, cfg, steps.drop_last()),
            cfg,
            last.event,
            last.now,
            last.victim,
        );
    }
}

/// The invariants hold after any run of steps from the empty state: no hit
/// list is longer than the per-source cap, every source with a hit list is
/// tracked, and with a cap of at least one no more sources are tracked than
/// the cap allows.
pub proof fn lemma_bounds_hold_from_the_start(cfg: DetectionConfig, steps: Seq<Step>)
    requires
        allowed_run(empty_state(), cfg, steps),
    ensures
        hit_lists_capped(run(empty_state(), cfg, steps), cfg),
        hits_are_tracked(run(empty_state(), cfg, steps)),
        cfg.max_tracked_ips >= 1 ==> run(empty_state(), cfg, steps).last_seen.len()
            <= cfg.max_tracked_ips,
{
    lemma_run_keeps_bounds(empty_state(), cfg, steps);
}

} // verus!
