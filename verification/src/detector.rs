//! The scan-detection engine: per-source hit lists, three sliding-window
//! rules with their cooldowns, and the caps that bound memory.
//!
//! The engine's behaviour is fixed by a mathematical model, [`DetectorState`],
//! and by spec functions that say what one event or one compaction does to
//! it. The executable methods are proved to follow the model.

use vstd::prelude::*;
use dashmap::DashMap;
use std::time::{Duration, Instant};
use crate::clock::{duration_nanos, local_now, Timestamp};
use crate::config::DetectionConfig;
use crate::ip::{IpAddress, IpKey};
use crate::parser::{drop_word, LogEvent};
use crate::ports::{ascending, sort_dedup, strictly_increasing};
use crate::store::{
    hit_lists, hits_contains, hits_get, hits_insert, hits_keys, hits_new, hits_remove,
    instants, stamps_contains, stamps_entries, stamps_get, stamps_insert, stamps_len, stamps_new,
    stamps_remove, stamps_retain_recent, PortHit,
};
use crate::text::{chars_of, same_text, string_of};

verus! {

/// Which rule an alert comes from.
#[derive(Debug, Clone, Copy, PartialEq, Eq, Structural)]
pub enum ScanType {
    Fast,
    Slow,
    AcceptScan,
}

impl ScanType {
    /// The human label of the rule, as a sequence of characters.
    pub open spec fn label(self) -> Seq<char> {
        match self {
            ScanType::Fast => seq!['F', 'a', 's', 't', ' ', 'S', 'c', 'a', 'n'],
            ScanType::Slow => seq!['S', 'l', 'o', 'w', ' ', 'S', 'c', 'a', 'n'],
            ScanType::AcceptScan => seq![
                'A',
                'c',
                'c',
                'e',
                'p',
                't',
                ' ',
                'S',
                'c',
                'a',
                'n',
            ],
        }
    }

    /// The human label of the rule.
    pub fn to_string(&self) -> (s: String)
        ensures
            s@ == self.label(),
    {
        let text = match self {
            ScanType::Fast => {
                proof {
                    reveal_strlit("Fast Scan");
                }
                "Fast Scan"
            },
            ScanType::Slow => {
                proof {
                    reveal_strlit("Slow Scan");
                }
                "Slow Scan"
            },
            ScanType::AcceptScan => {
                proof {
                    reveal_strlit("Accept Scan");
                }
                "Accept Scan"
            },
        };
        string_of(&chars_of(text))
    }
}

/// What the detector reports when a rule fires.
#[derive(Debug, Clone)]
pub struct Alert {
    pub scan_type: ScanType,
    pub source_ip: IpAddress,
    pub dest_ip: Option<IpAddress>,
    pub unique_ports: Vec<u16>,
    pub timestamp: Timestamp,
}

/// An alert as a mathematical value.
pub struct AlertView {
    pub scan_type: ScanType,
    pub source_ip: IpAddress,
    pub dest_ip: Option<IpAddress>,
    pub unique_ports: Seq<u16>,
    pub timestamp: Timestamp,
}

impl View for Alert {
    type V = AlertView;

    open spec fn view(&self) -> AlertView {
        AlertView {
            scan_type: self.scan_type,
            source_ip: self.source_ip,
            dest_ip: self.dest_ip,
            unique_ports: self.unique_ports@,
            timestamp: self.timestamp,
        }
    }
}

/// The alerts of a list, each as a mathematical value.
pub open spec fn alert_views(alerts: Seq<Alert>) -> Seq<AlertView> {
    Seq::new(alerts.len(), |i: int| alerts[i]@)
}

/// The detector's six maps as mathematical maps. Times are monotonic
/// nanoseconds.
pub struct DetectorState {
    pub drop_hits: Map<IpKey, Seq<PortHit>>,
    pub accept_hits: Map<IpKey, Seq<PortHit>>,
    pub last_seen: Map<IpKey, u128>,
    pub fast_cooldowns: Map<IpKey, u128>,
    pub slow_cooldowns: Map<IpKey, u128>,
    pub accept_cooldowns: Map<IpKey, u128>,
}

/// A span of whole seconds, in nanoseconds.
pub open spec fn nanos(secs: int) -> int {
    secs * 1_000_000_000
}

/// The Fast rule's window, in nanoseconds.
pub open spec fn fast_window(cfg: DetectionConfig) -> int {
    nanos(cfg.fast_scan.time_window_secs as int)
}

/// The Slow rule's window, in nanoseconds.
pub open spec fn slow_window(cfg: DetectionConfig) -> int {
    nanos(cfg.slow_scan.time_window_mins * 60)
}

/// The Accept rule's window, in nanoseconds.
pub open spec fn accept_window(cfg: DetectionConfig) -> int {
    nanos(cfg.accept_scan.time_window_secs as int)
}

/// The cooldown shared by the three rules, in nanoseconds.
pub open spec fn cooldown_span(cfg: DetectionConfig) -> int {
    nanos(cfg.alert_cooldown_secs as int)
}

/// How long ago `at` was, seen from `now`; zero if `at` lies ahead.
pub open spec fn age(now: u128, at: u128) -> int {
    if now >= at {
        now - at
    } else {
        0
    }
}

/// The ports of the hits that are at most `window` old.
pub open spec fn window_ports(hits: Seq<PortHit>, window: int, now: u128) -> Set<u16> {
    Set::new(
        |p: u16|
            exists|i: int|
                0 <= i < hits.len() && (#[trigger] hits[i]).port == p && age(now, hits[i].seen_at)
                    <= window,
    )
}

/// The sorted duplicate-free ports that `ip` touched within the window;
/// empty where the map has no list for `ip`.
pub open spec fn unique_ports(
    hits: Map<IpKey, Seq<PortHit>>,
    ip: IpKey,
    window: int,
    now: u128,
) -> Seq<u16> {
    if hits.contains_key(ip) {
        ascending(window_ports(hits[ip], window, now))
    } else {
        Seq::empty()
    }
}

/// A cooldown is active: an alert was raised less than `span` ago.
pub open spec fn cooling(cooldowns: Map<IpKey, u128>, ip: IpKey, span: int, now: u128) -> bool {
    cooldowns.contains_key(ip) && age(now, cooldowns[ip]) < span
}

/// The threshold rule: strictly more ports than the threshold, and no active
/// cooldown.
pub open spec fn fires(
    ports: Seq<u16>,
    threshold: usize,
    cooldowns: Map<IpKey, u128>,
    ip: IpKey,
    span: int,
    now: u128,
) -> bool {
    ports.len() > threshold && !cooling(cooldowns, ip, span, now)
}

/// `victim` is tracked and no tracked source was seen longer ago.
pub open spec fn least_recent(last_seen: Map<IpKey, u128>, victim: IpKey) -> bool {
    &&& last_seen.contains_key(victim)
    &&& forall|k: IpKey| last_seen.contains_key(k) ==> last_seen[victim] <= #[trigger] last_seen[k]
}

/// Admitting `ip` takes an eviction first: it is not tracked, the cap is
/// reached, and there is someone to evict.
pub open spec fn needs_room(s: DetectorState, cfg: DetectionConfig, ip: IpKey) -> bool {
    &&& !s.last_seen.contains_key(ip)
    &&& s.last_seen.len() >= cfg.max_tracked_ips
    &&& s.last_seen.len() > 0
}

/// `victim` is a choice that admission control may make for `ip`: nobody
/// where no room is needed, else a least recently seen source.
pub open spec fn eviction_allowed(
    s: DetectorState,
    cfg: DetectionConfig,
    ip: IpKey,
    victim: Option<IpKey>,
) -> bool {
    match victim {
        None => !needs_room(s, cfg, ip),
        Some(v) => needs_room(s, cfg, ip) && least_recent(s.last_seen, v),
    }
}

/// The state with `victim` removed from all six maps.
pub open spec fn without(s: DetectorState, victim: IpKey) -> DetectorState {
    DetectorState {
        drop_hits: s.drop_hits.remove(victim),
        accept_hits: s.accept_hits.remove(victim),
        last_seen: s.last_seen.remove(victim),
        fast_cooldowns: s.fast_cooldowns.remove(victim),
        slow_cooldowns: s.slow_cooldowns.remove(victim),
        accept_cooldowns: s.accept_cooldowns.remove(victim),
    }
}

/// The state after admission control.
pub open spec fn after_admission(s: DetectorState, victim: Option<IpKey>) -> DetectorState {
    match victim {
        None => s,
        Some(v) => without(s, v),
    }
}

/// The newest `cap` entries of a list.
pub open spec fn capped(list: Seq<PortHit>, cap: usize) -> Seq<PortHit> {
    if list.len() > cap {
        list.subrange(list.len() - cap, list.len() as int)
    } else {
        list
    }
}

/// The list stored for `ip`, empty where there is none.
pub open spec fn list_of(hits: Map<IpKey, Seq<PortHit>>, ip: IpKey) -> Seq<PortHit> {
    if hits.contains_key(ip) {
        hits[ip]
    } else {
        Seq::empty()
    }
}

/// The ports of a hit list, in its order.
pub open spec fn ports_of(list: Seq<PortHit>) -> Seq<u16> {
    Seq::new(list.len(), |i: int| list[i].port)
}

/// A hit map after one more hit of `ip`: appended, then cut to the cap from
/// the front.
pub open spec fn appended(
    hits: Map<IpKey, Seq<PortHit>>,
    ip: IpKey,
    hit: PortHit,
    cap: usize,
) -> Map<IpKey, Seq<PortHit>> {
    hits.insert(ip, capped(list_of(hits, ip).push(hit), cap))
}

/// The state after the event's source is touched and its hit is stored in
/// the map of its action class.
pub open spec fn recorded(
    s: DetectorState,
    cfg: DetectionConfig,
    ip: IpKey,
    dropped: bool,
    port: u16,
    now: u128,
) -> DetectorState {
    let hit = PortHit { port, seen_at: now };
    DetectorState {
        last_seen: s.last_seen.insert(ip, now),
        drop_hits: if dropped {
            appended(s.drop_hits, ip, hit, cfg.max_hits_per_ip)
        } else {
            s.drop_hits
        },
        accept_hits: if dropped {
            s.accept_hits
        } else {
            appended(s.accept_hits, ip, hit, cfg.max_hits_per_ip)
        },
        ..s
    }
}

/// The ports that the Fast rule sees for `ip`.
pub open spec fn fast_ports(s: DetectorState, cfg: DetectionConfig, ip: IpKey, now: u128) -> Seq<
    u16,
> {
    unique_ports(s.drop_hits, ip, fast_window(cfg), now)
}

/// The ports that the Slow rule sees for `ip`.
pub open spec fn slow_ports(s: DetectorState, cfg: DetectionConfig, ip: IpKey, now: u128) -> Seq<
    u16,
> {
    unique_ports(s.drop_hits, ip, slow_window(cfg), now)
}

/// The ports that the Accept rule sees for `ip`.
pub open spec fn accept_ports(s: DetectorState, cfg: DetectionConfig, ip: IpKey, now: u128) -> Seq<
    u16,
> {
    unique_ports(s.accept_hits, ip, accept_window(cfg), now)
}

/// The Fast rule fires for `ip`.
pub open spec fn fast_fires(s: DetectorState, cfg: DetectionConfig, ip: IpKey, now: u128) -> bool {
    fires(
        fast_ports(s, cfg, ip, now),
        cfg.fast_scan.port_threshold,
        s.fast_cooldowns,
        ip,
        cooldown_span(cfg),
        now,
    )
}

/// The Slow rule fires for `ip`.
pub open spec fn slow_fires(s: DetectorState, cfg: DetectionConfig, ip: IpKey, now: u128) -> bool {
    fires(
        slow_ports(s, cfg, ip, now),
        cfg.slow_scan.port_threshold,
        s.slow_cooldowns,
        ip,
        cooldown_span(cfg),
        now,
    )
}

/// The Accept rule fires for `ip`.
pub open spec fn accept_fires(s: DetectorState, cfg: DetectionConfig, ip: IpKey, now: u128) -> bool {
    fires(
        accept_ports(s, cfg, ip, now),
        cfg.accept_scan.port_threshold,
        s.accept_cooldowns,
        ip,
        cooldown_span(cfg),
        now,
    )
}

/// The state after the three rules are evaluated on a recorded state: each
/// rule that fires installs its cooldown.
pub open spec fn evaluated(s: DetectorState, cfg: DetectionConfig, ip: IpKey, now: u128) -> DetectorState {
    DetectorState {
        fast_cooldowns: if fast_fires(s, cfg, ip, now) {
            s.fast_cooldowns.insert(ip, now)
        } else {
            s.fast_cooldowns
        },
        slow_cooldowns: if slow_fires(s, cfg, ip, now) {
            s.slow_cooldowns.insert(ip, now)
        } else {
            s.slow_cooldowns
        },
        accept_cooldowns: if accept_fires(s, cfg, ip, now) {
            s.accept_cooldowns.insert(ip, now)
        } else {
            s.accept_cooldowns
        },
        ..s
    }
}

/// One alert of the given rule for the given event.
pub open spec fn alert_for(
    scan_type: ScanType,
    event: LogEvent,
    ports: Seq<u16>,
    wall: Timestamp,
) -> AlertView {
    AlertView {
        scan_type,
        source_ip: event.source_ip,
        dest_ip: event.dest_ip,
        unique_ports: ports,
        timestamp: wall,
    }
}

/// The alerts that the three rules raise on a recorded state, in the order
/// Fast, Slow, Accept.
pub open spec fn raised(
    s: DetectorState,
    cfg: DetectionConfig,
    event: LogEvent,
    now: u128,
    wall: Timestamp,
) -> Seq<AlertView> {
    let ip = event.source_ip.key_spec();
    let fast = if fast_fires(s, cfg, ip, now) {
        seq![alert_for(ScanType::Fast, event, fast_ports(s, cfg, ip, now), wall)]
    } else {
        Seq::empty()
    };
    let slow = if slow_fires(s, cfg, ip, now) {
        seq![alert_for(ScanType::Slow, event, slow_ports(s, cfg, ip, now), wall)]
    } else {
        Seq::empty()
    };
    let accept = if accept_fires(s, cfg, ip, now) {
        seq![alert_for(ScanType::AcceptScan, event, accept_ports(s, cfg, ip, now), wall)]
    } else {
        Seq::empty()
    };
    fast + slow + accept
}

/// The state in which the rules are evaluated for an event: after admission
/// control with the given choice, the touch and the append.
pub open spec fn observed(
    s: DetectorState,
    cfg: DetectionConfig,
    event: LogEvent,
    now: u128,
    victim: Option<IpKey>,
) -> DetectorState {
    recorded(
        after_admission(s, victim),
        cfg,
        event.source_ip.key_spec(),
        event.action@ == drop_word(),
        event.dest_port,
        now,
    )
}

/// The state after one event is processed at time `now`, admission control
/// having chosen `victim`.
pub open spec fn stepped(
    s: DetectorState,
    cfg: DetectionConfig,
    event: LogEvent,
    now: u128,
    victim: Option<IpKey>,
) -> DetectorState {
    evaluated(observed(s, cfg, event, now, victim), cfg, event.source_ip.key_spec(), now)
}

/// The hits of a list that are at most `max_age` old, in their order.
pub open spec fn fresh(list: Seq<PortHit>, max_age: int, now: u128) -> Seq<PortHit>
    decreases list.len(),
{
    if list.len() == 0 {
        Seq::empty()
    } else {
        let rest = fresh(list.drop_last(), max_age, now);
        if age(now, list.last().seen_at) <= max_age {
            rest.push(list.last())
        } else {
            rest
        }
    }
}

/// A hit map after compaction: every list keeps its fresh hits, and a list
/// left empty goes.
pub open spec fn pruned(hits: Map<IpKey, Seq<PortHit>>, max_age: int, now: u128) -> Map<
    IpKey,
    Seq<PortHit>,
> {
    Map::new(
        |k: IpKey| hits.contains_key(k) && fresh(hits[k], max_age, now).len() > 0,
        |k: IpKey| fresh(hits[k], max_age, now),
    )
}

/// The `last_seen` map after compaction: the sources that still have a list.
pub open spec fn still_tracked(
    last_seen: Map<IpKey, u128>,
    drop_hits: Map<IpKey, Seq<PortHit>>,
    accept_hits: Map<IpKey, Seq<PortHit>>,
) -> Map<IpKey, u128> {
    Map::new(
        |k: IpKey|
            last_seen.contains_key(k) && (drop_hits.contains_key(k) || accept_hits.contains_key(k)),
        |k: IpKey| last_seen[k],
    )
}

/// A cooldown map after compaction: the entries at most `span` old.
pub open spec fn unexpired(cooldowns: Map<IpKey, u128>, span: int, now: u128) -> Map<IpKey, u128> {
    Map::new(
        |k: IpKey| cooldowns.contains_key(k) && age(now, cooldowns[k]) <= span,
        |k: IpKey| cooldowns[k],
    )
}

/// The state after one compaction at time `now` with the given maximum age
/// in nanoseconds.
pub open spec fn compacted(s: DetectorState, cfg: DetectionConfig, max_age: int, now: u128) -> DetectorState {
    let drop_hits = pruned(s.drop_hits, max_age, now);
    let accept_hits = pruned(s.accept_hits, max_age, now);
    DetectorState {
        drop_hits,
        accept_hits,
        last_seen: still_tracked(s.last_seen, drop_hits, accept_hits),
        fast_cooldowns: unexpired(s.fast_cooldowns, cooldown_span(cfg), now),
        slow_cooldowns: unexpired(s.slow_cooldowns, cooldown_span(cfg), now),
        accept_cooldowns: unexpired(s.accept_cooldowns, cooldown_span(cfg), now),
    }
}

/// Compaction never lengthens a list.
pub proof fn lemma_fresh_len(list: Seq<PortHit>, max_age: int, now: u128)
    ensures
        fresh(list, max_age, now).len() <= list.len(),
    decreases list.len(),
{
    if list.len() > 0 {
        lemma_fresh_len(list.drop_last(), max_age, now);
    }
}

/// Every hit list respects the per-source cap.
pub open spec fn hit_lists_capped(s: DetectorState, cfg: DetectionConfig) -> bool {
    &&& forall|k: IpKey| #[trigger]
        s.drop_hits.contains_key(k) ==> s.drop_hits[k].len() <= cfg.max_hits_per_ip
    &&& forall|k: IpKey| #[trigger]
        s.accept_hits.contains_key(k) ==> s.accept_hits[k].len() <= cfg.max_hits_per_ip
}

/// The number of tracked sources respects the cap. A cap of zero still lets
/// the one source of the latest event in.
pub open spec fn tracking_capped(s: DetectorState, cfg: DetectionConfig) -> bool {
    &&& s.last_seen.dom().finite()
    &&& s.last_seen.len() <= cfg.max_tracked_ips || s.last_seen.len() <= 1
}

/// Every source with a hit list is tracked.
pub open spec fn hits_are_tracked(s: DetectorState) -> bool {
    &&& forall|k: IpKey| #[trigger] s.drop_hits.contains_key(k) ==> s.last_seen.contains_key(k)
    &&& forall|k: IpKey| #[trigger] s.accept_hits.contains_key(k) ==> s.last_seen.contains_key(k)
}

/// The source has a hit list that is not empty.
pub open spec fn has_hits(s: DetectorState, k: IpKey) -> bool {
    ||| s.drop_hits.contains_key(k) && s.drop_hits[k].len() > 0
    ||| s.accept_hits.contains_key(k) && s.accept_hits[k].len() > 0
}

/// Every tracked source has a hit list that is not empty. With a per-source
/// cap of zero no list can hold a hit, and nothing is claimed.
pub open spec fn sources_have_hits(s: DetectorState, cfg: DetectionConfig) -> bool {
    cfg.max_hits_per_ip >= 1 ==> forall|k: IpKey| #[trigger]
        s.last_seen.contains_key(k) ==> has_hits(s, k)
}

/// The invariants of the detector's state.
pub open spec fn bounded(s: DetectorState, cfg: DetectionConfig) -> bool {
    &&& hit_lists_capped(s, cfg)
    &&& tracking_capped(s, cfg)
    &&& hits_are_tracked(s)
    &&& sources_have_hits(s, cfg)
}

/// The state that tracks nobody.
pub open spec fn empty_state() -> DetectorState {
    DetectorState {
        drop_hits: Map::empty(),
        accept_hits: Map::empty(),
        last_seen: Map::empty(),
        fast_cooldowns: Map::empty(),
        slow_cooldowns: Map::empty(),
        accept_cooldowns: Map::empty(),
    }
}

/// The scan-detection engine.
pub struct Detector {
    port_hits: DashMap<IpKey, Vec<PortHit>>,
    accept_hits: DashMap<IpKey, Vec<PortHit>>,
    fast_cooldowns: DashMap<IpKey, u128>,
    slow_cooldowns: DashMap<IpKey, u128>,
    accept_cooldowns: DashMap<IpKey, u128>,
    last_seen: DashMap<IpKey, u128>,
    config: DetectionConfig,
    started: Instant,
}

impl View for Detector {
    type V = DetectorState;

    closed spec fn view(&self) -> DetectorState {
        DetectorState {
            drop_hits: hit_lists(self.port_hits),
            accept_hits: hit_lists(self.accept_hits),
            last_seen: instants(self.last_seen),
            fast_cooldowns: instants(self.fast_cooldowns),
            slow_cooldowns: instants(self.slow_cooldowns),
            accept_cooldowns: instants(self.accept_cooldowns),
        }
    }
}

/// A span of whole seconds, in nanoseconds.
fn nanos_of_secs(secs: u64) -> (n: u128)
    ensures
        n == nanos(secs as int),
{
    (secs as u128) * 1_000_000_000u128
}

/// How long ago `at` was, seen from `now`; zero if `at` lies ahead.
fn age_of(now: u128, at: u128) -> (a: u128)
    ensures
        a == age(now, at),
{
    now.saturating_sub(at)
}

/// A span of whole minutes, in nanoseconds.
fn nanos_of_mins(mins: u64) -> (n: u128)
    ensures
        n == nanos(mins * 60),
{
    (mins as u128) * 60_000_000_000u128
}

/// The key of an entry with the smallest instant, if there is any entry.
fn oldest(entries: &Vec<(IpKey, u128)>) -> (victim: Option<IpKey>)
    ensures
        victim is None <==> entries@.len() == 0,
        victim is Some ==> exists|i: int|
            0 <= i < entries@.len() && (#[trigger] entries@[i]).0 == victim->0 && forall|j: int|
                0 <= j < entries@.len() ==> entries@[i].1 <= (#[trigger] entries@[j]).1,
{
    if entries.len() == 0 {
        return None;
    }
    let mut best: usize = 0;
    let mut i: usize = 1;
    while i < entries.len()
        invariant
            1 <= i <= entries.len(),
            best < i,
            forall|j: int| 0 <= j < i ==> entries@[best as int].1 <= (#[trigger] entries@[j]).1,
        decreases entries.len() - i,
    {
        if entries[i].1 < entries[best].1 {
            best = i;
        }
        i += 1;
    }
    Some(entries[best].0)
}

/// Appends one hit to the list of `ip`, then drops the oldest entries until
/// the list fits the cap.
fn record_hit(map: &mut DashMap<IpKey, Vec<PortHit>>, ip: IpKey, hit: PortHit, cap: usize)
    ensures
        hit_lists(*final(map)) == appended(hit_lists(*old(map)), ip, hit, cap),
{
    let mut list = match hits_remove(map, &ip) {
        Some(list) => list,
        None => Vec::new(),
    };
    list.push(hit);
    if list.len() > cap {
        let overflow = list.len() - cap;
        let kept = list.split_off(overflow);
        list = kept;
    }
    hits_insert(map, ip, list);
}

/// The ports of the hits of `list` that are at most `window` old, in the
/// order of the list.
fn ports_within(list: &Vec<PortHit>, window: u128, now: u128) -> (ports: Vec<u16>)
    ensures
        ports@.to_set() == window_ports(list@, window as int, now),
{
    let mut ports: Vec<u16> = Vec::new();
    let mut i: usize = 0;
    while i < list.len()
        invariant
            i <= list.len(),
            forall|p: u16|
                ports@.contains(p) <==> exists|k: int|
                    0 <= k < i && (#[trigger] list@[k]).port == p && age(now, list@[k].seen_at)
                        <= window,
        decreases list.len() - i,
    {
        let ghost before = ports@;
        let hit = list[i];
        if age_of(now, hit.seen_at) <= window {
            ports.push(hit.port);
            proof {
                assert forall|p: u16|
                    ports@.contains(p) <==> exists|k: int|
                        0 <= k < i + 1 && (#[trigger] list@[k]).port == p && age(
                            now,
                            list@[k].seen_at,
                        ) <= window by {
                    if ports@.contains(p) {
                        let m = choose|m: int| 0 <= m < ports@.len() && ports@[m] == p;
                        if m < before.len() {
                            assert(before.contains(p));
                        }
                    }
                    if exists|k: int|
                        0 <= k < i + 1 && (#[trigger] list@[k]).port == p && age(
                            now,
                            list@[k].seen_at,
                        ) <= window {
                        let k = choose|k: int|
                            0 <= k < i + 1 && (#[trigger] list@[k]).port == p && age(
                                now,
                                list@[k].seen_at,
                            ) <= window;
                        if k < i {
                            assert(before.contains(p));
                            let m = choose|m: int| 0 <= m < before.len() && before[m] == p;
                            assert(ports@[m] == p);
                        } else {
                            assert(ports@[ports@.len() - 1] == p);
                        }
                    }
                }
            }
        }
        i += 1;
    }
    ports
}

/// Some hit of the list has the port `p` and is at most `window` old.
pub open spec fn hit_in_window(list: Seq<PortHit>, p: u16, window: int, now: u128) -> bool {
    exists|i: int|
        0 <= i < list.len() && (#[trigger] list[i]).port == p && age(now, list[i].seen_at) <= window
}

/// The window rule on one hit list: the ports of the hits that are at most
/// `window` old, seen from `now`, sorted and without duplicates; `None`
/// where no hit is that young. A hit exactly `window` old counts, and a hit
/// that lies ahead of `now` has age zero.
pub fn ports_in_window(list: &Vec<PortHit>, window: u128, now: u128) -> (found: Option<Vec<u16>>)
    ensures
        found is None <==> forall|p: u16| !hit_in_window(list@, p, window as int, now),
        found is Some ==> found->0@.len() > 0 && strictly_increasing(found->0@),
        found is Some ==> forall|p: u16|
            found->0@.contains(p) <==> hit_in_window(list@, p, window as int, now),
        found is Some ==> found->0@ == ascending(window_ports(list@, window as int, now)),
        found is None ==> ascending(window_ports(list@, window as int, now)).len() == 0,
{
    let in_window = ports_within(list, window, now);
    let unique = sort_dedup(&in_window);
    proof {
        assert forall|p: u16| unique@.contains(p) <==> hit_in_window(
            list@,
            p,
            window as int,
            now,
        ) by {
            assert(in_window@.to_set().contains(p) <==> in_window@.contains(p));
            assert(window_ports(list@, window as int, now).contains(p) <==> hit_in_window(
                list@,
                p,
                window as int,
                now,
            ));
        }
        if unique@.len() > 0 {
            assert(unique@.contains(unique@[0]));
            assert(hit_in_window(list@, unique@[0], window as int, now));
        } else {
            assert forall|p: u16| !hit_in_window(list@, p, window as int, now) by {
                assert(!unique@.contains(p));
            }
        }
    }
    if unique.len() == 0 {
        None
    } else {
        Some(unique)
    }
}

/// The cooldown rule on one entry: a cooldown is active where an alert was
/// raised and less than `span` has passed since. No entry means no cooldown,
/// and an entry that lies ahead of `now` has age zero.
pub fn cooldown_active(last_alert: Option<u128>, span: u128, now: u128) -> (active: bool)
    ensures
        active == (last_alert is Some && age(now, last_alert->0) < span),
{
    match last_alert {
        Some(at) => age_of(now, at) < span,
        None => false,
    }
}

/// The hits of `list` that are at most `max_age` old, in their order.
fn retain_fresh(list: &Vec<PortHit>, max_age: u128, now: u128) -> (kept: Vec<PortHit>)
    ensures
        kept@ == fresh(list@, max_age as int, now),
{
    let mut kept: Vec<PortHit> = Vec::new();
    let mut i: usize = 0;
    while i < list.len()
        invariant
            i <= list.len(),
            kept@ == fresh(list@.take(i as int), max_age as int, now),
        decreases list.len() - i,
    {
        let hit = list[i];
        proof {
            assert(list@.take(i + 1).drop_last() =~= list@.take(i as int));
        }
        if age_of(now, hit.seen_at) <= max_age {
            kept.push(hit);
        }
        i += 1;
    }
    assert(list@.take(list.len() as int) =~= list@);
    kept
}

/// The key occurs among the first `n` of `keys`.
spec fn among(keys: Seq<IpKey>, n: int, k: IpKey) -> bool {
    exists|j: int| 0 <= j < n && keys[j] == k
}

/// A hit map in the middle of compaction: the first `n` of `keys` are done.
spec fn partly_pruned(
    before: Map<IpKey, Seq<PortHit>>,
    keys: Seq<IpKey>,
    n: int,
    max_age: int,
    now: u128,
) -> Map<IpKey, Seq<PortHit>> {
    Map::new(
        |k: IpKey|
            before.contains_key(k) && (among(keys, n, k) ==> fresh(before[k], max_age, now).len()
                > 0),
        |k: IpKey|
            if among(keys, n, k) {
                fresh(before[k], max_age, now)
            } else {
                before[k]
            },
    )
}

/// Compacts one hit map: every list keeps its fresh hits, and a list left
/// empty is removed.
fn prune_hits(map: &mut DashMap<IpKey, Vec<PortHit>>, max_age: u128, now: u128)
    ensures
        hit_lists(*final(map)) == pruned(hit_lists(*old(map)), max_age as int, now),
{
    let ghost before = hit_lists(*map);
    let keys = hits_keys(map);
    let mut i: usize = 0;
    while i < keys.len()
        invariant
            i <= keys.len(),
            keys@.no_duplicates(),
            forall|k: IpKey| keys@.contains(k) <==> before.contains_key(k),
            hit_lists(*map) == partly_pruned(before, keys@, i as int, max_age as int, now),
        decreases keys.len() - i,
    {
        let key = keys[i];
        match hits_remove(map, &key) {
            Some(list) => {
                let kept = retain_fresh(&list, max_age, now);
                if kept.len() > 0 {
                    hits_insert(map, key, kept);
                }
            },
            None => {},
        }
        i += 1;
    }
}

/// Compacts `last_seen`: a source stays only while one of the two hit maps
/// still has a list for it.
fn forget_idle(
    last_seen: &mut DashMap<IpKey, u128>,
    drop_hits: &DashMap<IpKey, Vec<PortHit>>,
    accept_hits: &DashMap<IpKey, Vec<PortHit>>,
)
    ensures
        instants(*final(last_seen)) == still_tracked(
            instants(*old(last_seen)),
            hit_lists(*drop_hits),
            hit_lists(*accept_hits),
        ),
{
    let ghost before = instants(*last_seen);
    let ghost goal = still_tracked(before, hit_lists(*drop_hits), hit_lists(*accept_hits));
    let entries = stamps_entries(last_seen);
    let mut i: usize = 0;
    while i < entries.len()
        invariant
            i <= entries.len(),
            forall|j: int|
                0 <= j < entries@.len() ==> before.contains_key((#[trigger] entries@[j]).0),
            forall|k: IpKey|
                before.contains_key(k) ==> exists|j: int|
                    0 <= j < entries@.len() && (#[trigger] entries@[j]).0 == k,
            goal == still_tracked(before, hit_lists(*drop_hits), hit_lists(*accept_hits)),
            forall|k: IpKey|
                instants(*last_seen).contains_key(k) <==> before.contains_key(k) && (
                goal.contains_key(k) || !exists|j: int|
                    0 <= j < i && (#[trigger] entries@[j]).0 == k),
            forall|k: IpKey|
                instants(*last_seen).contains_key(k) ==> instants(*last_seen)[k] == before[k],
        decreases entries.len() - i,
    {
        let key = entries[i].0;
        let keep = hits_contains(drop_hits, &key) || hits_contains(accept_hits, &key);
        if !keep {
            stamps_remove(last_seen, &key);
        }
        i += 1;
    }
}

/// Compacts one cooldown map: an entry stays while it is at most `span` old.
fn drop_expired(cooldowns: &mut DashMap<IpKey, u128>, span: u128, now: u128)
    ensures
        instants(*final(cooldowns)) == unexpired(instants(*old(cooldowns)), span as int, now),
{
    stamps_retain_recent(cooldowns, now, span);
}

impl Detector {
    /// The configuration that the detector was made with.
    pub closed spec fn settings(&self) -> DetectionConfig {
        self.config
    }

    /// The detector's state respects its invariants. Every constructor
    /// establishes this and every method keeps it.
    pub open spec fn wf(&self) -> bool {
        bounded(self@, self.settings())
    }

    /// A detector that tracks nobody.
    pub fn new(config: DetectionConfig) -> (detector: Detector)
        ensures
            detector@ == empty_state(),
            detector.settings() == config,
            detector.wf(),
    {
        let port_hits = hits_new();
        let accept_hits = hits_new();
        let fast_cooldowns = stamps_new();
        let slow_cooldowns = stamps_new();
        let accept_cooldowns = stamps_new();
        let last_seen = stamps_new();
        proof {
            assert(hit_lists(port_hits) =~= Map::empty());
            assert(hit_lists(accept_hits) =~= Map::empty());
            assert(instants(last_seen) =~= Map::empty());
            assert(instants(fast_cooldowns) =~= Map::empty());
            assert(instants(slow_cooldowns) =~= Map::empty());
            assert(instants(accept_cooldowns) =~= Map::empty());
        }
        let detector = Detector {
            port_hits,
            accept_hits,
            fast_cooldowns,
            slow_cooldowns,
            accept_cooldowns,
            last_seen,
            config,
            started: Instant::now(),
        };
        detector
    }

    /// The sorted duplicate-free ports that `ip` touched within the window,
    /// or `None` where there is no such port.
    fn unique_ports_in_window(
        hits_map: &DashMap<IpKey, Vec<PortHit>>,
        ip: &IpKey,
        window: u128,
        now: u128,
    ) -> (found: Option<Vec<u16>>)
        ensures
            found is Some ==> found->0@ == unique_ports(
                hit_lists(*hits_map),
                *ip,
                window as int,
                now,
            ) && found->0@.len() > 0,
            found is None ==> unique_ports(hit_lists(*hits_map), *ip, window as int, now).len()
                == 0,
    {
        match hits_get(hits_map, ip) {
            Some(list) => ports_in_window(&list, window, now),
            None => None,
        }
    }

    /// Whether an alert for `ip` was raised less than `span` ago.
    fn in_cooldown(cooldowns: &DashMap<IpKey, u128>, ip: &IpKey, span: u128, now: u128) -> (active:
        bool)
        ensures
            active == cooling(instants(*cooldowns), *ip, span as int, now),
    {
        cooldown_active(stamps_get(cooldowns, ip), span, now)
    }

    /// Processes one event as of the monotonic time `now`, stamping the alerts
    /// with the wall-clock reading `wall`.
    ///
    /// In order: admission control (a new source that would exceed the cap
    /// first evicts a least recently seen source from all six maps), the
    /// touch of `last_seen`, the append to the hit list of the event's action
    /// class under the FIFO cap, and the evaluation of the Fast, Slow and
    /// Accept rules, each of which installs its cooldown when it fires.
    pub fn process_event_at(&mut self, event: &LogEvent, now: u128, wall: Timestamp) -> (alerts:
        Vec<Alert>)
        requires
            old(self).wf(),
        ensures
            final(self).settings() == old(self).settings(),
            final(self).wf(),
            exists|victim: Option<IpKey>|
                {
                    &&& eviction_allowed(
                        old(self)@,
                        old(self).settings(),
                        event.source_ip.key_spec(),
                        victim,
                    )
                    &&& final(self)@ == stepped(
                        old(self)@,
                        old(self).settings(),
                        *event,
                        now,
                        victim,
                    )
                    &&& alert_views(alerts@) == raised(
                        observed(old(self)@, old(self).settings(), *event, now, victim),
                        old(self).settings(),
                        *event,
                        now,
                        wall,
                    )
                },
    {
        let ghost s0 = self@;
        let cfg = self.config;
        let ip = event.source_ip.key();
        let ghost mut victim: Option<IpKey> = None;

        let is_new_ip = !stamps_contains(&self.last_seen, &ip);
        let count = stamps_len(&self.last_seen);
        if is_new_ip && count >= cfg.max_tracked_ips {
            let entries = stamps_entries(&self.last_seen);
            match oldest(&entries) {
                Some(old_ip) => {
                    proof {
                        victim = Some(old_ip);
                        assert(least_recent(s0.last_seen, old_ip)) by {
                        }
                    }
                    hits_remove(&mut self.port_hits, &old_ip);
                    hits_remove(&mut self.accept_hits, &old_ip);
                    stamps_remove(&mut self.last_seen, &old_ip);
                    stamps_remove(&mut self.fast_cooldowns, &old_ip);
                    stamps_remove(&mut self.slow_cooldowns, &old_ip);
                    stamps_remove(&mut self.accept_cooldowns, &old_ip);
                },
                None => {
                    proof {
                        if s0.last_seen.len() > 0 {
                            let k = s0.last_seen.dom().choose();
                            assert(s0.last_seen.contains_key(k));
                        }
                    }
                },
            }
        }

        stamps_insert(&mut self.last_seen, ip, now);
        let dropped = same_text(event.action.as_str(), "drop");
        proof {
            reveal_strlit("drop");
            assert("drop"@ =~= drop_word());
        }
        let hit = PortHit { port: event.dest_port, seen_at: now };
        if dropped {
            record_hit(&mut self.port_hits, ip, hit, cfg.max_hits_per_ip);
        } else {
            record_hit(&mut self.accept_hits, ip, hit, cfg.max_hits_per_ip);
        }
        let ghost s2 = self@;

        let mut alerts: Vec<Alert> = Vec::new();
        let span = nanos_of_secs(cfg.alert_cooldown_secs);

        let fast_span = nanos_of_secs(cfg.fast_scan.time_window_secs);
        if let Some(ports) = Self::unique_ports_in_window(&self.port_hits, &ip, fast_span, now) {
            if ports.len() > cfg.fast_scan.port_threshold && !Self::in_cooldown(
                &self.fast_cooldowns,
                &ip,
                span,
                now,
            ) {
                stamps_insert(&mut self.fast_cooldowns, ip, now);
                alerts.push(
                    Alert {
                        scan_type: ScanType::Fast,
                        source_ip: event.source_ip,
                        dest_ip: event.dest_ip,
                        unique_ports: ports,
                        timestamp: wall,
                    },
                );
            }
        }

        let slow_span = nanos_of_mins(cfg.slow_scan.time_window_mins);
        if let Some(ports) = Self::unique_ports_in_window(&self.port_hits, &ip, slow_span, now) {
            if ports.len() > cfg.slow_scan.port_threshold && !Self::in_cooldown(
                &self.slow_cooldowns,
                &ip,
                span,
                now,
            ) {
                stamps_insert(&mut self.slow_cooldowns, ip, now);
                alerts.push(
                    Alert {
                        scan_type: ScanType::Slow,
                        source_ip: event.source_ip,
                        dest_ip: event.dest_ip,
                        unique_ports: ports,
                        timestamp: wall,
                    },
                );
            }
        }

        let accept_span = nanos_of_secs(cfg.accept_scan.time_window_secs);
        if let Some(ports) = Self::unique_ports_in_window(&self.accept_hits, &ip, accept_span, now) {
            if ports.len() > cfg.accept_scan.port_threshold && !Self::in_cooldown(
                &self.accept_cooldowns,
                &ip,
                span,
                now,
            ) {
                stamps_insert(&mut self.accept_cooldowns, ip, now);
                alerts.push(
                    Alert {
                        scan_type: ScanType::AcceptScan,
                        source_ip: event.source_ip,
                        dest_ip: event.dest_ip,
                        unique_ports: ports,
                        timestamp: wall,
                    },
                );
            }
        }
        proof {
            assert(self@ == stepped(s0, cfg, *event, now, victim));
            assert(alert_views(alerts@) =~= raised(s2, cfg, *event, now, wall));
        }
        alerts
    }

    /// Compacts the state as of the monotonic time `now`: every hit list keeps
    /// the hits at most `max_age` nanoseconds old, a source whose lists are
    /// both gone is no longer tracked, and a cooldown goes once it is older
    /// than the configured cooldown.
    pub fn cleanup_at(&mut self, max_age: u128, now: u128)
        requires
            old(self).wf(),
        ensures
            final(self).settings() == old(self).settings(),
            final(self).wf(),
            final(self)@ == compacted(old(self)@, old(self).settings(), max_age as int, now),
    {
        let ghost s0 = self@;
        prune_hits(&mut self.port_hits, max_age, now);
        prune_hits(&mut self.accept_hits, max_age, now);
        forget_idle(&mut self.last_seen, &self.port_hits, &self.accept_hits);
        let span = nanos_of_secs(self.config.alert_cooldown_secs);
        drop_expired(&mut self.fast_cooldowns, span, now);
        drop_expired(&mut self.slow_cooldowns, span, now);
        drop_expired(&mut self.accept_cooldowns, span, now);
        proof {
            let s1 = self@;
            assert(s1 == compacted(s0, self.config, max_age as int, now));
            assert forall|k: IpKey| #[trigger] s1.drop_hits.contains_key(k) implies s1.drop_hits[k].len()
                <= self.config.max_hits_per_ip by {
                lemma_fresh_len(s0.drop_hits[k], max_age as int, now);
            }
            assert forall|k: IpKey| #[trigger]
                s1.accept_hits.contains_key(k) implies s1.accept_hits[k].len()
                <= self.config.max_hits_per_ip by {
                lemma_fresh_len(s0.accept_hits[k], max_age as int, now);
            }
            vstd::set_lib::lemma_len_subset(s1.last_seen.dom(), s0.last_seen.dom());
        }
    }

    /// The monotonic time in nanoseconds since the detector was made.
    fn monotonic_now(&self) -> u128 {
        let since_start = self.started.elapsed();
        since_start.as_nanos()
    }

    /// Processes one event as of the current time. The clock readings are
    /// whatever the machine gives; the rest is
    /// [`process_event_at`](Self::process_event_at) on them.
    pub fn process_event(&mut self, event: &LogEvent) -> (alerts: Vec<Alert>)
        requires
            old(self).wf(),
        ensures
            final(self).settings() == old(self).settings(),
            final(self).wf(),
            exists|now: u128, wall: Timestamp, victim: Option<IpKey>|
                {
                    &&& wall.wf()
                    &&& eviction_allowed(
                        old(self)@,
                        old(self).settings(),
                        event.source_ip.key_spec(),
                        victim,
                    )
                    &&& final(self)@ == stepped(
                        old(self)@,
                        old(self).settings(),
                        *event,
                        now,
                        victim,
                    )
                    &&& alert_views(alerts@) == raised(
                        observed(old(self)@, old(self).settings(), *event, now, victim),
                        old(self).settings(),
                        *event,
                        now,
                        wall,
                    )
                },
    {
        let now = self.monotonic_now();
        let wall = local_now();
        self.process_event_at(event, now, wall)
    }

    /// Compacts the state as of the current time, with the length of
    /// `max_age` as the age limit. The clock reading is whatever the machine
    /// gives; the rest is [`cleanup_at`](Self::cleanup_at) on it.
    pub fn cleanup(&mut self, max_age: Duration)
        requires
            old(self).wf(),
        ensures
            final(self).settings() == old(self).settings(),
            final(self).wf(),
            exists|now: u128|
                final(self)@ == compacted(
                    old(self)@,
                    old(self).settings(),
                    duration_nanos(max_age) as int,
                    now,
                ),
    {
        let now = self.monotonic_now();
        let age_limit = max_age.as_nanos();
        self.cleanup_at(age_limit, now)
    }

    /// Whether the detector tracks the source.
    pub fn is_tracked(&self, ip: &IpAddress) -> (known: bool)
        ensures
            known == self@.last_seen.contains_key(ip.key_spec()),
    {
        stamps_contains(&self.last_seen, &ip.key())
    }

    /// The ports of the hits that are stored for a source in one action
    /// class, oldest first; none where the source has no list there.
    pub fn recorded_ports(&self, ip: &IpAddress, dropped: bool) -> (ports: Vec<u16>)
        ensures
            ports@ == ports_of(
                list_of(
                    if dropped {
                        self@.drop_hits
                    } else {
                        self@.accept_hits
                    },
                    ip.key_spec(),
                ),
            ),
    {
        let key = ip.key();
        let found = if dropped {
            hits_get(&self.port_hits, &key)
        } else {
            hits_get(&self.accept_hits, &key)
        };
        let mut ports: Vec<u16> = Vec::new();
        match found {
            Some(list) => {
                let mut i: usize = 0;
                while i < list.len()
                    invariant
                        i <= list.len(),
                        ports@ == ports_of(list@.take(i as int)),
                    decreases list.len() - i,
                {
                    ports.push(list[i].port);
                    i += 1;
                }
            },
            None => {
            },
        }
        ports
    }

    /// The number of sources that the detector tracks.
    pub fn tracked_ips(&self) -> (n: usize)
        ensures
            n == self@.last_seen.len(),
    {
        stamps_len(&self.last_seen)
    }
}

} // verus!
