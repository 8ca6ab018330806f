use ids_rs::config::{AcceptScanConfig, DetectionConfig, FastScanConfig, SlowScanConfig};
use ids_rs::clock::Timestamp;
use ids_rs::detector::{cooldown_active, ports_in_window, Alert, Detector, ScanType};
use ids_rs::store::PortHit;
use ids_rs::ip::IpAddress;
use ids_rs::parser::LogEvent;
use std::time::Duration;

const SECOND: u128 = 1_000_000_000;

fn test_config() -> DetectionConfig {
    DetectionConfig {
        alert_cooldown_secs: 5,
        max_hits_per_ip: 1_000,
        max_tracked_ips: 10_000,
        fast_scan: FastScanConfig { port_threshold: 3, time_window_secs: 10 },
        slow_scan: SlowScanConfig { port_threshold: 50, time_window_mins: 1 },
        accept_scan: AcceptScanConfig { port_threshold: 3, time_window_secs: 10 },
    }
}

fn slow_test_config() -> DetectionConfig {
    DetectionConfig {
        alert_cooldown_secs: 5,
        max_hits_per_ip: 1_000,
        max_tracked_ips: 10_000,
        fast_scan: FastScanConfig { port_threshold: 1_000, time_window_secs: 10 },
        slow_scan: SlowScanConfig { port_threshold: 3, time_window_mins: 1 },
        accept_scan: AcceptScanConfig { port_threshold: 1_000, time_window_secs: 60 },
    }
}

fn make_event(ip: &str, port: u16) -> LogEvent {
    LogEvent {
        source_ip: ip.parse().unwrap(),
        dest_ip: Some("10.0.0.1".parse().unwrap()),
        dest_port: port,
        protocol: "tcp".to_string(),
        action: "drop".to_string(),
        raw_log: String::new(),
    }
}

fn make_accept_event(ip: &str, port: u16) -> LogEvent {
    LogEvent {
        source_ip: ip.parse().unwrap(),
        dest_ip: Some("10.0.0.1".parse().unwrap()),
        dest_port: port,
        protocol: "tcp".to_string(),
        action: "accept".to_string(),
        raw_log: String::new(),
    }
}

fn wall() -> Timestamp {
    Timestamp {
        unix_millis: 1_700_000_000_123,
        year: 2023,
        month: 11,
        day: 14,
        hour: 22,
        minute: 13,
        second: 20,
    }
}

fn feed(detector: &mut Detector, ip: &str, port: u16, at: u128) -> Vec<Alert> {
    detector.process_event_at(&make_event(ip, port), at, wall())
}

#[test]
fn detector_test_no_alert_below_threshold() {
    let mut detector = Detector::new(test_config());

    for port in 1..=3 {
        let alerts = detector.process_event(&make_event("10.0.0.1", port));
        assert!(alerts.is_empty(), "Nu ar trebui alerta la {} porturi", port);
    }
}

#[test]
fn detector_test_fast_scan_alert() {
    let mut detector = Detector::new(test_config());

    for port in 1..=4 {
        let alerts = detector.process_event(&make_event("10.0.0.1", port));
        if port == 4 {
            assert_eq!(alerts.len(), 1);
            assert!(matches!(alerts[0].scan_type, ScanType::Fast));
        }
    }
}

#[test]
fn detector_test_cooldown_prevents_duplicate_alert() {
    let mut detector = Detector::new(test_config());

    for port in 1..=5 {
        detector.process_event(&make_event("10.0.0.1", port));
    }

    let alerts = detector.process_event(&make_event("10.0.0.1", 100));
    assert!(alerts.is_empty(), "Cooldown-ul ar fi trebuit sa previna alerta");
}

#[test]
fn detector_test_different_ips_tracked_separately() {
    let mut detector = Detector::new(test_config());

    for port in 1..=4 {
        detector.process_event(&make_event("10.0.0.1", port));
    }

    for port in 1..=2 {
        let alerts = detector.process_event(&make_event("10.0.0.2", port));
        assert!(alerts.is_empty());
    }
}

#[test]
fn detector_test_cleanup_removes_old_entries() {
    let mut detector = Detector::new(test_config());

    detector.process_event(&make_event("10.0.0.1", 22));
    assert_eq!(detector.tracked_ips(), 1);

    detector.cleanup(Duration::from_secs(0));
    assert_eq!(detector.tracked_ips(), 0);
}

#[test]
fn test_max_hits_per_ip_cap() {
    let mut config = test_config();
    config.max_hits_per_ip = 5;
    let mut detector = Detector::new(config);

    for port in 1..=10u16 {
        detector.process_event(&make_event("10.0.0.1", port));
    }

    let ip: IpAddress = "10.0.0.1".parse().unwrap();
    let ports = detector.recorded_ports(&ip, true);
    assert!(
        ports.len() <= 5,
        "Vec-ul a depasit max_hits_per_ip: are {} intrari",
        ports.len()
    );
    assert!(ports.contains(&10), "Portul cel mai recent (10) trebuie sa fie prezent");
    assert!(!ports.contains(&1), "Portul cel mai vechi (1) trebuia eliminat");
    assert_eq!(ports, vec![6, 7, 8, 9, 10]);
}

#[test]
fn test_accept_scan_alert() {
    let mut detector = Detector::new(test_config());

    for port in 1..=4 {
        let alerts = detector.process_event(&make_accept_event("10.1.0.1", port));
        if port == 4 {
            assert_eq!(alerts.len(), 1, "Trebuia o alerta Accept Scan la {} porturi", port);
            assert!(
                matches!(alerts[0].scan_type, ScanType::AcceptScan),
                "Tipul alertei trebuie sa fie AcceptScan"
            );
        } else {
            assert!(alerts.is_empty(), "Fara alerta la {} porturi (sub prag)", port);
        }
    }
}

#[test]
fn test_drop_events_do_not_trigger_accept_scan() {
    let mut detector = Detector::new(test_config());

    for port in 1..=10 {
        let alerts = detector.process_event(&make_event("10.2.0.1", port));
        for alert in &alerts {
            assert!(
                !matches!(alert.scan_type, ScanType::AcceptScan),
                "Drop events NU trebuie sa declanseze Accept Scan (port {})",
                port
            );
        }
    }
}

#[test]
fn test_accept_events_do_not_trigger_fast_scan() {
    let mut detector = Detector::new(test_config());

    for port in 1..=10 {
        let alerts = detector.process_event(&make_accept_event("10.3.0.1", port));
        for alert in &alerts {
            assert!(
                !matches!(alert.scan_type, ScanType::Fast),
                "Accept events NU trebuie sa declanseze Fast Scan (port {})",
                port
            );
            assert!(
                !matches!(alert.scan_type, ScanType::Slow),
                "Accept events NU trebuie sa declanseze Slow Scan (port {})",
                port
            );
        }
    }
}

#[test]
fn test_accept_scan_cooldown() {
    let mut detector = Detector::new(test_config());

    for port in 1..=4 {
        detector.process_event(&make_accept_event("10.4.0.1", port));
    }

    let alerts = detector.process_event(&make_accept_event("10.4.0.1", 5));
    assert!(
        alerts.is_empty(),
        "Cooldown-ul Accept Scan trebuia sa previna alerta duplicata"
    );
}

#[test]
fn test_max_tracked_ips_eviction() {
    let mut config = test_config();
    config.max_tracked_ips = 2;
    let mut detector = Detector::new(config);

    detector.process_event(&make_event("10.0.0.1", 80));
    detector.process_event(&make_event("10.0.0.2", 80));
    detector.process_event(&make_event("10.0.0.3", 80));

    assert!(
        detector.tracked_ips() <= 2,
        "DashMap a depasit max_tracked_ips: urmareste {} IP-uri",
        detector.tracked_ips()
    );

    let ip1: IpAddress = "10.0.0.1".parse().unwrap();
    assert!(
        detector.recorded_ports(&ip1, true).is_empty(),
        "IP-ul cel mai vechi (10.0.0.1) trebuia evictat"
    );
    assert!(!detector.is_tracked(&ip1));

    let ip3: IpAddress = "10.0.0.3".parse().unwrap();
    assert!(
        !detector.recorded_ports(&ip3, true).is_empty(),
        "IP-ul cel mai recent (10.0.0.3) trebuie sa fie prezent"
    );
    assert!(detector.is_tracked(&ip3));
}

#[test]
fn test_slow_scan_alert() {
    let mut detector = Detector::new(slow_test_config());

    for port in 1..=4u16 {
        let alerts = detector.process_event(&make_event("192.168.1.1", port));
        if port == 4 {
            assert_eq!(alerts.len(), 1, "Trebuia o alerta Slow Scan la {} porturi", port);
            assert!(
                matches!(alerts[0].scan_type, ScanType::Slow),
                "Tipul alertei trebuie sa fie Slow, nu {:?}",
                alerts[0].scan_type
            );
            assert_eq!(alerts[0].unique_ports.len(), 4);
        } else {
            assert!(alerts.is_empty(), "Fara alerta sub prag (port {})", port);
        }
    }
}

#[test]
fn test_slow_scan_cooldown() {
    let mut detector = Detector::new(slow_test_config());

    for port in 1..=4u16 {
        detector.process_event(&make_event("192.168.2.1", port));
    }

    let alerts = detector.process_event(&make_event("192.168.2.1", 5));
    assert!(
        alerts.is_empty(),
        "Cooldown-ul Slow Scan trebuia sa previna alerta duplicata"
    );
}

#[test]
fn test_slow_scan_independent_from_fast() {
    let mut detector = Detector::new(slow_test_config());

    let mut got_slow = false;
    let mut got_fast = false;

    for port in 1..=4u16 {
        let alerts = detector.process_event(&make_event("192.168.3.1", port));
        for alert in &alerts {
            match alert.scan_type {
                ScanType::Slow => got_slow = true,
                ScanType::Fast => got_fast = true,
                _ => {}
            }
        }
    }

    assert!(got_slow, "Trebuia o alerta Slow Scan");
    assert!(!got_fast, "Fast Scan NU trebuia sa se declanseze cu prag 1000");
}

#[test]
fn fourth_port_raises_one_fast_alert_with_sorted_ports() {
    let mut detector = Detector::new(test_config());
    assert!(feed(&mut detector, "10.0.0.1", 3, 100).is_empty());
    assert!(feed(&mut detector, "10.0.0.1", 1, 200).is_empty());
    assert!(feed(&mut detector, "10.0.0.1", 2, 300).is_empty());
    let alerts = feed(&mut detector, "10.0.0.1", 4, 400);
    assert_eq!(alerts.len(), 1);
    assert_eq!(alerts[0].scan_type, ScanType::Fast);
    assert_eq!(alerts[0].unique_ports, vec![1, 2, 3, 4]);
    assert_eq!(alerts[0].source_ip, IpAddress::V4(0x0a00_0001));
    assert_eq!(alerts[0].dest_ip, Some(IpAddress::V4(0x0a00_0001)));
    assert_eq!(alerts[0].timestamp, wall());
}

#[test]
fn fifth_port_within_cooldown_raises_nothing() {
    let mut detector = Detector::new(test_config());
    for port in 1..=4u16 {
        feed(&mut detector, "10.0.0.1", port, 100 * port as u128);
    }
    assert!(feed(&mut detector, "10.0.0.1", 100, SECOND).is_empty());
}

#[test]
fn repeated_port_counts_once() {
    let mut detector = Detector::new(test_config());
    for at in 0..10u128 {
        assert!(feed(&mut detector, "10.0.0.1", 80, at).is_empty());
    }
    assert!(feed(&mut detector, "10.0.0.1", 81, 11).is_empty());
    assert!(feed(&mut detector, "10.0.0.1", 82, 12).is_empty());
    let alerts = feed(&mut detector, "10.0.0.1", 83, 13);
    assert_eq!(alerts.len(), 1);
    assert_eq!(alerts[0].unique_ports, vec![80, 81, 82, 83]);
}

#[test]
fn alerts_of_one_rule_are_a_cooldown_apart() {
    let mut detector = Detector::new(test_config());
    for port in 1..=3u16 {
        feed(&mut detector, "10.0.0.1", port, 0);
    }
    assert_eq!(feed(&mut detector, "10.0.0.1", 4, 0).len(), 1);
    // one nanosecond short of the cooldown: still quiet
    assert!(feed(&mut detector, "10.0.0.1", 5, 5 * SECOND - 1).is_empty());
    // exactly the cooldown later: the rule fires again
    let alerts = feed(&mut detector, "10.0.0.1", 6, 5 * SECOND);
    assert_eq!(alerts.len(), 1);
    assert_eq!(alerts[0].unique_ports, vec![1, 2, 3, 4, 5, 6]);
}

#[test]
fn hit_at_the_window_edge_still_counts() {
    let mut detector = Detector::new(test_config());
    feed(&mut detector, "10.0.0.1", 1, 0);
    feed(&mut detector, "10.0.0.1", 2, 1);
    feed(&mut detector, "10.0.0.1", 3, 2);
    // the first hit is exactly ten seconds old: inside the window
    let alerts = feed(&mut detector, "10.0.0.1", 4, 10 * SECOND);
    assert_eq!(alerts.len(), 1);
    assert_eq!(alerts[0].unique_ports, vec![1, 2, 3, 4]);
}

#[test]
fn hit_past_the_window_edge_is_left_out() {
    let mut detector = Detector::new(test_config());
    feed(&mut detector, "10.0.0.1", 1, 0);
    feed(&mut detector, "10.0.0.1", 2, 1);
    feed(&mut detector, "10.0.0.1", 3, 2);
    // the first hit is one nanosecond too old: three ports are left
    assert!(feed(&mut detector, "10.0.0.1", 4, 10 * SECOND + 1).is_empty());
}

#[test]
fn fast_and_slow_can_fire_on_the_same_event() {
    let mut config = test_config();
    config.slow_scan.port_threshold = 3;
    let mut detector = Detector::new(config);
    for port in 1..=3u16 {
        assert!(feed(&mut detector, "10.0.0.1", port, 0).is_empty());
    }
    let alerts = feed(&mut detector, "10.0.0.1", 4, 0);
    assert_eq!(alerts.len(), 2);
    assert_eq!(alerts[0].scan_type, ScanType::Fast);
    assert_eq!(alerts[1].scan_type, ScanType::Slow);
}

#[test]
fn slow_window_outlasts_fast_window() {
    let mut config = test_config();
    config.slow_scan.port_threshold = 3;
    let mut detector = Detector::new(config);
    feed(&mut detector, "10.0.0.1", 1, 0);
    feed(&mut detector, "10.0.0.1", 2, 20 * SECOND);
    feed(&mut detector, "10.0.0.1", 3, 40 * SECOND);
    // sixty seconds after the first hit: all four are in the Slow window,
    // one is in the Fast window
    let alerts = feed(&mut detector, "10.0.0.1", 4, 60 * SECOND);
    assert_eq!(alerts.len(), 1);
    assert_eq!(alerts[0].scan_type, ScanType::Slow);
    assert_eq!(alerts[0].unique_ports, vec![1, 2, 3, 4]);
}

#[test]
fn clock_that_runs_backwards_does_not_fail() {
    let mut detector = Detector::new(test_config());
    feed(&mut detector, "10.0.0.1", 1, 50 * SECOND);
    feed(&mut detector, "10.0.0.1", 2, 50 * SECOND);
    feed(&mut detector, "10.0.0.1", 3, 50 * SECOND);
    // hits that lie ahead of `now` have age zero
    let alerts = feed(&mut detector, "10.0.0.1", 4, 0);
    assert_eq!(alerts.len(), 1);
    assert_eq!(alerts[0].unique_ports, vec![1, 2, 3, 4]);
}

#[test]
fn list_keeps_the_newest_hits_in_order() {
    let mut config = test_config();
    config.max_hits_per_ip = 5;
    let mut detector = Detector::new(config);
    let ip = IpAddress::V4(0x0a00_0001);
    for port in 1..=5u16 {
        feed(&mut detector, "10.0.0.1", port, port as u128);
    }
    assert_eq!(detector.recorded_ports(&ip, true), vec![1, 2, 3, 4, 5]);
    feed(&mut detector, "10.0.0.1", 6, 6);
    assert_eq!(detector.recorded_ports(&ip, true), vec![2, 3, 4, 5, 6]);
    assert!(detector.recorded_ports(&ip, false).is_empty());
}

#[test]
fn least_recently_seen_source_is_evicted_from_every_map() {
    let mut config = test_config();
    config.max_tracked_ips = 2;
    config.fast_scan.port_threshold = 0;
    let mut detector = Detector::new(config);
    // each first hit fires the Fast rule and installs a cooldown
    assert_eq!(feed(&mut detector, "10.0.0.1", 80, 10).len(), 1);
    assert_eq!(feed(&mut detector, "10.0.0.2", 80, 20).len(), 1);
    // touching the first source makes the second one the oldest
    assert!(feed(&mut detector, "10.0.0.1", 81, 30).is_empty());
    assert_eq!(feed(&mut detector, "10.0.0.3", 80, 40).len(), 1);
    assert_eq!(detector.tracked_ips(), 2);
    let first = IpAddress::V4(0x0a00_0001);
    let second = IpAddress::V4(0x0a00_0002);
    let third = IpAddress::V4(0x0a00_0003);
    assert!(detector.is_tracked(&first));
    assert!(!detector.is_tracked(&second));
    assert!(detector.is_tracked(&third));
    assert!(detector.recorded_ports(&second, true).is_empty());
    // the evicted source comes back inside what was its cooldown: the
    // cooldown went with it, so the rule fires at once
    assert_eq!(feed(&mut detector, "10.0.0.2", 80, 50).len(), 1);
}

#[test]
fn cap_of_zero_sources_still_admits_the_latest() {
    let mut config = test_config();
    config.max_tracked_ips = 0;
    let mut detector = Detector::new(config);
    feed(&mut detector, "10.0.0.1", 80, 10);
    assert_eq!(detector.tracked_ips(), 1);
    feed(&mut detector, "10.0.0.2", 80, 20);
    assert_eq!(detector.tracked_ips(), 1);
    assert!(detector.is_tracked(&IpAddress::V4(0x0a00_0002)));
}

#[test]
fn ipv4_and_ipv6_sources_are_kept_apart() {
    let mut detector = Detector::new(test_config());
    let event = LogEvent {
        source_ip: IpAddress::V6(0x0a00_0001),
        dest_ip: None,
        dest_port: 22,
        protocol: "tcp".to_string(),
        action: "drop".to_string(),
        raw_log: String::new(),
    };
    detector.process_event_at(&event, 1, wall());
    feed(&mut detector, "10.0.0.1", 23, 2);
    assert_eq!(detector.tracked_ips(), 2);
    assert_eq!(detector.recorded_ports(&IpAddress::V6(0x0a00_0001), true), vec![22]);
    assert_eq!(detector.recorded_ports(&IpAddress::V4(0x0a00_0001), true), vec![23]);
}

#[test]
fn compaction_keeps_fresh_hits_and_forgets_idle_sources() {
    let mut detector = Detector::new(test_config());
    feed(&mut detector, "10.0.0.1", 1, 0);
    feed(&mut detector, "10.0.0.1", 2, 5 * SECOND);
    feed(&mut detector, "10.0.0.2", 3, 0);
    detector.process_event_at(&make_accept_event("10.0.0.3", 4), 6 * SECOND, wall());
    // at ten seconds with a maximum age of five: hits at five and six stay,
    // the hit exactly five seconds old included
    detector.cleanup_at(5 * SECOND, 10 * SECOND);
    let first = IpAddress::V4(0x0a00_0001);
    let second = IpAddress::V4(0x0a00_0002);
    let third = IpAddress::V4(0x0a00_0003);
    assert_eq!(detector.recorded_ports(&first, true), vec![2]);
    assert!(detector.is_tracked(&first));
    assert!(!detector.is_tracked(&second));
    assert!(detector.is_tracked(&third));
    assert_eq!(detector.recorded_ports(&third, false), vec![4]);
    assert_eq!(detector.tracked_ips(), 2);
}

#[test]
fn compaction_drops_expired_cooldowns_only() {
    let mut config = test_config();
    config.fast_scan.port_threshold = 0;
    config.alert_cooldown_secs = 5;
    let mut detector = Detector::new(config);
    assert_eq!(feed(&mut detector, "10.0.0.1", 1, 0).len(), 1);
    // a cooldown exactly as old as the cooldown span stays through compaction
    detector.cleanup_at(100 * SECOND, 5 * SECOND);
    // at a clock reading before the alert the kept entry has age zero: quiet
    assert!(feed(&mut detector, "10.0.0.1", 2, 0).is_empty());
    // one nanosecond older and compaction drops the entry
    detector.cleanup_at(100 * SECOND, 5 * SECOND + 1);
    assert_eq!(feed(&mut detector, "10.0.0.1", 3, 0).len(), 1);
}

#[test]
fn alert_from_the_clock_has_calendar_fields_in_range() {
    let mut config = test_config();
    config.fast_scan.port_threshold = 0;
    let mut detector = Detector::new(config);
    let alerts = detector.process_event(&make_event("10.0.0.1", 1));
    assert_eq!(alerts.len(), 1);
    let stamp = alerts[0].timestamp;
    assert!(stamp.year >= 2024);
    assert!((1..=12).contains(&stamp.month));
    assert!((1..=31).contains(&stamp.day));
    assert!(stamp.hour <= 23 && stamp.minute <= 59 && stamp.second <= 59);
    assert!(stamp.unix_millis > 1_700_000_000_000);
}

#[test]
fn cleanup_with_a_long_age_keeps_everything() {
    let mut detector = Detector::new(test_config());
    detector.process_event(&make_event("10.0.0.1", 22));
    detector.cleanup(Duration::from_secs(3600));
    assert_eq!(detector.tracked_ips(), 1);
    assert_eq!(detector.recorded_ports(&IpAddress::V4(0x0a00_0001), true), vec![22]);
}

#[test]
fn scan_type_labels() {
    assert_eq!(ScanType::Fast.to_string(), "Fast Scan");
    assert_eq!(ScanType::Slow.to_string(), "Slow Scan");
    assert_eq!(ScanType::AcceptScan.to_string(), "Accept Scan");
}

#[test]
fn three_ports_are_quiet_the_fourth_alerts_the_fifth_is_cooled() {
    let mut detector = Detector::new(test_config());
    let tenth = SECOND / 10;
    assert!(feed(&mut detector, "10.0.0.1", 1, tenth).is_empty());
    assert!(feed(&mut detector, "10.0.0.1", 2, 2 * tenth).is_empty());
    assert!(feed(&mut detector, "10.0.0.1", 3, 3 * tenth).is_empty());
    let alerts = feed(&mut detector, "10.0.0.1", 4, 4 * tenth);
    assert_eq!(alerts.len(), 1);
    assert_eq!(alerts[0].scan_type, ScanType::Fast);
    assert_eq!(alerts[0].unique_ports, vec![1, 2, 3, 4]);
    assert!(feed(&mut detector, "10.0.0.1", 100, 5 * tenth).is_empty());
}

#[test]
fn four_accepted_ports_raise_one_accept_alert_only() {
    let mut detector = Detector::new(test_config());
    let tenth = SECOND / 10;
    let mut all = Vec::new();
    for port in 1..=4u16 {
        all.extend(detector.process_event_at(
            &make_accept_event("10.1.0.1", port),
            port as u128 * tenth,
            wall(),
        ));
    }
    assert_eq!(all.len(), 1);
    assert_eq!(all[0].scan_type, ScanType::AcceptScan);
    assert_eq!(all[0].unique_ports, vec![1, 2, 3, 4]);
    let ip = IpAddress::V4(0x0a01_0001);
    assert_eq!(detector.recorded_ports(&ip, false), vec![1, 2, 3, 4]);
    assert!(detector.recorded_ports(&ip, true).is_empty());
}

#[test]
fn every_source_with_hits_is_among_the_tracked() {
    let mut config = test_config();
    config.max_tracked_ips = 3;
    config.max_hits_per_ip = 2;
    let mut detector = Detector::new(config);
    let sources = ["10.0.0.1", "10.0.0.2", "10.0.0.3", "10.0.0.4", "10.0.0.5"];
    for round in 0..20u128 {
        let source = sources[(round * 7 % 5) as usize];
        if round % 3 == 0 {
            detector.process_event_at(&make_accept_event(source, round as u16), round, wall());
        } else {
            feed(&mut detector, source, round as u16, round);
        }
        assert!(detector.tracked_ips() <= 3);
        let mut with_hits = 0;
        for name in sources {
            let ip: IpAddress = name.parse().unwrap();
            let dropped = detector.recorded_ports(&ip, true);
            let accepted = detector.recorded_ports(&ip, false);
            assert!(dropped.len() <= 2 && accepted.len() <= 2);
            if !dropped.is_empty() || !accepted.is_empty() {
                assert!(detector.is_tracked(&ip));
                with_hits += 1;
            } else {
                assert!(!detector.is_tracked(&ip));
            }
        }
        assert_eq!(with_hits, detector.tracked_ips());
    }
}

#[test]
fn new_detector_tracks_nobody() {
    let detector = Detector::new(test_config());
    assert_eq!(detector.tracked_ips(), 0);
    assert!(!detector.is_tracked(&IpAddress::V4(0x0a00_0001)));
    assert!(detector.recorded_ports(&IpAddress::V4(0x0a00_0001), true).is_empty());
}

#[test]
fn window_rule_keeps_the_hit_at_the_edge() {
    let list = vec![
        PortHit { port: 443, seen_at: 0 },
        PortHit { port: 22, seen_at: 1 },
        PortHit { port: 443, seen_at: 5 },
        PortHit { port: 80, seen_at: 20 },
    ];
    // seen from 10 with a window of 10 every hit counts, the one at 0 too
    assert_eq!(ports_in_window(&list, 10, 10), Some(vec![22, 80, 443]));
    // one later the hit at 0 is out; port 443 stays through the hit at 5
    assert_eq!(ports_in_window(&list, 10, 11), Some(vec![22, 80, 443]));
    assert_eq!(ports_in_window(&list, 10, 12), Some(vec![80, 443]));
    assert_eq!(ports_in_window(&list, 10, 16), Some(vec![80]));
    assert_eq!(ports_in_window(&list, 10, 30), Some(vec![80]));
    assert_eq!(ports_in_window(&list, 10, 31), None);
    assert_eq!(ports_in_window(&list, 0, 20), Some(vec![80]));
    assert_eq!(ports_in_window(&Vec::new(), 10, 0), None);
}

#[test]
fn cooldown_rule_ends_exactly_at_the_span() {
    assert!(cooldown_active(Some(100), 50, 100));
    assert!(cooldown_active(Some(100), 50, 149));
    assert!(!cooldown_active(Some(100), 50, 150));
    assert!(!cooldown_active(Some(100), 50, 1_000));
    // an entry ahead of the clock has age zero
    assert!(cooldown_active(Some(100), 50, 0));
    assert!(!cooldown_active(Some(100), 0, 100));
    assert!(!cooldown_active(None, 50, 100));
}
