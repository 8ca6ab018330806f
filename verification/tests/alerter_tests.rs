use ids_rs::alerter::{
    build_html_body, email_body, email_subject, sanitize_cef, siem_message, Alerter,
    HTML_TEMPLATE,
};
use ids_rs::clock::Timestamp;
use ids_rs::config::{
    AcceptScanConfig, AlertingConfig, DetectionConfig, EmailConfig, FastScanConfig, SiemConfig,
    SlowScanConfig,
};
use ids_rs::detector::{Alert, ScanType};
use ids_rs::ip::IpAddress;

fn detection() -> DetectionConfig {
    DetectionConfig {
        alert_cooldown_secs: 5,
        max_hits_per_ip: 1_000,
        max_tracked_ips: 10_000,
        fast_scan: FastScanConfig { port_threshold: 3, time_window_secs: 10 },
        slow_scan: SlowScanConfig { port_threshold: 50, time_window_mins: 7 },
        accept_scan: AcceptScanConfig { port_threshold: 3, time_window_secs: 15 },
    }
}

fn alerting() -> AlertingConfig {
    AlertingConfig {
        siem: SiemConfig { enabled: true, host: "siem.example".to_string(), port: 514 },
        email: EmailConfig {
            enabled: true,
            smtp_server: "mail.example".to_string(),
            smtp_port: 587,
            smtp_tls: true,
            from: "ids@example".to_string(),
            to: vec!["a@example".to_string(), "b@example".to_string()],
            username: "ids".to_string(),
            password: "SECRET-REDACTED".to_string(),
            email_footer: "SOC <team> & co".to_string(),
        },
    }
}

fn stamp() -> Timestamp {
    Timestamp {
        unix_millis: 1_699_168_089_123,
        year: 2023,
        month: 11,
        day: 5,
        hour: 7,
        minute: 8,
        second: 9,
    }
}

fn alert(scan_type: ScanType, ports: Vec<u16>) -> Alert {
    Alert {
        scan_type,
        source_ip: IpAddress::V4(0x0a00_0001),
        dest_ip: Some(IpAddress::V4(0x0a00_0002)),
        unique_ports: ports,
        timestamp: stamp(),
    }
}

#[test]
fn alerter_test_sanitize_newline() {
    assert_eq!(sanitize_cef("text\nfals"), "text\\nfals");
}

#[test]
fn alerter_test_sanitize_carriage_return() {
    assert_eq!(sanitize_cef("text\rfals"), "text\\rfals");
}

#[test]
fn alerter_test_sanitize_pipe() {
    assert_eq!(sanitize_cef("camp|fals"), "camp\\|fals");
}

#[test]
fn alerter_test_sanitize_backslash() {
    assert_eq!(sanitize_cef("c:\\path"), "c:\\\\path");
}

#[test]
fn alerter_test_sanitize_combinat() {
    let input = "evil\nFeb 18 00:00:00 ids-rs CEF:0|FAKE|Product|1.0|999|Fake|10|";
    let output = sanitize_cef(input);
    assert!(!output.contains('\n'));
    assert!(!output.contains("CEF:0|FAKE"));
    assert!(output.contains("\\n"));
    assert!(output.contains("\\|"));
}

#[test]
fn alerter_test_sanitize_string_curat() {
    assert_eq!(
        sanitize_cef("Fast Scan detectat: 20 porturi"),
        "Fast Scan detectat: 20 porturi"
    );
}

#[test]
fn alerter_test_sanitize_backslash_inainte_de_pipe() {
    let input = "a\\|b";
    let output = sanitize_cef(input);
    assert_eq!(output, "a\\\\\\|b");
}

#[test]
fn sanitize_whole_attack_line() {
    assert_eq!(
        sanitize_cef("evil\nFeb 18 00:00:00 ids-rs CEF:0|FAKE|Product\r"),
        "evil\\nFeb 18 00:00:00 ids-rs CEF:0\\|FAKE\\|Product\\r"
    );
}

#[test]
fn sanitize_twice_is_the_same_only_on_clean_text() {
    let clean = "cnt=4 act=alert";
    assert_eq!(sanitize_cef(&sanitize_cef(clean)), sanitize_cef(clean));
    let once = sanitize_cef("a|b");
    assert_eq!(once, "a\\|b");
    assert_eq!(sanitize_cef(&once), "a\\\\\\|b");
}

#[test]
fn sanitize_keeps_other_characters() {
    assert_eq!(sanitize_cef(""), "");
    assert_eq!(sanitize_cef("a=b c\t\u{e9}\u{1F534}"), "a=b c\t\u{e9}\u{1F534}");
}

#[test]
fn siem_message_of_a_fast_alert() {
    let message = siem_message(&detection(), &alert(ScanType::Fast, vec![1, 2, 3, 4]));
    assert_eq!(
        message,
        "<38>Nov  5 07:08:09 ids-rs CEF:0|IDS-RS|Network Scanner Detector|1.0|1001|Fast Port Scan Detected|7|rt=1699168089123 src=10.0.0.1 dst=10.0.0.2 cnt=4 act=alert msg=Fast Scan detectat: 4 porturi unice in 10 secunde | ports: 1,2,3,4 cs1Label=ScannedPorts cs1=1,2,3,4"
    );
}

#[test]
fn siem_message_of_a_slow_alert_without_destination() {
    let mut slow = alert(ScanType::Slow, vec![22, 80, 443]);
    slow.dest_ip = None;
    slow.source_ip = IpAddress::V6(1);
    slow.timestamp.day = 25;
    slow.timestamp.month = 2;
    slow.timestamp.unix_millis = -1;
    assert_eq!(
        siem_message(&detection(), &slow),
        "<38>Feb 25 07:08:09 ids-rs CEF:0|IDS-RS|Network Scanner Detector|1.0|1002|Slow Port Scan Detected|7|rt=-1 src=::1 cnt=3 act=alert msg=Slow Scan detectat: 3 porturi unice in 7 minute | ports: 22,80,443 cs1Label=ScannedPorts cs1=22,80,443"
    );
}

#[test]
fn siem_message_of_an_accept_alert() {
    let message = siem_message(&detection(), &alert(ScanType::AcceptScan, vec![8080]));
    assert_eq!(
        message,
        "<38>Nov  5 07:08:09 ids-rs CEF:0|IDS-RS|Network Scanner Detector|1.0|1003|Accept Port Scan Detected|7|rt=1699168089123 src=10.0.0.1 dst=10.0.0.2 cnt=1 act=alert msg=Accept Scan detectat: 1 porturi unice in 15 secunde | ports: 8080 cs1Label=ScannedPorts cs1=8080"
    );
}

#[test]
fn siem_message_shortens_a_long_port_list_at_a_comma() {
    let ports: Vec<u16> = (1..=200).collect();
    let message = siem_message(&detection(), &alert(ScanType::Fast, ports));
    let full = "1,2,3,4,5,6,7,8,9,10,11,12,13,14,15,16,17,18,19,20,21,22,23,24,25,26,27,28,29,30,31,32,33,34,35,36,37,38,39,40,41,42,43,44,45,46,47,48,49,50,51,52,53,54,55,56,57,58,59,60,61,62,63,64,65,66,67,68,69,70,71,72,73,74,75,76,77,78,79,80,81,82,83,84,85,86,87,88,89,90,91,92,93,94,95,96,97,98,99,100,101,102,103,104,105,106,107,108,109,110,111,112,113,114,115,116,117,118,119,120,121,122,123,124,125,126,127,128,129,130,131,132,133,134,135,136,137,138,139,140,141,142,143,144,145,146,147,148,149,150,151,152,153,154,155,156,157,158,159,160,161,162,163,164,165,166,167,168,169,170,171,172,173,174,175,176,177,178,179,180,181,182,183,184,185,186,187,188,189,190,191,192,193,194,195,196,197,198,199,200";
    let shown = "1,2,3,4,5,6,7,8,9,10,11,12,13,14,15,16,17,18,19,20,21,22,23,24,25,26,27,28,29,30,31,32,33,34,35,36,37,38,39,40,41,42,43,44,45,46,47,48,49,50,51,52,53,54,55,56,57,58,59,60,61,62,63,64,65,66,67,68,69,70,71,72,73,74,75,76,77,78,79,80,81,82,83,84,85,86,87,88,89,90,91,92,93,94,95,96,97,98,99,100,101,102,103,104,105,106,107,108,109,110,111,112,113,114,115,116,117,118,119,120,121,122,123,124,125,126,127,128,129,130,131,132,133,134,135,136,137,138,139,140,141,142,143,144,145,146,147,148,149,150,151,152,153,154,155...";
    assert_eq!(
        message,
        format!(
            "<38>Nov  5 07:08:09 ids-rs CEF:0|IDS-RS|Network Scanner Detector|1.0|1001|Fast Port Scan Detected|7|rt=1699168089123 src=10.0.0.1 dst=10.0.0.2 cnt=200 act=alert msg=Fast Scan detectat: 200 porturi unice in 10 secunde | ports: {} cs1Label=ScannedPorts cs1={}",
            shown, full
        )
    );
}

#[test]
fn siem_message_keeps_a_list_of_exactly_512_characters() {
    let mut ports: Vec<u16> = (1..=154).collect();
    ports.push(1000);
    let full: String = ports.iter().map(|p| p.to_string()).collect::<Vec<String>>().join(",");
    assert_eq!(full.len(), 512);
    let message = siem_message(&detection(), &alert(ScanType::Fast, ports));
    assert!(message.contains(&format!("| ports: {} cs1Label", full)));
    assert!(!message.contains("..."));
}

#[test]
fn siem_message_cuts_a_list_of_513_characters() {
    let mut ports: Vec<u16> = (1..=154).collect();
    ports.push(10000);
    let full: String = ports.iter().map(|p| p.to_string()).collect::<Vec<String>>().join(",");
    assert_eq!(full.len(), 513);
    let message = siem_message(&detection(), &alert(ScanType::Fast, ports));
    assert!(message.contains(",152,153,154... cs1Label=ScannedPorts cs1=1,2,3,"));
    assert!(message.ends_with(",153,154,10000"));
}

#[test]
fn email_subject_names_rule_source_and_count() {
    assert_eq!(
        email_subject(&alert(ScanType::Fast, vec![1, 2, 3, 4])),
        "\u{1F534} [Fast Scan][SCANARE RETEA] IDS-RS 10.0.0.1 4 porturi"
    );
    assert_eq!(
        email_subject(&alert(ScanType::AcceptScan, vec![])),
        "\u{1F534} [Accept Scan][SCANARE RETEA] IDS-RS 10.0.0.1 0 porturi"
    );
}

#[test]
fn html_body_fills_every_placeholder() {
    let body = build_html_body(
        "Fast Scan",
        "RIDICATA",
        "10.0.0.1",
        "10.0.0.2",
        4,
        "2023-11-05 07:08:09",
        "1, 2, 3, 4",
        "SOC <team> & co",
    );
    let expected = HTML_TEMPLATE
        .replace("__SCAN_TYPE__", "Fast Scan")
        .replace("__SEVERITY__", "RIDICATA")
        .replace("__SRC_IP__", "10.0.0.1")
        .replace("__DST_IP__", "10.0.0.2")
        .replace("__PORT_COUNT__", "4")
        .replace("__TIMESTAMP__", "2023-11-05 07:08:09")
        .replace("__PORTS__", "1, 2, 3, 4")
        .replace("__FOOTER__", "SOC &lt;team&gt; &amp; co");
    assert_eq!(body, expected);
    assert!(body.contains("<span class=\"badge\">Fast Scan</span>"));
    assert!(body.contains("<span class=\"badge\">Severitate: RIDICATA</span>"));
    assert!(body.contains("<tr><td>IP Sursa</td><td>10.0.0.1</td></tr>"));
    assert!(body.contains("<tr><td>IP Destinatie</td><td>10.0.0.2</td></tr>"));
    assert!(body.contains("<tr><td>Porturi scanate</td><td>4</td></tr>"));
    assert!(body.contains("<tr><td>Timestamp</td><td>2023-11-05 07:08:09</td></tr>"));
    assert!(body.contains("<div class=\"ports-box\">1, 2, 3, 4</div>"));
    assert!(body.contains("<pre>SOC &lt;team&gt; &amp; co</pre>"));
    assert!(body.contains("<span class=\"cmd-line\">ss -tnp | grep 10.0.0.1</span>"));
    assert!(!body.contains("__"));
}

#[test]
fn html_body_escapes_the_ampersand_first() {
    let body = build_html_body("", "", "", "", 0, "", "", "&lt;");
    assert!(body.contains("<pre>&amp;lt;</pre>"));
}

#[test]
fn html_body_fills_in_order() {
    // a value that holds a later placeholder is filled by the later step
    let body = build_html_body("__PORTS__", "", "", "", 0, "", "22", "");
    assert!(body.contains("<span class=\"badge\">22</span>"));
}

#[test]
fn email_body_of_an_alert() {
    let body = email_body("SOC", &alert(ScanType::Slow, vec![22, 80]));
    let expected = build_html_body(
        "Slow Scan",
        "RIDICATA",
        "10.0.0.1",
        "10.0.0.2",
        2,
        "2023-11-05 07:08:09",
        "22, 80",
        "SOC",
    );
    assert_eq!(body, expected);
}

#[test]
fn email_body_sums_up_the_ports_beyond_thirty() {
    let mut long = alert(ScanType::Fast, (1..=31).collect());
    long.dest_ip = None;
    let body = email_body("", &long);
    assert!(body.contains(
        "<div class=\"ports-box\">1, 2, 3, 4, 5, 6, 7, 8, 9, 10, 11, 12, 13, 14, 15, 16, 17, 18, 19, 20, 21, 22, 23, 24, 25, 26, 27, 28, 29, 30 + 1 more</div>"
    ));
    assert!(body.contains("<tr><td>IP Destinatie</td><td>N/A</td></tr>"));
    let thirty = alert(ScanType::Fast, (1..=30).collect());
    let body = email_body("", &thirty);
    assert!(body.contains("27, 28, 29, 30</div>"));
}

#[test]
fn plan_follows_the_enabled_transports() {
    let alerter = Alerter::new(alerting(), detection());
    let sample = alert(ScanType::Fast, vec![1, 2, 3, 4]);
    let dispatch = alerter.plan_alert(&sample);
    let datagram = dispatch.siem.unwrap();
    assert_eq!(datagram.destination, "siem.example:514");
    assert_eq!(datagram.payload, siem_message(&detection(), &sample));
    let mail = dispatch.mail.unwrap();
    assert_eq!(mail.server, "mail.example");
    assert_eq!(mail.port, 587);
    assert!(mail.starttls);
    let login = mail.login.unwrap();
    assert_eq!(login.username, "ids");
    assert_eq!(login.password, "SECRET-REDACTED");
    assert_eq!(mail.timeout_secs, 30);
    assert_eq!(mail.from, "ids@example");
    assert_eq!(mail.recipients, vec!["a@example".to_string(), "b@example".to_string()]);
    assert_eq!(mail.subject, email_subject(&sample));
    assert_eq!(mail.html_body, email_body("SOC <team> & co", &sample));
}

#[test]
fn plan_leaves_out_what_is_switched_off() {
    let mut config = alerting();
    config.siem.enabled = false;
    config.email.username = String::new();
    config.email.smtp_tls = false;
    let alerter = Alerter::new(config, detection());
    let dispatch = alerter.plan_alert(&alert(ScanType::Fast, vec![1]));
    assert!(dispatch.siem.is_none());
    let mail = dispatch.mail.unwrap();
    assert!(mail.login.is_none());
    assert!(!mail.starttls);

    let mut config = alerting();
    config.email.enabled = false;
    let alerter = Alerter::new(config, detection());
    let dispatch = alerter.plan_alert(&alert(ScanType::Fast, vec![1]));
    assert!(dispatch.siem.is_some());
    assert!(dispatch.mail.is_none());
}

#[test]
fn siem_message_is_a_single_line() {
    for scan_type in [ScanType::Fast, ScanType::Slow, ScanType::AcceptScan] {
        let mut sample = alert(scan_type, (1..=300).collect());
        sample.source_ip = IpAddress::V6(0x2001_0db8_0000_0000_0000_0000_0000_0001);
        sample.dest_ip = Some(IpAddress::V6(0xffff_c000_0201));
        let message = siem_message(&detection(), &sample);
        assert!(!message.contains('\n') && !message.contains('\r'));
        assert!(message.starts_with("<38>Nov  5 07:08:09 ids-rs CEF:0|IDS-RS|"));
        assert!(message.contains(" src=2001:db8::1 dst=::ffff:192.0.2.1 cnt=300 "));
    }
}
