use ids_rs::ip::IpAddress;
use ids_rs::parser::cef::{extension_of, lookup, CefParser};
use ids_rs::parser::gaia::GaiaParser;
use ids_rs::parser::{
    assemble_event, create_parser, select_parser, AnyParser, LogParser, ParserError,
};

fn chars(s: &str) -> Vec<char> {
    s.chars().collect()
}

fn text(v: Option<Vec<char>>) -> Option<String> {
    v.map(|v| v.into_iter().collect())
}

#[test]
fn test_parse_valid_cef_drop() {
    let parser = CefParser::new();
    let log = "CEF:0|CheckPoint|VPN-1|R81|100|Drop|5|src=192.168.11.7 dst=10.0.0.1 dpt=443 proto=TCP act=drop";
    let event = parser.parse(log).unwrap();
    assert_eq!(event.source_ip.to_string(), "192.168.11.7");
    assert_eq!(event.dest_port, 443);
    assert_eq!(event.protocol, "tcp");
    assert_eq!(event.action, "drop");
}

#[test]
fn test_ignore_cef_accept() {
    let parser = CefParser::new();
    let log = "CEF:0|CheckPoint|VPN-1|R81|100|Accept|3|src=10.0.0.5 dst=10.0.0.1 dpt=80 proto=TCP act=accept";
    assert!(parser.parse(log).is_none());
}

#[test]
fn test_parse_cef_with_syslog_header() {
    let parser = CefParser::new();
    let log = "Feb 17 11:32:44 gw-hostname CEF:0|Check Point|VPN-1 & FireWall-1|Check Point|Log|Drop|5|src=11.11.11.11 dst=22.22.22.22 spt=444 dpt=444 proto=udp act=Drop";
    let event = parser.parse(log).unwrap();
    assert_eq!(event.source_ip.to_string(), "11.11.11.11");
    assert_eq!(event.dest_port, 444);
    assert_eq!(event.protocol, "udp");
    assert_eq!(event.action, "drop");
}

#[test]
fn test_parse_cef_with_syslog_priority_header() {
    let parser = CefParser::new();
    let log = "<134>Feb 17 11:32:44 gw-hostname CEF:0|CheckPoint|VPN-1 & FireWall-1|R81.20|100|Drop|5|src=10.0.0.5 dst=10.0.0.1 dpt=8080 proto=TCP act=Drop";
    let event = parser.parse(log).unwrap();
    assert_eq!(event.source_ip.to_string(), "10.0.0.5");
    assert_eq!(event.dest_port, 8080);
    assert_eq!(event.protocol, "tcp");
    assert_eq!(event.action, "drop");
}

#[test]
fn test_reject_non_cef() {
    let parser = CefParser::new();
    assert!(parser.parse("not a CEF log").is_none());
}

#[test]
fn test_incomplete_cef_fields() {
    let parser = CefParser::new();
    let log = "CEF:0|CheckPoint|VPN-1|R81|100|Drop|5|src=192.168.11.7";
    assert!(parser.parse(log).is_none());
}

#[test]
fn cef_event_carries_destination_and_raw_line() {
    let parser = CefParser::new();
    let log = "CEF:0|a|b|c|d|e|f|src=10.0.0.5 dst=2001:db8::1 dpt=+53 act=DROP";
    let event = parser.parse(log).unwrap();
    assert_eq!(event.source_ip, IpAddress::V4(0x0a00_0005));
    assert_eq!(event.dest_ip, Some(IpAddress::V6(0x2001_0db8_0000_0000_0000_0000_0000_0001)));
    assert_eq!(event.dest_port, 53);
    assert_eq!(event.protocol, "tcp");
    assert_eq!(event.action, "drop");
    assert_eq!(event.raw_log, log);
}

#[test]
fn cef_needs_seven_header_fields() {
    let parser = CefParser::new();
    assert!(parser.parse("CEF:0|a|b|c|d|e|src=10.0.0.5 dpt=53 act=drop").is_none());
    assert!(parser.parse("CEF:0|a|b|c|d|e|f|src=10.0.0.5 dpt=53 act=drop").is_some());
    // the extension keeps whatever follows the seventh separator
    assert_eq!(
        text(extension_of(&chars("x CEF:0|a|b|c|d|e|f|g|h"))),
        Some("g|h".to_string())
    );
    assert_eq!(text(extension_of(&chars("CEF:|||||||"))), Some(String::new()));
    assert_eq!(text(extension_of(&chars("cef:0|a|b|c|d|e|f|g"))), None);
}

#[test]
fn cef_counts_fields_from_the_first_marker() {
    let parser = CefParser::new();
    // the marker inside the prefix starts the record
    let log = "CEF: CEF:0|a|b|c|d|e|f|src=10.0.0.5 dpt=53 act=drop";
    assert!(parser.parse(log).is_some());
    // counted from the second marker the record would be three fields short
    let log = "CEF:|||| CEF:0|a|b|src=10.0.0.5 dpt=53 act=drop";
    assert!(parser.parse(log).is_some());
    let log = " CEF:0|a|b|src=10.0.0.5 dpt=53 act=drop";
    assert!(parser.parse(log).is_none());
}

#[test]
fn cef_last_assignment_wins() {
    let parser = CefParser::new();
    let log = "CEF:0|a|b|c|d|e|f|src=10.0.0.5 dpt=53 act=drop src=10.0.0.6 dpt=54";
    let event = parser.parse(log).unwrap();
    assert_eq!(event.source_ip.to_string(), "10.0.0.6");
    assert_eq!(event.dest_port, 54);
    // a later source that is no address spoils the record
    let log = "CEF:0|a|b|c|d|e|f|src=10.0.0.5 dpt=53 act=drop src=nobody";
    assert!(parser.parse(log).is_none());
    // a destination that is no address is left out
    let log = "CEF:0|a|b|c|d|e|f|src=10.0.0.5 dst=nowhere dpt=53 act=drop";
    assert_eq!(parser.parse(log).unwrap().dest_ip, None);
}

#[test]
fn cef_rejects_missing_or_bad_port_and_action() {
    let parser = CefParser::new();
    assert!(parser.parse("CEF:0|a|b|c|d|e|f|src=10.0.0.5 act=drop").is_none());
    assert!(parser.parse("CEF:0|a|b|c|d|e|f|src=10.0.0.5 dpt=65536 act=drop").is_none());
    assert!(parser.parse("CEF:0|a|b|c|d|e|f|src=10.0.0.5 dpt=65535 act=drop").is_some());
    assert!(parser.parse("CEF:0|a|b|c|d|e|f|src=10.0.0.5 dpt=-1 act=drop").is_none());
    assert!(parser.parse("CEF:0|a|b|c|d|e|f|src=10.0.0.5 dpt=53").is_none());
    assert!(parser.parse("CEF:0|a|b|c|d|e|f|src=10.0.0.5 dpt=53 act=reject").is_none());
    assert!(parser.parse("CEF:0|a|b|c|d|e|f|dpt=53 act=drop").is_none());
}

#[test]
fn cef_words_are_cut_at_any_white_space() {
    let parser = CefParser::new();
    let log = "CEF:0|a|b|c|d|e|f|  src=10.0.0.5\tdpt=53\u{a0}act=drop \u{3000}proto=ICMP  ";
    let event = parser.parse(log).unwrap();
    assert_eq!(event.dest_port, 53);
    assert_eq!(event.protocol, "icmp");
}

#[test]
fn lookup_splits_at_the_first_equals_sign() {
    let list = vec![chars("msg=a=b"), chars("plain"), chars("=x"), chars("k=")];
    assert_eq!(text(lookup(&list, "msg")), Some("a=b".to_string()));
    assert_eq!(text(lookup(&list, "plain")), None);
    assert_eq!(text(lookup(&list, "")), Some("x".to_string()));
    assert_eq!(text(lookup(&list, "k")), Some(String::new()));
    assert_eq!(text(lookup(&list, "a")), None);
}

#[test]
fn test_parse_valid_drop_real_format() {
    let parser = GaiaParser::new().unwrap();
    let log = "Sep 3 15:12:20 192.168.99.1 Checkpoint: 3Sep2007 15:12:08 drop \
        192.168.11.7 >eth8 rule: 113; rule_uid: {AAAAAAAA-9999-8888-FFCF33A92D27}; \
        service_id: http; src: 192.168.11.34; dst: 4.23.34.126; proto: tcp; \
        product: VPN-1 & FireWall-1; service: 80; s_port: 2854;";
    let event = parser.parse(log).unwrap();
    assert_eq!(event.source_ip.to_string(), "192.168.11.34");
    assert_eq!(event.dest_port, 80);
    assert_eq!(event.protocol, "tcp");
    assert_eq!(event.action, "drop");
}

#[test]
fn test_ignore_accept_real_format() {
    let parser = GaiaParser::new().unwrap();
    let log = "Sep 3 15:10:54 192.168.99.1 Checkpoint: 3Sep2007 15:10:28 accept \
        192.168.99.1 >eth2 rule: 9; rule_uid: {11111111-2222-3333-8A67-F54CED606693}; \
        service_id: domain-udp; src: 200.14.120.9; dst: 192.168.99.184; proto: udp; \
        product: VPN-1 & FireWall-1; service: 53; s_port: 32769;";
    assert!(parser.parse(log).is_none());
}

#[test]
fn test_broadcast_drop_no_src() {
    let parser = GaiaParser::new().unwrap();
    let log = "Sep 3 15:10:54 192.168.99.1 Checkpoint: 3Sep2007 15:10:52 drop \
        192.168.99.1 >eth8 rule: 134; rule_uid: {11111111-2222-3333-BD17-711F536C7C33}; \
        dst: 255.255.255.255; proto: udp; product: VPN-1 & FireWall-1; service: 67; \
        s_port: 68;";
    assert!(parser.parse(log).is_none());
}

#[test]
fn test_icmp_drop_no_service() {
    let parser = GaiaParser::new().unwrap();
    let log = "Sep 3 15:12:56 192.168.99.1 Checkpoint: 3Sep2007 15:13:53 drop \
        192.168.11.7 >eth2 rule: 134; rule_uid: {11111111-2222-3333-BD17-711F536C7C33}; \
        ICMP: Echo Request; src: 203.193.149.227; dst: 64.129.8.245; proto: icmp; \
        ICMP Type: 8; ICMP Code: 0; product: VPN-1 & FireWall-1;";
    assert!(parser.parse(log).is_none());
}

#[test]
fn test_drop_with_service_port() {
    let parser = GaiaParser::new().unwrap();
    let log = "Sep 3 15:11:40 192.168.99.1 Checkpoint: 3Sep2007 15:10:54 drop \
        192.168.99.1 >eth8 rule: 134; rule_uid: {11111111-2222-3333-BD17-711F536C7C33}; \
        src: 192.168.99.185; dst: 192.149.252.44; proto: tcp; \
        product: VPN-1 & FireWall-1; service: 43; s_port: 57172;";
    let event = parser.parse(log).unwrap();
    assert_eq!(event.source_ip.to_string(), "192.168.99.185");
    assert_eq!(event.dest_port, 43);
    assert_eq!(event.protocol, "tcp");
    assert_eq!(event.action, "drop");
}

#[test]
fn gaia_test_invalid_log_format() {
    let parser = GaiaParser::new().unwrap();
    let log = "some random text that is not a firewall log";
    assert!(parser.parse(log).is_none());
}

#[test]
fn test_ignore_accept_action() {
    let parser = GaiaParser::new().unwrap();
    let log = "Sep 3 15:12:20 192.168.99.1 Checkpoint: accept 192.168.11.7 proto: tcp; service: 80; s_port: 5000";
    assert!(parser.parse(log).is_none());
}

#[test]
fn gaia_header_is_matched_in_any_case() {
    let parser = GaiaParser::new().unwrap();
    let log = "host CHECKPOINT: 3Sep2007 15:12:08 DROP x >eth8 rule: 1; src: 10.0.0.9; \
        dst: bad; PROTO: udp; service: 53;";
    let event = parser.parse(log).unwrap();
    assert_eq!(event.source_ip, IpAddress::V4(0x0a00_0009));
    assert_eq!(event.dest_ip, None);
    assert_eq!(event.dest_port, 53);
    // the field keys are matched as they are written: `PROTO` is no `proto`
    assert_eq!(event.protocol, "tcp");
    assert_eq!(event.action, "drop");
    assert_eq!(event.raw_log, log);
}

#[test]
fn gaia_protocol_is_lowered() {
    let parser = GaiaParser::new().unwrap();
    let log = "Checkpoint: 3Sep2007 15:12:08 drop x rule: 1; src: 10.0.0.9; proto: UDP; service: 53;";
    assert_eq!(parser.parse(log).unwrap().protocol, "udp");
}

#[test]
fn gaia_needs_date_time_and_action() {
    let parser = GaiaParser::new().unwrap();
    assert!(parser
        .parse("Checkpoint: drop 192.168.11.7 rule: 1; src: 10.0.0.9; proto: tcp; service: 22;")
        .is_none());
    assert!(parser
        .parse("Checkpoint: 3Sep2007 15:12:08 reject x rule: 1; src: 10.0.0.9; service: 22;")
        .is_none());
    assert!(parser
        .parse("Checkpoint: 3Sep2007 15:12:08 drop x rule: 1; src: 10.0.0.9; service: 22;")
        .is_some());
}

#[test]
fn extract_field_takes_the_first_match_and_trims() {
    let ext = chars(" rule: 113;src: 1.2.3.4 ;  src: 5.6.7.8; note:x; proto:  udp\t; empty: ;last: z");
    assert_eq!(text(GaiaParser::extract_field(&ext, "src")), Some("1.2.3.4".to_string()));
    assert_eq!(text(GaiaParser::extract_field(&ext, "rule")), Some("113".to_string()));
    assert_eq!(text(GaiaParser::extract_field(&ext, "proto")), Some("udp".to_string()));
    assert_eq!(text(GaiaParser::extract_field(&ext, "note")), None);
    assert_eq!(text(GaiaParser::extract_field(&ext, "empty")), None);
    assert_eq!(text(GaiaParser::extract_field(&ext, "last")), Some("z".to_string()));
    assert_eq!(text(GaiaParser::extract_field(&ext, "dst")), None);
    assert_eq!(text(GaiaParser::extract_field(&chars(""), "src")), None);
}

#[test]
fn assemble_event_decides_on_action_source_and_port() {
    let src = Some(chars("10.0.0.1"));
    let dst = Some(chars("10.0.0.2"));
    let port = Some(chars("443"));
    let event =
        assemble_event(&src, &dst, &port, "tcp".to_string(), "drop".to_string(), "raw").unwrap();
    assert_eq!(event.source_ip, IpAddress::V4(0x0a00_0001));
    assert_eq!(event.dest_ip, Some(IpAddress::V4(0x0a00_0002)));
    assert_eq!(event.dest_port, 443);
    assert_eq!(event.protocol, "tcp");
    assert_eq!(event.action, "drop");
    assert_eq!(event.raw_log, "raw");
    assert!(assemble_event(&src, &dst, &port, "tcp".to_string(), "Drop".to_string(), "").is_none());
    assert!(assemble_event(&None, &dst, &port, "tcp".to_string(), "drop".to_string(), "").is_none());
    assert!(assemble_event(&src, &dst, &None, "tcp".to_string(), "drop".to_string(), "").is_none());
    assert!(assemble_event(&src, &None, &port, "tcp".to_string(), "drop".to_string(), "").is_some());
    let bad = Some(chars("10.0.0"));
    assert!(assemble_event(&bad, &dst, &port, "tcp".to_string(), "drop".to_string(), "").is_none());
    let bad = Some(chars("4 43"));
    assert!(assemble_event(&src, &dst, &bad, "tcp".to_string(), "drop".to_string(), "").is_none());
}

#[test]
fn create_parser_knows_two_names() {
    match create_parser("gaia") {
        Ok(AnyParser::Gaia(parser)) => assert_eq!(parser.name(), "Checkpoint Gaia (Raw)"),
        _ => panic!("gaia must give the raw-format parser"),
    }
    match create_parser("cef") {
        Ok(AnyParser::Cef(parser)) => assert_eq!(parser.name(), "CEF (ArcSight)"),
        _ => panic!("cef must give the CEF parser"),
    }
    match create_parser("syslog") {
        Err(ParserError::UnknownParser(name)) => assert_eq!(name, "syslog"),
        _ => panic!("an unknown name must be refused"),
    }
    assert!(matches!(create_parser("GAIA"), Err(ParserError::UnknownParser(_))));
    assert!(matches!(create_parser(""), Err(ParserError::UnknownParser(_))));
}

#[test]
fn any_parser_dispatches() {
    let cef = create_parser("cef").unwrap();
    let gaia = create_parser("gaia").unwrap();
    let cef_line = "CEF:0|a|b|c|d|e|f|src=10.0.0.5 dpt=53 act=drop";
    let gaia_line = "Checkpoint: 3Sep2007 15:12:08 drop x rule: 1; src: 10.0.0.9; service: 22;";
    assert!(cef.parse(cef_line).is_some());
    assert!(cef.parse(gaia_line).is_none());
    assert!(gaia.parse(gaia_line).is_some());
    assert!(gaia.parse(cef_line).is_none());
    assert!(cef.expected_format().contains("CEF:0|Vendor|Product|Version|ID|Name|Severity|"));
    assert!(gaia.expected_format().contains("Checkpoint: DDMmmYYYY HH:MM:SS action"));
}

#[test]
fn pattern_that_does_not_compile_gives_no_parser() {
    let broken = regex::Regex::new("(");
    assert!(broken.is_err());
    assert!(matches!(GaiaParser::from_compiled(broken), Err(ParserError::InvalidPattern)));
    let made = select_parser("gaia", Err(ParserError::InvalidPattern));
    assert!(matches!(made, Err(ParserError::InvalidPattern)));
    // the CEF parser does not depend on the pattern
    let made = select_parser("cef", Err(ParserError::InvalidPattern));
    assert!(matches!(made, Ok(AnyParser::Cef(_))));
}

#[test]
fn parser_around_another_pattern_reads_with_that_pattern() {
    let compiled = regex::Regex::new(r"^(drop) ");
    let parser = match GaiaParser::from_compiled(compiled) {
        Ok(parser) => parser,
        Err(_) => panic!("the pattern compiles"),
    };
    let event = parser.parse("drop rule: 1; src: 10.0.0.9; service: 22;").unwrap();
    assert_eq!(event.dest_port, 22);
    assert!(parser.parse("host Checkpoint: 3Sep2007 15:12:08 drop x; src: 10.0.0.9; service: 22;").is_none());
}
