//! What holds of every record that the alerter writes for the SIEM collector:
//! whatever the alert holds, the record is one line.

use vstd::prelude::*;
use crate::alerter::{
    dst_field, event_name, joined_ports, last_comma, lemma_sanitized_is_inert,
    sanitize_cef_spec, scan_label, shortened_ports, shown_len, siem_message_spec, signature_id,
};
use crate::clock::{month_name, signed_decimal, two_digits, two_places, Timestamp};
use crate::config::DetectionConfig;
use crate::detector::AlertView;
use crate::ip::{
    double_colon, groups_of, hex_text, ipv4_text, ipv6_text, is_hex_digit, is_v4_mapped,
    joined_groups, zero_runs, IpAddress,
};
use crate::round_trip::{lemma_decimal_numeral, lemma_hex_numeral};
use crate::text::{decimal, is_digit};

verus! {

/// The text holds neither line feed nor carriage return.
pub open spec fn one_line(s: Seq<char>) -> bool {
    forall|i: int| 0 <= i < s.len() ==> #[trigger] s[i] != '\n' && s[i] != '\r'
}

/// Two texts of one line each join to one line.
pub proof fn lemma_one_line_concat(a: Seq<char>, b: Seq<char>)
    requires
        one_line(a),
        one_line(b),
    ensures
        one_line(a + b),
{
    assert forall|i: int| 0 <= i < (a + b).len() implies #[trigger] (a + b)[i] != '\n' && (a
        + b)[i] != '\r' by {
        if i < a.len() {
            assert((a + b)[i] == a[i]);
        } else {
            assert((a + b)[i] == b[i - a.len()]);
        }
    }
}

/// A decimal numeral is one line.
pub proof fn lemma_decimal_one_line(n: nat)
    ensures
        one_line(decimal(n)),
{
    lemma_decimal_numeral(n);
    assert forall|i: int| 0 <= i < decimal(n).len() implies #[trigger] decimal(n)[i] != '\n'
        && decimal(n)[i] != '\r' by {
        assert(is_digit(decimal(n)[i]));
    }
}

/// A signed decimal numeral is one line.
pub proof fn lemma_signed_one_line(n: int)
    ensures
        one_line(signed_decimal(n)),
{
    if n < 0 {
        lemma_decimal_one_line((-n) as nat);
        lemma_one_line_concat(seq!['-'], decimal((-n) as nat));
    } else {
        lemma_decimal_one_line(n as nat);
    }
}

/// The syslog form of a wall-clock reading is one line.
pub proof fn lemma_stamp_one_line(stamp: Timestamp)
    requires
        stamp.wf(),
    ensures
        one_line(stamp.syslog_stamp()),
{
    assert(one_line(month_name(stamp.month)));
    assert(one_line(two_places(stamp.day)));
    assert(one_line(two_digits(stamp.hour)));
    assert(one_line(two_digits(stamp.minute)));
    assert(one_line(two_digits(stamp.second)));
    let colon = seq![':'];
    let blank = seq![' '];
    let time = stamp.time_of_day();
    lemma_one_line_concat(two_digits(stamp.hour), colon);
    lemma_one_line_concat(two_digits(stamp.hour) + colon, two_digits(stamp.minute));
    lemma_one_line_concat(two_digits(stamp.hour) + colon + two_digits(stamp.minute), colon);
    lemma_one_line_concat(
        two_digits(stamp.hour) + colon + two_digits(stamp.minute) + colon,
        two_digits(stamp.second),
    );
    lemma_one_line_concat(month_name(stamp.month), blank);
    lemma_one_line_concat(month_name(stamp.month) + blank, two_places(stamp.day));
    lemma_one_line_concat(month_name(stamp.month) + blank + two_places(stamp.day), blank);
    lemma_one_line_concat(month_name(stamp.month) + blank + two_places(stamp.day) + blank, time);
}

/// The text of an IPv4 address is one line.
pub proof fn lemma_ipv4_one_line(bits: u32)
    ensures
        one_line(ipv4_text(bits)),
{
    let a = decimal((bits / 16777216) as nat);
    let b = decimal((bits / 65536 % 256) as nat);
    let c = decimal((bits / 256 % 256) as nat);
    let d = decimal((bits % 256) as nat);
    let dot = seq!['.'];
    lemma_decimal_one_line((bits / 16777216) as nat);
    lemma_decimal_one_line((bits / 65536 % 256) as nat);
    lemma_decimal_one_line((bits / 256 % 256) as nat);
    lemma_decimal_one_line((bits % 256) as nat);
    lemma_one_line_concat(a, dot);
    lemma_one_line_concat(a + dot, b);
    lemma_one_line_concat(a + dot + b, dot);
    lemma_one_line_concat(a + dot + b + dot, c);
    lemma_one_line_concat(a + dot + b + dot + c, dot);
    lemma_one_line_concat(a + dot + b + dot + c + dot, d);
}

/// Groups joined by colons are one line.
pub proof fn lemma_joined_one_line(groups: Seq<u16>)
    ensures
        one_line(joined_groups(groups)),
    decreases groups.len(),
{
    if groups.len() > 0 {
        let last = hex_text(groups.last() as nat);
        lemma_hex_numeral(groups.last() as nat);
        assert forall|i: int| 0 <= i < last.len() implies #[trigger] last[i] != '\n' && last[i]
            != '\r' by {
            assert(is_hex_digit(last[i]));
        }
        if groups.len() == 1 {
            assert(groups[0] == groups.last());
        } else {
            lemma_joined_one_line(groups.drop_last());
            lemma_one_line_concat(joined_groups(groups.drop_last()), seq![':']);
            lemma_one_line_concat(joined_groups(groups.drop_last()) + seq![':'], last);
        }
    }
}

/// The text of an IPv6 address is one line.
pub proof fn lemma_ipv6_one_line(bits: u128)
    ensures
        one_line(ipv6_text(bits)),
{
    let groups = groups_of(bits as nat, 8);
    let run = zero_runs(groups, 8).0;
    if is_v4_mapped(groups) {
        let low = (groups[6] as nat * 65536 + groups[7] as nat) as u32;
        lemma_ipv4_one_line(low);
        lemma_one_line_concat(seq![':', ':', 'f', 'f', 'f', 'f', ':'], ipv4_text(low));
    } else if run.len > 1 {
        let head = joined_groups(groups.subrange(0, run.start));
        let tail = joined_groups(groups.subrange(run.start + run.len, 8));
        lemma_joined_one_line(groups.subrange(0, run.start));
        lemma_joined_one_line(groups.subrange(run.start + run.len, 8));
        lemma_one_line_concat(head, double_colon());
        lemma_one_line_concat(head + double_colon(), tail);
    } else {
        lemma_joined_one_line(groups);
    }
}

/// The text of an address is one line.
pub proof fn lemma_address_one_line(ip: IpAddress)
    ensures
        one_line(ip.text()),
{
    match ip {
        IpAddress::V4(bits) => lemma_ipv4_one_line(bits),
        IpAddress::V6(bits) => lemma_ipv6_one_line(bits),
    }
}

/// A port list is one line.
pub proof fn lemma_ports_one_line(ports: Seq<u16>, sep: Seq<char>)
    requires
        one_line(sep),
    ensures
        one_line(joined_ports(ports, sep)),
    decreases ports.len(),
{
    if ports.len() == 1 {
        lemma_decimal_one_line(ports[0] as nat);
    } else if ports.len() > 1 {
        lemma_ports_one_line(ports.drop_last(), sep);
        lemma_decimal_one_line(ports.last() as nat);
        lemma_one_line_concat(joined_ports(ports.drop_last(), sep), sep);
        lemma_one_line_concat(
            joined_ports(ports.drop_last(), sep) + sep,
            decimal(ports.last() as nat),
        );
    }
}

/// The last comma before an index lies before that index, if there is one.
pub proof fn lemma_last_comma_range(s: Seq<char>, below: int)
    ensures
        -1 <= last_comma(s, below),
        below >= 0 ==> last_comma(s, below) < below || last_comma(s, below) == -1,
    decreases below,
{
    if below > 0 && s[below - 1] != ',' {
        lemma_last_comma_range(s, below - 1);
    }
}

/// The first characters of a one-line text are one line.
pub proof fn lemma_prefix_one_line(s: Seq<char>, len: int)
    requires
        one_line(s),
        0 <= len <= s.len(),
    ensures
        one_line(s.subrange(0, len)),
{
    assert forall|i: int| 0 <= i < len implies #[trigger] s.subrange(0, len)[i] != '\n'
        && s.subrange(0, len)[i] != '\r' by {
        assert(s.subrange(0, len)[i] == s[i]);
    }
}

/// A shortened port list is one line.
pub proof fn lemma_shortened_one_line(full: Seq<char>)
    requires
        one_line(full),
    ensures
        one_line(shortened_ports(full)),
{
    reveal_strlit("...");
    if full.len() > shown_len() {
        lemma_last_comma_range(full, shown_len());
        let cut = if last_comma(full, shown_len()) >= 0 {
            last_comma(full, shown_len())
        } else {
            shown_len()
        };
        lemma_prefix_one_line(full, cut);
        lemma_one_line_concat(full.subrange(0, cut), "..."@);
    }
}

/// A sanitized text is one line.
pub proof fn lemma_sanitized_one_line(s: Seq<char>)
    ensures
        one_line(sanitize_cef_spec(s)),
{
    lemma_sanitized_is_inert(s);
}

/// The record for an alert is one line, whatever the alert holds: no value
/// in it can end the record and start another.
pub proof fn lemma_siem_message_is_one_line(cfg: DetectionConfig, alert: AlertView)
    requires
        alert.timestamp.wf(),
    ensures
        one_line(siem_message_spec(cfg, alert)),
{
    reveal_strlit("<38>");
    reveal_strlit(" ids-rs CEF:0|IDS-RS|Network Scanner Detector|1.0|");
    reveal_strlit("1001");
    reveal_strlit("1002");
    reveal_strlit("1003");
    reveal_strlit("|");
    reveal_strlit("|7|rt=");
    reveal_strlit(" src=");
    reveal_strlit(" dst=");
    reveal_strlit(" cnt=");
    reveal_strlit(" act=alert msg=");
    reveal_strlit(" | ports: ");
    reveal_strlit(" cs1Label=ScannedPorts cs1=");
    reveal_strlit(",");
    let count = alert.unique_ports.len();
    let full = joined_ports(alert.unique_ports, ","@);
    lemma_stamp_one_line(alert.timestamp);
    lemma_sanitized_one_line(event_name(alert.scan_type));
    lemma_signed_one_line(alert.timestamp.unix_millis as int);
    lemma_address_one_line(alert.source_ip);
    lemma_decimal_one_line(count);
    lemma_sanitized_one_line(scan_label(alert.scan_type, count, cfg));
    lemma_ports_one_line(alert.unique_ports, ","@);
    lemma_shortened_one_line(full);
    assert(one_line(signature_id(alert.scan_type)));
    assert(one_line(dst_field(alert.dest_ip))) by {
        match alert.dest_ip {
            Some(ip) => {
                lemma_address_one_line(ip);
                lemma_one_line_concat(" dst="@, ip.text());
            },
            None => {},
        }
    }
    let p1 = "<38>"@ + alert.timestamp.syslog_stamp();
    lemma_one_line_concat("<38>"@, alert.timestamp.syslog_stamp());
    let p2 = p1 + " ids-rs CEF:0|IDS-RS|Network Scanner Detector|1.0|"@;
    lemma_one_line_concat(p1, " ids-rs CEF:0|IDS-RS|Network Scanner Detector|1.0|"@);
    let p3 = p2 + signature_id(alert.scan_type);
    lemma_one_line_concat(p2, signature_id(alert.scan_type));
    let p4 = p3 + "|"@;
    lemma_one_line_concat(p3, "|"@);
    let p5 = p4 + sanitize_cef_spec(event_name(alert.scan_type));
    lemma_one_line_concat(p4, sanitize_cef_spec(event_name(alert.scan_type)));
    let p6 = p5 + "|7|rt="@;
    lemma_one_line_concat(p5, "|7|rt="@);
    let p7 = p6 + signed_decimal(alert.timestamp.unix_millis as int);
    lemma_one_line_concat(p6, signed_decimal(alert.timestamp.unix_millis as int));
    let p8 = p7 + " src="@;
    lemma_one_line_concat(p7, " src="@);
    let p9 = p8 + alert.source_ip.text();
    lemma_one_line_concat(p8, alert.source_ip.text());
    let p10 = p9 + dst_field(alert.dest_ip);
    lemma_one_line_concat(p9, dst_field(alert.dest_ip));
    let p11 = p10 + " cnt="@;
    lemma_one_line_concat(p10, " cnt="@);
    let p12 = p11 + decimal(count);
    lemma_one_line_concat(p11, decimal(count));
    let p13 = p12 + " act=alert msg="@;
    lemma_one_line_concat(p12, " act=alert msg="@);
    let p14 = p13 + sanitize_cef_spec(scan_label(alert.scan_type, count, cfg));
    lemma_one_line_concat(p13, sanitize_cef_spec(scan_label(alert.scan_type, count, cfg)));
    let p15 = p14 + " | ports: "@;
    lemma_one_line_concat(p14, " | ports: "@);
    let p16 = p15 + shortened_ports(full);
    lemma_one_line_concat(p15, shortened_ports(full));
    let p17 = p16 + " cs1Label=ScannedPorts cs1="@;
    lemma_one_line_concat(p16, " cs1Label=ScannedPorts cs1="@);
    lemma_one_line_concat(p17, full);
}

} // verus!
