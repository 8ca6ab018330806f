//! Alert serialization: the CEF record for the SIEM collector and the HTML
//! message for the mail relay. Nothing here sends anything; the transports
//! take what these functions build.

use vstd::prelude::*;
use crate::clock::{push_signed, signed_decimal};
use crate::config::{AlertingConfig, DetectionConfig};
use crate::detector::{Alert, AlertView, ScanType};
use crate::ip::IpAddress;
use crate::text::{
    chars_of, decimal, lemma_replace_char_concat, push_chars, push_decimal, push_str,
    replace_all, replace_char, replace_char_spec, replace_spec, string_of, texts,
};

verus! {

/// A field value escaped for a CEF record: first every backslash is doubled,
/// then every pipe, line feed and carriage return becomes a backslash
/// sequence.
pub open spec fn sanitize_cef_spec(input: Seq<char>) -> Seq<char> {
    replace_char_spec(
        replace_char_spec(
            replace_char_spec(
                replace_char_spec(input, '\\', seq!['\\', '\\']),
                '|',
                seq!['\\', '|'],
            ),
            '\n',
            seq!['\\', 'n'],
        ),
        '\r',
        seq!['\\', 'r'],
    )
}

/// Escapes a field value for a CEF record, so that it can neither end a
/// header field nor start a new line.
pub fn sanitize_cef(input: &str) -> (output: String)
    ensures
        output@ == sanitize_cef_spec(input@),
{
    string_of(&sanitize_chars(&chars_of(input)))
}

/// Escapes a field value for a CEF record.
pub fn sanitize_chars(input: &Vec<char>) -> (output: Vec<char>)
    ensures
        output@ == sanitize_cef_spec(input@),
{
    proof {
        reveal_strlit("\\\\");
        reveal_strlit("\\|");
        reveal_strlit("\\n");
        reveal_strlit("\\r");
        assert("\\\\"@ =~= seq!['\\', '\\']);
        assert("\\|"@ =~= seq!['\\', '|']);
        assert("\\n"@ =~= seq!['\\', 'n']);
        assert("\\r"@ =~= seq!['\\', 'r']);
    }
    let step1 = replace_char(input, '\\', "\\\\");
    let step2 = replace_char(&step1, '|', "\\|");
    let step3 = replace_char(&step2, '\n', "\\n");
    replace_char(&step3, '\r', "\\r")
}

/// What sanitizing makes of one character.
pub open spec fn escaped(c: char) -> Seq<char> {
    if c == '\\' {
        seq!['\\', '\\']
    } else if c == '|' {
        seq!['\\', '|']
    } else if c == '\n' {
        seq!['\\', 'n']
    } else if c == '\r' {
        seq!['\\', 'r']
    } else {
        seq![c]
    }
}

/// The text with each character replaced by its escaped form.
pub open spec fn escape_each(s: Seq<char>) -> Seq<char>
    decreases s.len(),
{
    if s.len() == 0 {
        Seq::empty()
    } else {
        escape_each(s.drop_last()) + escaped(s.last())
    }
}

/// One of the four characters that sanitizing rewrites.
pub open spec fn is_special(c: char) -> bool {
    c == '\\' || c == '|' || c == '\n' || c == '\r'
}

/// The text holds none of the four characters that sanitizing rewrites.
pub open spec fn is_clean(s: Seq<char>) -> bool {
    forall|i: int| 0 <= i < s.len() ==> !is_special(#[trigger] s[i])
}

proof fn lemma_replace_one(a: char, from: char, to: Seq<char>)
    ensures
        replace_char_spec(seq![a], from, to) == if a == from {
            to
        } else {
            seq![a]
        },
{
    reveal_with_fuel(replace_char_spec, 2);
    let one = seq![a];
    assert(replace_char_spec(one, from, to) =~= if a == from {
        to
    } else {
        seq![a]
    });
}

proof fn lemma_replace_two(a: char, b: char, from: char, to: Seq<char>)
    ensures
        replace_char_spec(seq![a, b], from, to) == (if a == from {
            to
        } else {
            seq![a]
        }) + (if b == from {
            to
        } else {
            seq![b]
        }),
{
    assert(seq![a, b] =~= seq![a] + seq![b]);
    lemma_replace_char_concat(seq![a], seq![b], from, to);
    lemma_replace_one(a, from, to);
    lemma_replace_one(b, from, to);
}

proof fn lemma_sanitize_one(c: char)
    ensures
        sanitize_cef_spec(seq![c]) == escaped(c),
{
    lemma_replace_one(c, '\\', seq!['\\', '\\']);
    if c == '\\' {
        lemma_replace_two('\\', '\\', '|', seq!['\\', '|']);
        assert(seq!['\\'] + seq!['\\'] =~= seq!['\\', '\\']);
        lemma_replace_two('\\', '\\', '\n', seq!['\\', 'n']);
        lemma_replace_two('\\', '\\', '\r', seq!['\\', 'r']);
    } else {
        lemma_replace_one(c, '|', seq!['\\', '|']);
        if c == '|' {
            lemma_replace_two('\\', '|', '\n', seq!['\\', 'n']);
            assert(seq!['\\'] + seq!['|'] =~= seq!['\\', '|']);
            lemma_replace_two('\\', '|', '\r', seq!['\\', 'r']);
        } else {
            lemma_replace_one(c, '\n', seq!['\\', 'n']);
            if c == '\n' {
                lemma_replace_two('\\', 'n', '\r', seq!['\\', 'r']);
            } else {
                lemma_replace_one(c, '\r', seq!['\\', 'r']);
            }
        }
    }
}

/// Sanitizing a joined text is sanitizing both parts.
pub proof fn lemma_sanitize_concat(a: Seq<char>, b: Seq<char>)
    ensures
        sanitize_cef_spec(a + b) == sanitize_cef_spec(a) + sanitize_cef_spec(b),
{
    let bs = seq!['\\', '\\'];
    let a1 = replace_char_spec(a, '\\', bs);
    let b1 = replace_char_spec(b, '\\', bs);
    lemma_replace_char_concat(a, b, '\\', bs);
    let pipe = seq!['\\', '|'];
    let a2 = replace_char_spec(a1, '|', pipe);
    let b2 = replace_char_spec(b1, '|', pipe);
    lemma_replace_char_concat(a1, b1, '|', pipe);
    let lf = seq!['\\', 'n'];
    let a3 = replace_char_spec(a2, '\n', lf);
    let b3 = replace_char_spec(b2, '\n', lf);
    lemma_replace_char_concat(a2, b2, '\n', lf);
    lemma_replace_char_concat(a3, b3, '\r', seq!['\\', 'r']);
}

/// The four replacements in their order amount to escaping each character
/// on its own: no later replacement touches what an earlier one wrote.
pub proof fn lemma_sanitize_escapes_each(s: Seq<char>)
    ensures
        sanitize_cef_spec(s) == escape_each(s),
    decreases s.len(),
{
    if s.len() > 0 {
        lemma_sanitize_escapes_each(s.drop_last());
        assert(s =~= s.drop_last() + seq![s.last()]);
        lemma_sanitize_concat(s.drop_last(), seq![s.last()]);
        lemma_sanitize_one(s.last());
    }
}

/// Sanitized output holds no line feed and no carriage return, and every
/// pipe in it stands directly behind a backslash.
pub proof fn lemma_sanitized_is_inert(s: Seq<char>)
    ensures
        forall|i: int|
            0 <= i < sanitize_cef_spec(s).len() ==> #[trigger] sanitize_cef_spec(s)[i] != '\n'
                && sanitize_cef_spec(s)[i] != '\r',
        forall|i: int|
            0 <= i < sanitize_cef_spec(s).len() && #[trigger] sanitize_cef_spec(s)[i] == '|' ==> i
                > 0 && sanitize_cef_spec(s)[i - 1] == '\\',
    decreases s.len(),
{
    lemma_sanitize_escapes_each(s);
    if s.len() > 0 {
        lemma_sanitized_is_inert(s.drop_last());
        lemma_sanitize_escapes_each(s.drop_last());
    }
}

/// Sanitizing never shortens a text, and lengthens one that is not clean.
pub proof fn lemma_sanitize_len(s: Seq<char>)
    ensures
        sanitize_cef_spec(s).len() >= s.len(),
        !is_clean(s) ==> sanitize_cef_spec(s).len() > s.len(),
        is_clean(s) ==> sanitize_cef_spec(s) == s,
    decreases s.len(),
{
    lemma_sanitize_escapes_each(s);
    if s.len() > 0 {
        let front = s.drop_last();
        lemma_sanitize_len(front);
        lemma_sanitize_escapes_each(front);
        if is_clean(s) {
        } else {
            let i = choose|i: int| 0 <= i < s.len() && is_special(#[trigger] s[i]);
            if i < front.len() {
                assert(front[i] == s[i]);
            }
        }
    }
}

/// A sanitized text is clean only if the text was clean.
pub proof fn lemma_sanitized_clean_only_if_clean(s: Seq<char>)
    ensures
        is_clean(sanitize_cef_spec(s)) ==> is_clean(s),
    decreases s.len(),
{
    lemma_sanitize_escapes_each(s);
    if s.len() > 0 && !is_clean(s) {
        let front = s.drop_last();
        lemma_sanitize_escapes_each(front);
        lemma_sanitized_clean_only_if_clean(front);
        let head = escape_each(front);
        let all = escape_each(s);
        if is_special(s.last()) {
            assert(is_special(all[head.len() as int]));
        } else {
            let i = choose|i: int| 0 <= i < s.len() && is_special(#[trigger] s[i]);
            assert(front[i] == s[i]);
            let j = choose|j: int| 0 <= j < head.len() && is_special(#[trigger] head[j]);
            assert(is_special(all[j]));
        }
    }
}

/// Sanitizing a second time changes nothing exactly when the text was clean
/// to begin with. On any other text the second pass escapes the backslashes
/// that the first pass wrote.
pub proof fn lemma_sanitize_idempotent_iff_clean(s: Seq<char>)
    ensures
        sanitize_cef_spec(sanitize_cef_spec(s)) == sanitize_cef_spec(s) <==> is_clean(s),
{
    lemma_sanitize_len(s);
    lemma_sanitize_len(sanitize_cef_spec(s));
    lemma_sanitized_clean_only_if_clean(s);
}

/// The HTML message, with a placeholder for each value.
pub const HTML_TEMPLATE: &'static str = r#"<!DOCTYPE html>
<html lang="ro">
<head>
<meta charset="utf-8">
<meta name="viewport" content="width=device-width, initial-scale=1.0">
<style>
  * { box-sizing: border-box; margin: 0; padding: 0; }
  body { font-family: Arial, Helvetica, sans-serif; background: #f0f2f5; padding: 20px; }
  .wrap { max-width: 620px; margin: 0 auto; background: #fff; border-radius: 6px;
          overflow: hidden; box-shadow: 0 2px 10px rgba(0,0,0,0.12); }
  /* HEADER */
  .hdr { background: linear-gradient(135deg, #c0392b 0%, #96281b 100%);
         color: #fff; padding: 24px 28px; }
  .hdr-label { font-size: 10px; text-transform: uppercase; letter-spacing: 2px;
               opacity: 0.7; margin-bottom: 10px; }
  .hdr h1 { font-size: 21px; font-weight: 700; margin-bottom: 12px; }
  .badge { display: inline-block; background: rgba(255,255,255,0.18);
           color: #fff; padding: 3px 11px; border-radius: 12px;
           font-size: 11px; font-weight: bold; margin-right: 6px; }
  /* SECTIUNI */
  .sec { padding: 18px 28px; border-bottom: 1px solid #ecf0f1; }
  .sec-title { font-size: 10px; text-transform: uppercase; letter-spacing: 1.5px;
               color: #95a5a6; font-weight: bold; margin-bottom: 12px; }
  /* TABEL DETALII */
  .tbl { width: 100%; border-collapse: collapse; }
  .tbl td { padding: 7px 0; border-bottom: 1px solid #f4f6f8;
            font-size: 13px; vertical-align: top; }
  .tbl td:first-child { color: #7f8c8d; width: 155px; }
  .tbl td:last-child { color: #2c3e50; font-weight: 600; }
  .tbl tr:last-child td { border-bottom: none; }
  /* PORTURI */
  .ports-box { background: #fdf3f3; border-left: 4px solid #c0392b;
               padding: 11px 14px; font-family: 'Courier New', monospace;
               font-size: 12px; color: #2c3e50; line-height: 1.7;
               word-break: break-all; border-radius: 0 4px 4px 0; }
  /* COMENZI */
  .cmd-box { background: #1a2332; border-radius: 5px; padding: 16px 18px; }
  .cmd-comment { color: #5d7a99; font-family: 'Courier New', monospace;
                 font-size: 11.5px; display: block; margin-top: 12px; }
  .cmd-comment:first-child { margin-top: 0; }
  .cmd-line { color: #a8d4a8; font-family: 'Courier New', monospace;
              font-size: 12.5px; display: block; margin-top: 4px; word-break: break-all; }
  /* FOOTER */
  .footer { background: #1e2a38; padding: 22px 28px; text-align: center; }
  .footer pre { color: #5d8aa8; font-size: 10px; font-family: 'Courier New', monospace;
                line-height: 1.5; margin-bottom: 14px; display: inline-block;
                text-align: left; }
  .footer p { color: #5d6d7e; font-size: 11px; }
</style>
</head>
<body>
<div class="wrap">

  <div class="hdr">
    <div class="hdr-label">IDS-RS &mdash; Intrusion Detection System</div>
    <h1>&#x1F534; ALERTA SCANARE RETEA</h1>
    <span class="badge">__SCAN_TYPE__</span>
    <span class="badge">Severitate: __SEVERITY__</span>
  </div>

  <div class="sec">
    <div class="sec-title">Detalii eveniment</div>
    <table class="tbl">
      <tr><td>IP Sursa</td><td>__SRC_IP__</td></tr>
      <tr><td>IP Destinatie</td><td>__DST_IP__</td></tr>
      <tr><td>Porturi scanate</td><td>__PORT_COUNT__</td></tr>
      <tr><td>Timestamp</td><td>__TIMESTAMP__</td></tr>
    </table>
  </div>

  <div class="sec">
    <div class="sec-title">Porturi detectate</div>
    <div class="ports-box">__PORTS__</div>
  </div>

  <div class="footer">
    <pre>__FOOTER__</pre>
    <p>Generat automat de IDS-RS &nbsp;|&nbsp; Nu raspundeti la acest email</p>
  </div>

  <div class="sec" style="border-bottom: none;">
    <div class="sec-title">Comenzi rapide &mdash; RHEL 9.6</div>
    <div class="cmd-box">
      <span class="cmd-comment"># Conexiuni active de la/catre acest IP:</span>
      <span class="cmd-line">ss -tnp | grep __SRC_IP__</span>
      <span class="cmd-comment"># Cautare in log-urile de securitate si sistem:</span>
      <span class="cmd-line">grep __SRC_IP__ /var/log/secure /var/log/messages 2>/dev/null</span>
      <span class="cmd-comment"># Cautare in journal (ultimele 200 linii):</span>
      <span class="cmd-line">journalctl -n 200 --no-pager | grep __SRC_IP__</span>
      <span class="cmd-comment"># Captura live trafic de la acest IP (primele 30 pachete):</span>
      <span class="cmd-line">tcpdump -i any host __SRC_IP__ -n -c 30</span>
      <span class="cmd-comment"># Blocare imediata cu firewalld (persistenta):</span>
      <span class="cmd-line">firewall-cmd --add-rich-rule='rule family="ipv4" source address="__SRC_IP__" drop' --permanent &amp;&amp; firewall-cmd --reload</span>
      <span class="cmd-comment"># Verificare daca IP-ul este activ in retea (ARP):</span>
      <span class="cmd-line">ip neigh show | grep __SRC_IP__</span>
    </div>
  </div>

</div>
</body>
</html>"#;

/// The signature identifier of a rule in the CEF header.
pub open spec fn signature_id(rule: ScanType) -> Seq<char> {
    match rule {
        ScanType::Fast => "1001"@,
        ScanType::Slow => "1002"@,
        ScanType::AcceptScan => "1003"@,
    }
}

/// The event name of a rule in the CEF header.
pub open spec fn event_name(rule: ScanType) -> Seq<char> {
    match rule {
        ScanType::Fast => "Fast Port Scan Detected"@,
        ScanType::Slow => "Slow Port Scan Detected"@,
        ScanType::AcceptScan => "Accept Port Scan Detected"@,
    }
}

/// The sentence that says what was detected: the rule, the number of ports
/// and the rule's window.
pub open spec fn scan_label(rule: ScanType, count: nat, cfg: DetectionConfig) -> Seq<char> {
    match rule {
        ScanType::Fast => "Fast Scan detectat: "@ + decimal(count) + " porturi unice in "@
            + decimal(cfg.fast_scan.time_window_secs as nat) + " secunde"@,
        ScanType::Slow => "Slow Scan detectat: "@ + decimal(count) + " porturi unice in "@
            + decimal(cfg.slow_scan.time_window_mins as nat) + " minute"@,
        ScanType::AcceptScan => "Accept Scan detectat: "@ + decimal(count)
            + " porturi unice in "@ + decimal(cfg.accept_scan.time_window_secs as nat)
            + " secunde"@,
    }
}

/// The ports in decimal, joined by the separator.
pub open spec fn joined_ports(ports: Seq<u16>, sep: Seq<char>) -> Seq<char>
    decreases ports.len(),
{
    if ports.len() == 0 {
        Seq::empty()
    } else if ports.len() == 1 {
        decimal(ports[0] as nat)
    } else {
        joined_ports(ports.drop_last(), sep) + sep + decimal(ports.last() as nat)
    }
}

/// The index of the last comma before index `below`, or -1 where there is
/// none.
pub open spec fn last_comma(s: Seq<char>, below: int) -> int
    decreases below,
{
    if below <= 0 {
        -1
    } else if s[below - 1] == ',' {
        below - 1
    } else {
        last_comma(s, below - 1)
    }
}

/// The longest port list that the message text shows in full.
pub open spec fn shown_len() -> int {
    512
}

/// The port list as the message text shows it: in full up to 512 characters;
/// a longer one cut before the last comma among its first 512 characters (at
/// 512 where there is no comma), with three dots behind.
pub open spec fn shortened_ports(full: Seq<char>) -> Seq<char> {
    if full.len() <= shown_len() {
        full
    } else if last_comma(full, shown_len()) >= 0 {
        full.subrange(0, last_comma(full, shown_len())) + "..."@
    } else {
        full.subrange(0, shown_len()) + "..."@
    }
}

/// The destination field of the CEF extension, absent with the address.
pub open spec fn dst_field(dest_ip: Option<IpAddress>) -> Seq<char> {
    match dest_ip {
        Some(ip) => " dst="@ + ip.text(),
        None => Seq::empty(),
    }
}

/// The syslog-framed CEF record for an alert.
pub open spec fn siem_message_spec(cfg: DetectionConfig, alert: AlertView) -> Seq<char> {
    "<38>"@ + alert.timestamp.syslog_stamp()
        + " ids-rs CEF:0|IDS-RS|Network Scanner Detector|1.0|"@ + signature_id(alert.scan_type)
        + "|"@ + sanitize_cef_spec(event_name(alert.scan_type)) + "|7|rt="@ + signed_decimal(
        alert.timestamp.unix_millis as int,
    ) + " src="@ + alert.source_ip.text() + dst_field(alert.dest_ip) + " cnt="@ + decimal(
        alert.unique_ports.len(),
    ) + " act=alert msg="@ + sanitize_cef_spec(
        scan_label(alert.scan_type, alert.unique_ports.len(), cfg),
    ) + " | ports: "@ + shortened_ports(joined_ports(alert.unique_ports, ","@))
        + " cs1Label=ScannedPorts cs1="@ + joined_ports(alert.unique_ports, ","@)
}

/// The most ports that the mail body lists one by one.
pub open spec fn listed_ports() -> int {
    30
}

/// The port list as the mail body shows it: every port up to thirty; of more
/// the first thirty and the number of the others.
pub open spec fn displayed_ports(ports: Seq<u16>) -> Seq<char> {
    if ports.len() <= listed_ports() {
        joined_ports(ports, ", "@)
    } else {
        joined_ports(ports.take(listed_ports()), ", "@) + " + "@ + decimal(
            (ports.len() - listed_ports()) as nat,
        ) + " more"@
    }
}

/// The subject line of the mail for an alert.
pub open spec fn email_subject_spec(alert: AlertView) -> Seq<char> {
    "\u{1F534} ["@ + alert.scan_type.label() + "][SCANARE RETEA] IDS-RS "@
        + alert.source_ip.text() + " "@ + decimal(alert.unique_ports.len()) + " porturi"@
}

/// A text escaped for HTML: the ampersand first, then the two angle
/// brackets.
pub open spec fn html_escape_spec(s: Seq<char>) -> Seq<char> {
    replace_char_spec(
        replace_char_spec(replace_char_spec(s, '&', "&amp;"@), '<', "&lt;"@),
        '>',
        "&gt;"@,
    )
}

/// The HTML message with its placeholders filled in, one after the other;
/// the footer is escaped for HTML.
pub open spec fn html_body_spec(
    scan_type: Seq<char>,
    severity: Seq<char>,
    src_ip: Seq<char>,
    dst_ip: Seq<char>,
    port_count: nat,
    timestamp: Seq<char>,
    ports: Seq<char>,
    footer: Seq<char>,
) -> Seq<char> {
    replace_spec(
        replace_spec(
            replace_spec(
                replace_spec(
                    replace_spec(
                        replace_spec(
                            replace_spec(
                                replace_spec(HTML_TEMPLATE@, "__SCAN_TYPE__"@, scan_type),
                                "__SEVERITY__"@,
                                severity,
                            ),
                            "__SRC_IP__"@,
                            src_ip,
                        ),
                        "__DST_IP__"@,
                        dst_ip,
                    ),
                    "__PORT_COUNT__"@,
                    decimal(port_count),
                ),
                "__TIMESTAMP__"@,
                timestamp,
            ),
            "__PORTS__"@,
            ports,
        ),
        "__FOOTER__"@,
        html_escape_spec(footer),
    )
}

/// The destination address as the mail body shows it.
pub open spec fn displayed_dest(dest_ip: Option<IpAddress>) -> Seq<char> {
    match dest_ip {
        Some(ip) => ip.text(),
        None => "N/A"@,
    }
}

/// The HTML body of the mail for an alert.
pub open spec fn email_body_spec(footer: Seq<char>, alert: AlertView) -> Seq<char> {
    html_body_spec(
        alert.scan_type.label(),
        "RIDICATA"@,
        alert.source_ip.text(),
        displayed_dest(alert.dest_ip),
        alert.unique_ports.len(),
        alert.timestamp.display_stamp(),
        displayed_ports(alert.unique_ports),
        footer,
    )
}

/// Fills one placeholder of a text.
fn fill(text: &Vec<char>, placeholder: &str, value: &Vec<char>) -> (filled: Vec<char>)
    requires
        placeholder@.len() > 0,
    ensures
        filled@ == replace_spec(text@, placeholder@, value@),
{
    replace_all(text, &chars_of(placeholder), value)
}

/// Builds the HTML body of a mail from its values. The footer is escaped for
/// HTML; the other values are taken as they are.
pub fn build_html_body(
    scan_type: &str,
    severity: &str,
    src_ip: &str,
    dst_ip: &str,
    port_count: usize,
    timestamp: &str,
    ports: &str,
    footer: &str,
) -> (body: String)
    ensures
        body@ == html_body_spec(
            scan_type@,
            severity@,
            src_ip@,
            dst_ip@,
            port_count as nat,
            timestamp@,
            ports@,
            footer@,
        ),
{
    proof {
        reveal_strlit("__SCAN_TYPE__");
        reveal_strlit("__SEVERITY__");
        reveal_strlit("__SRC_IP__");
        reveal_strlit("__DST_IP__");
        reveal_strlit("__PORT_COUNT__");
        reveal_strlit("__TIMESTAMP__");
        reveal_strlit("__PORTS__");
        reveal_strlit("__FOOTER__");
    }
    let footer_chars = chars_of(footer);
    let escaped_amp = replace_char(&footer_chars, '&', "&amp;");
    let escaped_lt = replace_char(&escaped_amp, '<', "&lt;");
    let footer_safe = replace_char(&escaped_lt, '>', "&gt;");
    let mut count: Vec<char> = Vec::new();
    push_decimal(&mut count, port_count as u128);

    let template = chars_of(HTML_TEMPLATE);
    let step1 = fill(&template, "__SCAN_TYPE__", &chars_of(scan_type));
    let step2 = fill(&step1, "__SEVERITY__", &chars_of(severity));
    let step3 = fill(&step2, "__SRC_IP__", &chars_of(src_ip));
    let step4 = fill(&step3, "__DST_IP__", &chars_of(dst_ip));
    let step5 = fill(&step4, "__PORT_COUNT__", &count);
    let step6 = fill(&step5, "__TIMESTAMP__", &chars_of(timestamp));
    let step7 = fill(&step6, "__PORTS__", &chars_of(ports));
    let step8 = fill(&step7, "__FOOTER__", &footer_safe);
    string_of(&step8)
}

/// Appends the first `count` ports in decimal, joined by the separator.
fn push_joined_ports(out: &mut Vec<char>, ports: &Vec<u16>, count: usize, sep: &str)
    requires
        count <= ports@.len(),
    ensures
        final(out)@ == old(out)@ + joined_ports(ports@.take(count as int), sep@),
{
    let mut i: usize = 0;
    while i < count
        invariant
            i <= count <= ports@.len(),
            out@ == old(out)@ + joined_ports(ports@.take(i as int), sep@),
        decreases count - i,
    {
        let ghost done = ports@.take(i as int);
        let ghost next = ports@.take(i + 1);
        proof {
            assert(next.drop_last() =~= done);
        }
        if i > 0 {
            push_str(out, sep);
        }
        push_decimal(out, ports[i] as u128);
        i += 1;
    }
}

/// The index of the last comma before index `below`, if there is one.
fn find_last_comma(s: &Vec<char>, below: usize) -> (at: Option<usize>)
    requires
        below <= s@.len(),
    ensures
        at is Some ==> at->0 == last_comma(s@, below as int) && at->0 < below,
        at is None ==> last_comma(s@, below as int) == -1,
{
    let mut i: usize = below;
    while i > 0
        invariant
            i <= below <= s@.len(),
            last_comma(s@, below as int) == last_comma(s@, i as int),
        decreases i,
    {
        if s[i - 1] == ',' {
            return Some(i - 1);
        }
        i -= 1;
    }
    None
}

/// Appends the sentence that says what was detected.
fn scan_label_chars(rule: ScanType, count: usize, cfg: &DetectionConfig) -> (label: Vec<char>)
    ensures
        label@ == scan_label(rule, count as nat, *cfg),
{
    let mut out: Vec<char> = Vec::new();
    match rule {
        ScanType::Fast => {
            push_str(&mut out, "Fast Scan detectat: ");
            push_decimal(&mut out, count as u128);
            push_str(&mut out, " porturi unice in ");
            push_decimal(&mut out, cfg.fast_scan.time_window_secs as u128);
            push_str(&mut out, " secunde");
        },
        ScanType::Slow => {
            push_str(&mut out, "Slow Scan detectat: ");
            push_decimal(&mut out, count as u128);
            push_str(&mut out, " porturi unice in ");
            push_decimal(&mut out, cfg.slow_scan.time_window_mins as u128);
            push_str(&mut out, " minute");
        },
        ScanType::AcceptScan => {
            push_str(&mut out, "Accept Scan detectat: ");
            push_decimal(&mut out, count as u128);
            push_str(&mut out, " porturi unice in ");
            push_decimal(&mut out, cfg.accept_scan.time_window_secs as u128);
            push_str(&mut out, " secunde");
        },
    }
    out
}

/// The port list as the message text shows it.
fn shorten_ports(full: &Vec<char>) -> (shown: Vec<char>)
    ensures
        shown@ == shortened_ports(full@),
{
    if full.len() <= 512 {
        let mut shown: Vec<char> = Vec::new();
        push_chars(&mut shown, full);
        return shown;
    }
    let cut = match find_last_comma(full, 512) {
        Some(at) => at,
        None => 512,
    };
    let mut shown = crate::text::slice(full, 0, cut);
    push_str(&mut shown, "...");
    shown
}

/// The signature identifier and the event name of a rule.
fn rule_names(rule: ScanType) -> (names: (&'static str, &'static str))
    ensures
        names.0@ == signature_id(rule),
        names.1@ == event_name(rule),
{
    match rule {
        ScanType::Fast => ("1001", "Fast Port Scan Detected"),
        ScanType::Slow => ("1002", "Slow Port Scan Detected"),
        ScanType::AcceptScan => ("1003", "Accept Port Scan Detected"),
    }
}

/// Builds the syslog-framed CEF record for an alert: the header fields, then
/// the extension with time, addresses, port count, the message text with the
/// shortened port list, and the full port list.
pub fn siem_message(detection: &DetectionConfig, alert: &Alert) -> (message: String)
    requires
        alert.timestamp.wf(),
    ensures
        message@ == siem_message_spec(*detection, alert@),
{
    let names = rule_names(alert.scan_type);
    let count = alert.unique_ports.len();
    let label = sanitize_chars(&scan_label_chars(alert.scan_type, count, detection));
    let name = sanitize_chars(&chars_of(names.1));
    let mut full: Vec<char> = Vec::new();
    push_joined_ports(&mut full, &alert.unique_ports, count, ",");
    proof {
        assert(alert.unique_ports@.take(count as int) =~= alert.unique_ports@);
    }
    let shown = shorten_ports(&full);

    let mut out: Vec<char> = Vec::new();
    push_str(&mut out, "<38>");
    alert.timestamp.push_syslog_stamp(&mut out);
    push_str(&mut out, " ids-rs CEF:0|IDS-RS|Network Scanner Detector|1.0|");
    push_str(&mut out, names.0);
    push_str(&mut out, "|");
    push_chars(&mut out, &name);
    push_str(&mut out, "|7|rt=");
    push_signed(&mut out, alert.timestamp.unix_millis);
    push_str(&mut out, " src=");
    alert.source_ip.push_text(&mut out);
    let ghost before_dst = out@;
    match alert.dest_ip {
        Some(ip) => {
            push_str(&mut out, " dst=");
            ip.push_text(&mut out);
        },
        None => {},
    }
    assert(out@ =~= before_dst + dst_field(alert.dest_ip));
    push_str(&mut out, " cnt=");
    push_decimal(&mut out, count as u128);
    push_str(&mut out, " act=alert msg=");
    push_chars(&mut out, &label);
    push_str(&mut out, " | ports: ");
    push_chars(&mut out, &shown);
    push_str(&mut out, " cs1Label=ScannedPorts cs1=");
    push_chars(&mut out, &full);
    string_of(&out)
}

/// Builds the subject line of the mail for an alert.
pub fn email_subject(alert: &Alert) -> (subject: String)
    ensures
        subject@ == email_subject_spec(alert@),
{
    let mut out: Vec<char> = Vec::new();
    push_str(&mut out, "\u{1F534} [");
    let label = alert.scan_type.to_string();
    push_str(&mut out, label.as_str());
    push_str(&mut out, "][SCANARE RETEA] IDS-RS ");
    alert.source_ip.push_text(&mut out);
    push_str(&mut out, " ");
    push_decimal(&mut out, alert.unique_ports.len() as u128);
    push_str(&mut out, " porturi");
    string_of(&out)
}

/// The port list as the mail body shows it.
fn display_ports(ports: &Vec<u16>) -> (shown: String)
    ensures
        shown@ == displayed_ports(ports@),
{
    let mut out: Vec<char> = Vec::new();
    if ports.len() <= 30 {
        push_joined_ports(&mut out, ports, ports.len(), ", ");
        assert(ports@.take(ports.len() as int) =~= ports@);
    } else {
        push_joined_ports(&mut out, ports, 30, ", ");
        push_str(&mut out, " + ");
        push_decimal(&mut out, (ports.len() - 30) as u128);
        push_str(&mut out, " more");
    }
    string_of(&out)
}

/// Builds the HTML body of the mail for an alert, with the given footer.
pub fn email_body(footer: &str, alert: &Alert) -> (body: String)
    requires
        alert.timestamp.wf(),
    ensures
        body@ == email_body_spec(footer@, alert@),
{
    let scan_type = alert.scan_type.to_string();
    let src_ip = alert.source_ip.to_string();
    let dst_ip = match alert.dest_ip {
        Some(ip) => ip.to_string(),
        None => "N/A".to_owned(),
    };
    let mut stamp: Vec<char> = Vec::new();
    alert.timestamp.push_display_stamp(&mut stamp);
    let stamp = string_of(&stamp);
    let ports = display_ports(&alert.unique_ports);
    build_html_body(
        scan_type.as_str(),
        "RIDICATA",
        src_ip.as_str(),
        dst_ip.as_str(),
        alert.unique_ports.len(),
        stamp.as_str(),
        ports.as_str(),
        footer,
    )
}

/// One datagram for the SIEM collector: where it goes and what it holds.
#[derive(Debug, Clone)]
pub struct SiemDatagram {
    pub destination: String,
    pub payload: String,
}

/// The credentials for the mail relay.
#[derive(Debug, Clone)]
pub struct SmtpLogin {
    pub username: String,
    pub password: String,
}

/// The mail to send for one alert: how to reach the relay, and the message
/// that each recipient gets.
#[derive(Debug, Clone)]
pub struct MailPlan {
    pub server: String,
    pub port: u16,
    pub starttls: bool,
    pub login: Option<SmtpLogin>,
    pub timeout_secs: u64,
    pub from: String,
    pub recipients: Vec<String>,
    pub subject: String,
    pub html_body: String,
}

/// What to send for one alert: a datagram where the SIEM transport is on, a
/// mail where the mail transport is on. The two are independent.
#[derive(Debug, Clone)]
pub struct Dispatch {
    pub siem: Option<SiemDatagram>,
    pub mail: Option<MailPlan>,
}

/// The seconds after which an exchange with the mail relay is given up.
pub open spec fn smtp_timeout_secs() -> u64 {
    30
}

/// The target of the SIEM datagrams, as `host:port`.
pub open spec fn siem_destination_spec(config: AlertingConfig) -> Seq<char> {
    config.siem.host@ + ":"@ + decimal(config.siem.port as nat)
}

/// The datagram is the one to send for the alert.
pub open spec fn is_siem_datagram(
    datagram: SiemDatagram,
    config: AlertingConfig,
    detection: DetectionConfig,
    alert: AlertView,
) -> bool {
    &&& datagram.destination@ == siem_destination_spec(config)
    &&& datagram.payload@ == siem_message_spec(detection, alert)
}

/// The plan is the one to follow for the alert: STARTTLS exactly where the
/// configuration asks for it, credentials exactly where a user name is set,
/// one message for each configured recipient.
pub open spec fn is_mail_plan(plan: MailPlan, config: AlertingConfig, alert: AlertView) -> bool {
    &&& plan.server@ == config.email.smtp_server@
    &&& plan.port == config.email.smtp_port
    &&& plan.starttls == config.email.smtp_tls
    &&& plan.login is Some <==> config.email.username@.len() > 0
    &&& plan.login is Some ==> plan.login->0.username@ == config.email.username@
        && plan.login->0.password@ == config.email.password@
    &&& plan.timeout_secs == smtp_timeout_secs()
    &&& plan.from@ == config.email.from@
    &&& texts(plan.recipients@) == texts(config.email.to@)
    &&& plan.subject@ == email_subject_spec(alert)
    &&& plan.html_body@ == email_body_spec(config.email.email_footer@, alert)
}

/// Turns alerts into what the transports send.
pub struct Alerter {
    config: AlertingConfig,
    detection: DetectionConfig,
}

impl Alerter {
    /// The alerting configuration that the alerter was made with.
    pub closed spec fn alerting(&self) -> AlertingConfig {
        self.config
    }

    /// The detection configuration that the alerter was made with.
    pub closed spec fn detection(&self) -> DetectionConfig {
        self.detection
    }

    /// An alerter for the given transports; the detection settings go into
    /// the message texts.
    pub fn new(config: AlertingConfig, detection: DetectionConfig) -> (alerter: Alerter)
        ensures
            alerter.alerting() == config,
            alerter.detection() == detection,
    {
        Alerter { config, detection }
    }

    /// The datagram to send to the SIEM collector for an alert.
    pub fn siem_datagram(&self, alert: &Alert) -> (datagram: SiemDatagram)
        requires
            alert.timestamp.wf(),
        ensures
            is_siem_datagram(datagram, self.alerting(), self.detection(), alert@),
    {
        let mut destination: Vec<char> = Vec::new();
        push_str(&mut destination, self.config.siem.host.as_str());
        push_str(&mut destination, ":");
        push_decimal(&mut destination, self.config.siem.port as u128);
        SiemDatagram {
            destination: string_of(&destination),
            payload: siem_message(&self.detection, alert),
        }
    }

    /// The mail to send for an alert.
    pub fn mail_plan(&self, alert: &Alert) -> (plan: MailPlan)
        requires
            alert.timestamp.wf(),
        ensures
            is_mail_plan(plan, self.alerting(), alert@),
    {
        let cfg = &self.config.email;
        let login = if cfg.username.as_str().is_empty() {
            None
        } else {
            Some(SmtpLogin { username: cfg.username.clone(), password: cfg.password.clone() })
        };
        let mut recipients: Vec<String> = Vec::new();
        let mut i: usize = 0;
        while i < cfg.to.len()
            invariant
                i <= cfg.to.len(),
                texts(recipients@) == texts(cfg.to@.take(i as int)),
            decreases cfg.to.len() - i,
        {
            let ghost before = recipients@;
            recipients.push(cfg.to[i].clone());
            proof {
                assert(before.len() == i) by {
                    assert(texts(before).len() == texts(cfg.to@.take(i as int)).len());
                }
                assert forall|k: int| 0 <= k < i + 1 implies texts(recipients@)[k] == texts(
                    cfg.to@.take(i + 1),
                )[k] by {
                    if k < i {
                        assert(texts(before)[k] == texts(cfg.to@.take(i as int))[k]);
                    }
                }
            }
            i += 1;
        }
        assert(cfg.to@.take(cfg.to.len() as int) =~= cfg.to@);
        MailPlan {
            server: cfg.smtp_server.clone(),
            port: cfg.smtp_port,
            starttls: cfg.smtp_tls,
            login,
            timeout_secs: 30,
            from: cfg.from.clone(),
            recipients,
            subject: email_subject(alert),
            html_body: email_body(cfg.email_footer.as_str(), alert),
        }
    }

    /// What to send for an alert: the SIEM datagram where that transport is
    /// enabled, the mail where that one is. Neither depends on the other, so
    /// a transport that fails does not keep the other from being tried.
    pub fn plan_alert(&self, alert: &Alert) -> (dispatch: Dispatch)
        requires
            alert.timestamp.wf(),
        ensures
            dispatch.siem is Some <==> self.alerting().siem.enabled,
            dispatch.siem is Some ==> is_siem_datagram(
                dispatch.siem->0,
                self.alerting(),
                self.detection(),
                alert@,
            ),
            dispatch.mail is Some <==> self.alerting().email.enabled,
            dispatch.mail is Some ==> is_mail_plan(dispatch.mail->0, self.alerting(), alert@),
    {
        let siem = if self.config.siem.enabled {
            Some(self.siem_datagram(alert))
        } else {
            None
        };
        let mail = if self.config.email.enabled {
            Some(self.mail_plan(alert))
        } else {
            None
        };
        Dispatch { siem, mail }
    }
}

} // verus!
