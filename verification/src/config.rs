//! The configuration schema and its validation.

use vstd::prelude::*;
use crate::text::{
    debug_quoted, decimal, lemma_texts_concat, push_decimal, push_str, quote_debug, same_text,
    string_of, texts,
};

verus! {

/// The whole configuration, one section per concern.
#[derive(Debug, Clone)]
pub struct AppConfig {
    pub network: NetworkConfig,
    pub detection: DetectionConfig,
    pub alerting: AlertingConfig,
    pub cleanup: CleanupConfig,
}

/// Where log lines are received and how they are parsed.
#[derive(Debug, Clone)]
pub struct NetworkConfig {
    pub listen_address: String,
    pub listen_port: u16,
    pub parser: String,
    pub debug: bool,
}

/// Thresholds, windows and memory caps of the detector.
#[derive(Debug, Clone, Copy)]
pub struct DetectionConfig {
    pub alert_cooldown_secs: u64,
    pub max_hits_per_ip: usize,
    pub max_tracked_ips: usize,
    pub fast_scan: FastScanConfig,
    pub slow_scan: SlowScanConfig,
    pub accept_scan: AcceptScanConfig,
}

/// Fast rule: more than `port_threshold` distinct dropped ports within
/// `time_window_secs` seconds.
#[derive(Debug, Clone, Copy)]
pub struct FastScanConfig {
    pub port_threshold: usize,
    pub time_window_secs: u64,
}

/// Slow rule: more than `port_threshold` distinct dropped ports within
/// `time_window_mins` minutes.
#[derive(Debug, Clone, Copy)]
pub struct SlowScanConfig {
    pub port_threshold: usize,
    pub time_window_mins: u64,
}

/// Accept rule: more than `port_threshold` distinct accepted ports within
/// `time_window_secs` seconds.
#[derive(Debug, Clone, Copy)]
pub struct AcceptScanConfig {
    pub port_threshold: usize,
    pub time_window_secs: u64,
}

/// The two alert transports.
#[derive(Debug, Clone)]
pub struct AlertingConfig {
    pub siem: SiemConfig,
    pub email: EmailConfig,
}

/// The SIEM collector that receives one datagram per alert.
#[derive(Debug, Clone)]
pub struct SiemConfig {
    pub enabled: bool,
    pub host: String,
    pub port: u16,
}

/// The SMTP relay and the message envelope.
#[derive(Debug, Clone)]
pub struct EmailConfig {
    pub enabled: bool,
    pub smtp_server: String,
    pub smtp_port: u16,
    pub smtp_tls: bool,
    pub from: String,
    pub to: Vec<String>,
    pub username: String,
    pub password: String,
    pub email_footer: String,
}

/// How often stale state is evicted, and how old an entry may grow.
#[derive(Debug, Clone, Copy)]
pub struct CleanupConfig {
    pub interval_secs: u64,
    pub max_entry_age_secs: u64,
}

/// Why a configuration was refused: one message per violated rule, in the
/// order in which the rules are checked.
#[derive(Debug, Clone)]
pub struct ConfigError {
    pub violations: Vec<String>,
}

/// The Slow window in seconds.
pub open spec fn slow_window_secs(cfg: AppConfig) -> int {
    cfg.detection.slow_scan.time_window_mins * 60
}

/// The Slow window is set, the Fast window is set, and the Slow window is
/// not the longer one.
pub open spec fn slow_window_not_longer(cfg: AppConfig) -> bool {
    &&& cfg.detection.fast_scan.time_window_secs > 0
    &&& slow_window_secs(cfg) > 0
    &&& slow_window_secs(cfg) <= cfg.detection.fast_scan.time_window_secs
}

/// The maximum entry age is set, the Slow window is set, and entries would
/// be evicted before the Slow window is over.
pub open spec fn entry_age_too_short(cfg: AppConfig) -> bool {
    &&& cfg.cleanup.max_entry_age_secs > 0
    &&& slow_window_secs(cfg) > 0
    &&& cfg.cleanup.max_entry_age_secs < slow_window_secs(cfg)
}

/// The parser name is one of the two known ones.
pub open spec fn parser_known(name: Seq<char>) -> bool {
    name == "gaia"@ || name == "cef"@
}

/// The message for an unknown parser name, given the name in quotes.
pub open spec fn unknown_parser_message(quoted: Seq<char>) -> Seq<char> {
    "network.parser = "@ + quoted + " este invalid. Valori acceptate: \"gaia\", \"cef\""@
}

/// The message for a Slow window that is not longer than the Fast window.
pub open spec fn slow_window_message(cfg: AppConfig) -> Seq<char> {
    "detection.slow_scan.time_window_mins ("@ + decimal(
        cfg.detection.slow_scan.time_window_mins as nat,
    ) + " min = "@ + decimal(slow_window_secs(cfg) as nat)
        + "s) trebuie sa fie mai mare decat detection.fast_scan.time_window_secs ("@ + decimal(
        cfg.detection.fast_scan.time_window_secs as nat,
    ) + "s)"@
}

/// The message for a maximum entry age below the Slow window.
pub open spec fn entry_age_message(cfg: AppConfig) -> Seq<char> {
    "cleanup.max_entry_age_secs ("@ + decimal(cfg.cleanup.max_entry_age_secs as nat)
        + ") este mai mic decat fereastra Slow Scan ("@ + decimal(
        cfg.detection.slow_scan.time_window_mins as nat,
    ) + " min = "@ + decimal(slow_window_secs(cfg) as nat)
        + "s): datele necesare detectiei Slow Scan vor fi sterse prematur"@
}

/// The message, if the rule is violated.
pub open spec fn when(violated: bool, message: Seq<char>) -> Seq<Seq<char>> {
    if violated {
        seq![message]
    } else {
        Seq::empty()
    }
}

/// The violations of the network section.
pub open spec fn network_violations(cfg: AppConfig, quoted_parser: Seq<char>) -> Seq<Seq<char>> {
    when(
        cfg.network.listen_port == 0,
        "network.listen_port = 0: portul 0 lasa OS-ul sa aleaga aleatoriu la fiecare pornire"@,
    ) + when(cfg.network.listen_address@.len() == 0, "network.listen_address nu poate fi gol"@)
        + when(!parser_known(cfg.network.parser@), unknown_parser_message(quoted_parser))
}

/// The violations of the detection section.
pub open spec fn detection_violations(cfg: AppConfig) -> Seq<Seq<char>> {
    when(
        cfg.detection.alert_cooldown_secs == 0,
        "detection.alert_cooldown_secs = 0: fara cooldown, acelasi IP va genera alerte la fiecare eveniment"@,
    ) + when(
        cfg.detection.fast_scan.port_threshold == 0,
        "detection.fast_scan.port_threshold = 0: orice pachet va declansa alerta Fast Scan"@,
    ) + when(
        cfg.detection.fast_scan.time_window_secs == 0,
        "detection.fast_scan.time_window_secs = 0: fereastra de timp zero face detectia imposibila"@,
    ) + when(
        cfg.detection.slow_scan.port_threshold == 0,
        "detection.slow_scan.port_threshold = 0: orice pachet va declansa alerta Slow Scan"@,
    ) + when(
        cfg.detection.slow_scan.time_window_mins == 0,
        "detection.slow_scan.time_window_mins = 0: fereastra de timp zero face detectia imposibila"@,
    ) + when(
        cfg.detection.accept_scan.port_threshold == 0,
        "detection.accept_scan.port_threshold = 0: orice pachet va declansa alerta Accept Scan"@,
    ) + when(
        cfg.detection.accept_scan.time_window_secs == 0,
        "detection.accept_scan.time_window_secs = 0: fereastra de timp zero face detectia imposibila"@,
    ) + when(slow_window_not_longer(cfg), slow_window_message(cfg))
}

/// The violations of the cleanup section.
pub open spec fn cleanup_violations(cfg: AppConfig) -> Seq<Seq<char>> {
    when(
        cfg.cleanup.interval_secs == 0,
        "cleanup.interval_secs = 0: cleanup continuu va bloca procesarea evenimentelor"@,
    ) + when(
        cfg.cleanup.max_entry_age_secs == 0,
        "cleanup.max_entry_age_secs = 0: toate datele sunt sterse la fiecare cleanup, detectia devine imposibila"@,
    ) + when(entry_age_too_short(cfg), entry_age_message(cfg))
}

/// The violations of the alerting section. A transport that is switched off
/// is not checked.
pub open spec fn alerting_violations(cfg: AppConfig) -> Seq<Seq<char>> {
    when(
        cfg.alerting.siem.enabled && cfg.alerting.siem.port == 0,
        "alerting.siem.port = 0 este invalid"@,
    ) + when(
        cfg.alerting.siem.enabled && cfg.alerting.siem.host@.len() == 0,
        "alerting.siem.host nu poate fi gol cand SIEM este activat"@,
    ) + when(
        cfg.alerting.email.enabled && cfg.alerting.email.smtp_port == 0,
        "alerting.email.smtp_port = 0 este invalid"@,
    ) + when(
        cfg.alerting.email.enabled && cfg.alerting.email.smtp_server@.len() == 0,
        "alerting.email.smtp_server nu poate fi gol cand email este activat"@,
    ) + when(
        cfg.alerting.email.enabled && cfg.alerting.email.from@.len() == 0,
        "alerting.email.from nu poate fi gol cand email este activat"@,
    ) + when(
        cfg.alerting.email.enabled && cfg.alerting.email.to@.len() == 0,
        "alerting.email.to nu poate fi goala: adauga cel putin un destinatar"@,
    )
}

/// Every violation of the configuration, in the order in which the rules are
/// checked. `quoted_parser` is the parser name in quotes, for the message
/// about an unknown parser.
pub open spec fn violations(cfg: AppConfig, quoted_parser: Seq<char>) -> Seq<Seq<char>> {
    network_violations(cfg, quoted_parser) + detection_violations(cfg) + cleanup_violations(cfg)
        + alerting_violations(cfg)
}

/// The text of a refusal: a headline with the number of violations, then one
/// numbered line for each.
pub open spec fn listing(messages: Seq<Seq<char>>) -> Seq<char> {
    "config.toml contine "@ + decimal(messages.len()) + " erori de configurare:"@ + numbered(
        messages,
        messages.len(),
    )
}

/// The first `n` messages, each on a line of its own behind its number.
pub open spec fn numbered(messages: Seq<Seq<char>>, n: nat) -> Seq<char>
    decreases n,
{
    if n == 0 || n > messages.len() {
        Seq::empty()
    } else {
        numbered(messages, (n - 1) as nat) + "\n  "@ + decimal(n) + ". "@ + messages[n - 1]
    }
}

/// Adds `message` to the list if the rule is violated.
fn note(errors: &mut Vec<String>, violated: bool, message: &str)
    ensures
        texts(final(errors)@) == texts(old(errors)@) + when(violated, message@),
{
    if violated {
        errors.push(message.to_owned());
    }
}

impl ConfigError {
    /// The text of the refusal.
    pub fn to_string(&self) -> (text: String)
        ensures
            text@ == listing(texts(self.violations@)),
    {
        let mut out: Vec<char> = Vec::new();
        push_str(&mut out, "config.toml contine ");
        push_decimal(&mut out, self.violations.len() as u128);
        push_str(&mut out, " erori de configurare:");
        let ghost head = out@;
        let ghost messages = texts(self.violations@);
        let mut i: usize = 0;
        while i < self.violations.len()
            invariant
                i <= self.violations.len(),
                messages == texts(self.violations@),
                out@ == head + numbered(messages, i as nat),
            decreases self.violations.len() - i,
        {
            push_str(&mut out, "\n  ");
            push_decimal(&mut out, (i + 1) as u128);
            push_str(&mut out, ". ");
            push_str(&mut out, self.violations[i].as_str());
            i += 1;
        }
        string_of(&out)
    }
}

impl AppConfig {
    /// The message for an unknown parser name, given the name in quotes.
    fn unknown_parser_text(quoted_parser: &str) -> (text: String)
        ensures
            text@ == unknown_parser_message(quoted_parser@),
    {
        let mut out: Vec<char> = Vec::new();
        push_str(&mut out, "network.parser = ");
        push_str(&mut out, quoted_parser);
        push_str(&mut out, " este invalid. Valori acceptate: \"gaia\", \"cef\"");
        string_of(&out)
    }

    /// The message for a Slow window that is not longer than the Fast window.
    fn slow_window_text(&self) -> (text: String)
        ensures
            text@ == slow_window_message(*self),
    {
        let slow_mins: u128 = self.detection.slow_scan.time_window_mins as u128;
        let mut out: Vec<char> = Vec::new();
        push_str(&mut out, "detection.slow_scan.time_window_mins (");
        push_decimal(&mut out, slow_mins);
        push_str(&mut out, " min = ");
        push_decimal(&mut out, slow_mins * 60);
        push_str(
            &mut out,
            "s) trebuie sa fie mai mare decat detection.fast_scan.time_window_secs (",
        );
        push_decimal(&mut out, self.detection.fast_scan.time_window_secs as u128);
        push_str(&mut out, "s)");
        string_of(&out)
    }

    /// The message for a maximum entry age below the Slow window.
    fn entry_age_text(&self) -> (text: String)
        ensures
            text@ == entry_age_message(*self),
    {
        let slow_mins: u128 = self.detection.slow_scan.time_window_mins as u128;
        let mut out: Vec<char> = Vec::new();
        push_str(&mut out, "cleanup.max_entry_age_secs (");
        push_decimal(&mut out, self.cleanup.max_entry_age_secs as u128);
        push_str(&mut out, ") este mai mic decat fereastra Slow Scan (");
        push_decimal(&mut out, slow_mins);
        push_str(&mut out, " min = ");
        push_decimal(&mut out, slow_mins * 60);
        push_str(&mut out, "s): datele necesare detectiei Slow Scan vor fi sterse prematur");
        string_of(&out)
    }

    /// Checks the network section.
    fn check_network(&self, quoted_parser: &str) -> (errors: Vec<String>)
        ensures
            texts(errors@) == network_violations(*self, quoted_parser@),
    {
        let mut errors: Vec<String> = Vec::new();
        note(
            &mut errors,
            self.network.listen_port == 0,
            "network.listen_port = 0: portul 0 lasa OS-ul sa aleaga aleatoriu la fiecare pornire",
        );
        assert(texts(errors@) =~= when(
            self.network.listen_port == 0,
            "network.listen_port = 0: portul 0 lasa OS-ul sa aleaga aleatoriu la fiecare pornire"@,
        ));
        note(
            &mut errors,
            self.network.listen_address.as_str().is_empty(),
            "network.listen_address nu poate fi gol",
        );
        let known = same_text(self.network.parser.as_str(), "gaia") || same_text(
            self.network.parser.as_str(),
            "cef",
        );
        let unknown = Self::unknown_parser_text(quoted_parser);
        note(&mut errors, !known, unknown.as_str());
        errors
    }

    /// Checks the detection section.
    fn check_detection(&self) -> (errors: Vec<String>)
        ensures
            texts(errors@) == detection_violations(*self),
    {
        let mut errors: Vec<String> = Vec::new();
        note(
            &mut errors,
            self.detection.alert_cooldown_secs == 0,
            "detection.alert_cooldown_secs = 0: fara cooldown, acelasi IP va genera alerte la fiecare eveniment",
        );
        assert(texts(errors@) =~= when(
            self.detection.alert_cooldown_secs == 0,
            "detection.alert_cooldown_secs = 0: fara cooldown, acelasi IP va genera alerte la fiecare eveniment"@,
        ));
        note(
            &mut errors,
            self.detection.fast_scan.port_threshold == 0,
            "detection.fast_scan.port_threshold = 0: orice pachet va declansa alerta Fast Scan",
        );
        note(
            &mut errors,
            self.detection.fast_scan.time_window_secs == 0,
            "detection.fast_scan.time_window_secs = 0: fereastra de timp zero face detectia imposibila",
        );
        note(
            &mut errors,
            self.detection.slow_scan.port_threshold == 0,
            "detection.slow_scan.port_threshold = 0: orice pachet va declansa alerta Slow Scan",
        );
        note(
            &mut errors,
            self.detection.slow_scan.time_window_mins == 0,
            "detection.slow_scan.time_window_mins = 0: fereastra de timp zero face detectia imposibila",
        );
        note(
            &mut errors,
            self.detection.accept_scan.port_threshold == 0,
            "detection.accept_scan.port_threshold = 0: orice pachet va declansa alerta Accept Scan",
        );
        note(
            &mut errors,
            self.detection.accept_scan.time_window_secs == 0,
            "detection.accept_scan.time_window_secs = 0: fereastra de timp zero face detectia imposibila",
        );
        let fast_secs: u128 = self.detection.fast_scan.time_window_secs as u128;
        let slow_secs: u128 = (self.detection.slow_scan.time_window_mins as u128) * 60;
        let window = self.slow_window_text();
        note(&mut errors, fast_secs > 0 && slow_secs > 0 && slow_secs <= fast_secs, window.as_str());
        errors
    }

    /// Checks the cleanup section.
    fn check_cleanup(&self) -> (errors: Vec<String>)
        ensures
            texts(errors@) == cleanup_violations(*self),
    {
        let mut errors: Vec<String> = Vec::new();
        note(
            &mut errors,
            self.cleanup.interval_secs == 0,
            "cleanup.interval_secs = 0: cleanup continuu va bloca procesarea evenimentelor",
        );
        assert(texts(errors@) =~= when(
            self.cleanup.interval_secs == 0,
            "cleanup.interval_secs = 0: cleanup continuu va bloca procesarea evenimentelor"@,
        ));
        note(
            &mut errors,
            self.cleanup.max_entry_age_secs == 0,
            "cleanup.max_entry_age_secs = 0: toate datele sunt sterse la fiecare cleanup, detectia devine imposibila",
        );
        let max_age: u128 = self.cleanup.max_entry_age_secs as u128;
        let slow_secs: u128 = (self.detection.slow_scan.time_window_mins as u128) * 60;
        let age = self.entry_age_text();
        note(&mut errors, max_age > 0 && slow_secs > 0 && max_age < slow_secs, age.as_str());
        errors
    }

    /// Checks the alerting section.
    fn check_alerting(&self) -> (errors: Vec<String>)
        ensures
            texts(errors@) == alerting_violations(*self),
    {
        let mut errors: Vec<String> = Vec::new();
        let siem = self.alerting.siem.enabled;
        note(&mut errors, siem && self.alerting.siem.port == 0, "alerting.siem.port = 0 este invalid");
        assert(texts(errors@) =~= when(
            self.alerting.siem.enabled && self.alerting.siem.port == 0,
            "alerting.siem.port = 0 este invalid"@,
        ));
        note(
            &mut errors,
            siem && self.alerting.siem.host.as_str().is_empty(),
            "alerting.siem.host nu poate fi gol cand SIEM este activat",
        );
        let email = self.alerting.email.enabled;
        note(
            &mut errors,
            email && self.alerting.email.smtp_port == 0,
            "alerting.email.smtp_port = 0 este invalid",
        );
        note(
            &mut errors,
            email && self.alerting.email.smtp_server.as_str().is_empty(),
            "alerting.email.smtp_server nu poate fi gol cand email este activat",
        );
        note(
            &mut errors,
            email && self.alerting.email.from.as_str().is_empty(),
            "alerting.email.from nu poate fi gol cand email este activat",
        );
        note(
            &mut errors,
            email && self.alerting.email.to.len() == 0,
            "alerting.email.to nu poate fi goala: adauga cel putin un destinatar",
        );
        errors
    }

    /// Checks every rule and reports all violations together.
    ///
    /// The configuration is accepted exactly when no rule is violated.
    /// `quoted_parser` is the parser name in quotes; it only goes into the
    /// message about an unknown parser.
    pub fn validate_quoting(&self, quoted_parser: &str) -> (checked: Result<(), ConfigError>)
        ensures
            checked is Ok <==> violations(*self, quoted_parser@).len() == 0,
            checked is Err ==> texts(checked->Err_0.violations@) == violations(
                *self,
                quoted_parser@,
            ),
    {
        let mut errors = self.check_network(quoted_parser);
        let mut detection = self.check_detection();
        let mut cleanup = self.check_cleanup();
        let mut alerting = self.check_alerting();
        proof {
            lemma_texts_concat(errors@, detection@);
            lemma_texts_concat(errors@ + detection@, cleanup@);
            lemma_texts_concat(errors@ + detection@ + cleanup@, alerting@);
        }
        errors.append(&mut detection);
        errors.append(&mut cleanup);
        errors.append(&mut alerting);
        if errors.len() == 0 {
            Ok(())
        } else {
            Err(ConfigError { violations: errors })
        }
    }

    /// Checks every rule and reports all violations together.
    ///
    /// The configuration is accepted exactly when no rule is violated.
    pub fn validate(&self) -> (checked: Result<(), ConfigError>)
        ensures
            checked is Ok <==> violations(*self, debug_quoted(self.network.parser@)).len() == 0,
            checked is Err ==> texts(checked->Err_0.violations@) == violations(
                *self,
                debug_quoted(self.network.parser@),
            ),
    {
        let quoted = quote_debug(self.network.parser.as_str());
        self.validate_quoting(quoted.as_str())
    }
}

} // verus!
