//! Log-line parsers and the normalized event they produce.
//!
//! A parser turns one log line into an event, or rejects the line. Only
//! blocked connection attempts with a source address and a destination port
//! become events.

pub mod cef;
pub mod gaia;

use vstd::prelude::*;
use crate::ip::{parse_ip_spec, IpAddress};
use crate::parser::cef::CefParser;
use crate::parser::gaia::{compiles, GaiaParser, HEADER_PATTERN};
use crate::text::{parse_port, parse_port_spec, same_text};

verus! {

/// One firewall decision about one connection attempt.
#[derive(Debug, Clone)]
pub struct LogEvent {
    pub source_ip: IpAddress,
    pub dest_ip: Option<IpAddress>,
    pub dest_port: u16,
    pub protocol: String,
    pub action: String,
    pub raw_log: String,
}

/// An event as a mathematical value.
pub struct LogEventView {
    pub source_ip: IpAddress,
    pub dest_ip: Option<IpAddress>,
    pub dest_port: u16,
    pub protocol: Seq<char>,
    pub action: Seq<char>,
    pub raw_log: Seq<char>,
}

impl View for LogEvent {
    type V = LogEventView;

    open spec fn view(&self) -> LogEventView {
        LogEventView {
            source_ip: self.source_ip,
            dest_ip: self.dest_ip,
            dest_port: self.dest_port,
            protocol: self.protocol@,
            action: self.action@,
            raw_log: self.raw_log@,
        }
    }
}

/// What a parser hands back, as a mathematical value.
pub open spec fn outcome(event: Option<LogEvent>) -> Option<LogEventView> {
    match event {
        Some(event) => Some(event@),
        None => None,
    }
}

/// The action word of a blocked connection attempt.
pub open spec fn drop_word() -> Seq<char> {
    seq!['d', 'r', 'o', 'p']
}

/// The address that an optional text denotes, if there is a text and it
/// denotes one.
pub open spec fn address_of(text: Option<Seq<char>>) -> Option<IpAddress> {
    match text {
        Some(text) => parse_ip_spec(text),
        None => None,
    }
}

/// The port that an optional text writes, if there is a text and it writes
/// one.
pub open spec fn port_of(text: Option<Seq<char>>) -> Option<u16> {
    match text {
        Some(text) => parse_port_spec(text),
        None => None,
    }
}

/// The event that the extracted texts make: there is one exactly when the
/// action is `drop`, the source is an address and the port is a port number.
/// A destination that is no address is left out.
pub open spec fn event_of(
    source: Option<Seq<char>>,
    dest: Option<Seq<char>>,
    port: Option<Seq<char>>,
    protocol: Seq<char>,
    action: Seq<char>,
    raw: Seq<char>,
) -> Option<LogEventView> {
    if action == drop_word() && address_of(source) is Some && port_of(port) is Some {
        Some(
            LogEventView {
                source_ip: address_of(source)->0,
                dest_ip: address_of(dest),
                dest_port: port_of(port)->0,
                protocol,
                action,
                raw_log: raw,
            },
        )
    } else {
        None
    }
}

/// The texts of an optional list of characters.
pub open spec fn chars_view(text: Option<Vec<char>>) -> Option<Seq<char>> {
    match text {
        Some(text) => Some(text@),
        None => None,
    }
}

/// Reads an optional address text.
fn read_address(text: &Option<Vec<char>>) -> (ip: Option<IpAddress>)
    ensures
        ip == address_of(chars_view(*text)),
{
    match text {
        Some(text) => IpAddress::parse_chars(text),
        None => None,
    }
}

/// Makes the event from the texts that a parser extracted from a line.
/// `protocol` and `action` are taken as they are, already in lower case.
pub fn assemble_event(
    source: &Option<Vec<char>>,
    dest: &Option<Vec<char>>,
    port: &Option<Vec<char>>,
    protocol: String,
    action: String,
    raw: &str,
) -> (event: Option<LogEvent>)
    ensures
        outcome(event) == event_of(
            chars_view(*source),
            chars_view(*dest),
            chars_view(*port),
            protocol@,
            action@,
            raw@,
        ),
{
    proof {
        reveal_strlit("drop");
        assert("drop"@ =~= drop_word());
    }
    if !same_text(action.as_str(), "drop") {
        return None;
    }
    let source_ip = match read_address(source) {
        Some(ip) => ip,
        None => {
            return None;
        },
    };
    let dest_ip = read_address(dest);
    let dest_port = match port {
        Some(text) => match parse_port(text) {
            Some(port) => port,
            None => {
                return None;
            },
        },
        None => {
            return None;
        },
    };
    Some(LogEvent { source_ip, dest_ip, dest_port, protocol, action, raw_log: raw.to_owned() })
}

/// What every log parser offers. A parser holds no state that parsing
/// changes, so one parser can serve many readers at once.
pub trait LogParser: Send + Sync {
    /// The event that the parser makes of a line, if it accepts the line.
    spec fn parsed(&self, line: Seq<char>) -> Option<LogEventView>;

    /// Makes the event of one log line, or rejects the line.
    fn parse(&self, line: &str) -> (event: Option<LogEvent>)
        ensures
            outcome(event) == self.parsed(line@),
    ;

    /// The parser's name.
    spec fn name_text(&self) -> Seq<char>;

    /// A sample of the format that the parser reads.
    spec fn format_text(&self) -> Seq<char>;

    /// The parser's name, for display.
    fn name(&self) -> (name: &str)
        ensures
            name@ == self.name_text(),
    ;

    /// A sample of the format that the parser reads, for diagnostics.
    fn expected_format(&self) -> (sample: &str)
        ensures
            sample@ == self.format_text(),
    ;
}

/// A parser makes events of blocked connection attempts only.
pub proof fn lemma_events_are_drops(
    source: Option<Seq<char>>,
    dest: Option<Seq<char>>,
    port: Option<Seq<char>>,
    protocol: Seq<char>,
    action: Seq<char>,
    raw: Seq<char>,
)
    ensures
        event_of(source, dest, port, protocol, action, raw) is Some ==> event_of(
            source,
            dest,
            port,
            protocol,
            action,
            raw,
        )->0.action == drop_word(),
{
}

/// Why no parser could be made.
#[derive(Debug, Clone)]
pub enum ParserError {
    /// The name is not that of a known parser.
    UnknownParser(String),
    /// The header pattern of the raw-format parser did not compile.
    InvalidPattern,
}

/// One of the known parsers.
pub enum AnyParser {
    Gaia(GaiaParser),
    Cef(CefParser),
}

impl LogParser for AnyParser {
    open spec fn parsed(&self, line: Seq<char>) -> Option<LogEventView> {
        match self {
            AnyParser::Gaia(parser) => parser.parsed(line),
            AnyParser::Cef(parser) => parser.parsed(line),
        }
    }

    fn parse(&self, line: &str) -> (event: Option<LogEvent>) {
        match self {
            AnyParser::Gaia(parser) => parser.parse(line),
            AnyParser::Cef(parser) => parser.parse(line),
        }
    }

    open spec fn name_text(&self) -> Seq<char> {
        match self {
            AnyParser::Gaia(parser) => parser.name_text(),
            AnyParser::Cef(parser) => parser.name_text(),
        }
    }

    open spec fn format_text(&self) -> Seq<char> {
        match self {
            AnyParser::Gaia(parser) => parser.format_text(),
            AnyParser::Cef(parser) => parser.format_text(),
        }
    }

    fn name(&self) -> (name: &str) {
        match self {
            AnyParser::Gaia(parser) => parser.name(),
            AnyParser::Cef(parser) => parser.name(),
        }
    }

    fn expected_format(&self) -> (sample: &str) {
        match self {
            AnyParser::Gaia(parser) => parser.expected_format(),
            AnyParser::Cef(parser) => parser.expected_format(),
        }
    }
}

/// The parser for a name, given the parser for the raw format as far as it
/// could be made: `gaia` is that parser, `cef` is the CEF parser, and any
/// other name is refused.
pub fn select_parser(parser_type: &str, gaia: Result<GaiaParser, ParserError>) -> (made: Result<
    AnyParser,
    ParserError,
>)
    ensures
        parser_type@ == "gaia"@ ==> (made is Ok <==> gaia is Ok) && (made is Ok ==> made->Ok_0
            == AnyParser::Gaia(gaia->Ok_0)) && (made is Err ==> made->Err_0 == gaia->Err_0),
        parser_type@ == "cef"@ ==> made is Ok && made->Ok_0 is Cef,
        parser_type@ != "gaia"@ && parser_type@ != "cef"@ ==> made is Err && made->Err_0
            is UnknownParser && made->Err_0->UnknownParser_0@ == parser_type@,
{
    proof {
        reveal_strlit("gaia");
        reveal_strlit("cef");
        assert("cef"@.len() == 3);
    }
    if same_text(parser_type, "gaia") {
        match gaia {
            Ok(parser) => Ok(AnyParser::Gaia(parser)),
            Err(error) => Err(error),
        }
    } else if same_text(parser_type, "cef") {
        Ok(AnyParser::Cef(CefParser::new()))
    } else {
        Err(ParserError::UnknownParser(parser_type.to_owned()))
    }
}

/// The parser for a name: `gaia` or `cef`; any other name is refused. The
/// raw-format parser is there exactly when its header pattern compiles.
pub fn create_parser(parser_type: &str) -> (made: Result<AnyParser, ParserError>)
    ensures
        parser_type@ == "gaia"@ ==> (made is Ok <==> compiles(HEADER_PATTERN@)),
        parser_type@ == "gaia"@ ==> (made is Ok ==> made->Ok_0 is Gaia && made->Ok_0->Gaia_0.wf())
            && (made is Err ==> made->Err_0 is InvalidPattern),
        parser_type@ == "cef"@ ==> made is Ok && made->Ok_0 is Cef,
        parser_type@ != "gaia"@ && parser_type@ != "cef"@ ==> made is Err && made->Err_0
            is UnknownParser && made->Err_0->UnknownParser_0@ == parser_type@,
{
    proof {
        reveal_strlit("gaia");
        reveal_strlit("cef");
    }
    if same_text(parser_type, "gaia") {
        select_parser(parser_type, GaiaParser::new())
    } else {
        select_parser(parser_type, Err(ParserError::InvalidPattern))
    }
}

} // verus!
