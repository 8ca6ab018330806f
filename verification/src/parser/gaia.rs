//! The parser for raw Checkpoint log lines.
//!
//! A line holds `Checkpoint:`, a date, a time and the action; what follows
//! is a list of `key: value` fields that end in `;` each.

use vstd::prelude::*;
use regex::Regex;
use crate::parser::{
    assemble_event, chars_view, event_of, outcome, LogEvent, LogEventView, LogParser, ParserError,
};
use crate::text::{
    chars_of, lowercase, matches_at, occurs_at, rows, slice, split, split_spec, string_of,
    to_lowercase, trim, trimmed,
};

verus! {

/// `regex::Regex`, declared so that the parser can keep its compiled header
/// expression. Nothing is known of it but the pattern it was made from.
#[verifier::external_type_specification]
#[verifier::external_body]
pub struct ExRegex(Regex);

/// `regex::Error`, declared so that a failed compilation can be handed on.
/// Nothing is known of its value.
#[verifier::external_type_specification]
#[verifier::external_body]
pub struct ExRegexError(regex::Error);

/// The header of a raw line: `Checkpoint:`, the date, the time and one of
/// the three actions, in any case, each followed by white space.
pub const HEADER_PATTERN: &'static str = r"(?i)Checkpoint:\s+\S+\s+\S+\s+(accept|drop|reject)\s+";

/// The pattern that a compiled expression was made from, as `Regex::new`
/// keeps it and `Regex::as_str` gives it back.
pub uninterp spec fn pattern_of(re: Regex) -> Seq<char>;

/// Whether `Regex::new` makes an expression of a pattern: the pattern is
/// well formed and the expression stays within the default size limit.
pub uninterp spec fn compiles(pattern: Seq<char>) -> bool;

/// What the leftmost match of a pattern in a line captures: the text of the
/// first group and the text behind the whole match. There is none where the
/// pattern does not match or the first group takes no part in the match.
pub uninterp spec fn header_capture(pattern: Seq<char>, line: Seq<char>) -> Option<
    (Seq<char>, Seq<char>),
>;

/// `Regex::new`: the compiled expression, which remembers its pattern, or
/// the error that the pattern gives. Whether there is an expression depends
/// on the pattern alone.
#[verifier::external_body]
pub(crate) fn compile_header(pattern: &str) -> (compiled: Result<Regex, regex::Error>)
    ensures
        compiled is Ok <==> compiles(pattern@),
        compiled is Ok ==> pattern_of(compiled->Ok_0) == pattern@,
{
    Regex::new(pattern)
}

/// `Regex::captures`, with the first group and the rest of the line behind
/// the match copied out.
#[verifier::external_body]
pub(crate) fn capture_header(re: &Regex, line: &str) -> (found: Option<(String, String)>)
    ensures
        found is Some <==> header_capture(pattern_of(*re), line@) is Some,
        found is Some ==> (found->0).0@ == (header_capture(pattern_of(*re), line@)->0).0,
        found is Some ==> (found->0).1@ == (header_capture(pattern_of(*re), line@)->0).1,
{
    let caps = re.captures(line)?;
    let action = caps.get(1)?;
    let whole = caps.get(0)?;
    Some((action.as_str().to_string(), line[whole.end()..].to_string()))
}

/// The parser for raw Checkpoint log lines.
pub struct GaiaParser {
    header_re: Regex,
}

/// The value of the first field with the given key among the parts from
/// index `from` on: a part is such a field if, without the white space at its
/// ends, it starts with the key, a colon and a blank; the value is what
/// follows, again without the white space at its ends.
pub open spec fn field_value(parts: Seq<Seq<char>>, key: Seq<char>, from: int) -> Option<Seq<char>>
    decreases parts.len() - from,
{
    if from < 0 || from >= parts.len() {
        None
    } else {
        let part = trimmed(parts[from]);
        let prefix = key + seq![':', ' '];
        if occurs_at(part, prefix, 0) {
            Some(trimmed(part.subrange(prefix.len() as int, part.len() as int)))
        } else {
            field_value(parts, key, from + 1)
        }
    }
}

/// The value of the first field with the given key in a field list.
pub open spec fn extract_field_spec(extensions: Seq<char>, key: Seq<char>) -> Option<Seq<char>> {
    field_value(split_spec(extensions, ';'), key, 0)
}

/// The protocol of a line: the `proto` field, `tcp` where there is none.
pub open spec fn gaia_protocol(extensions: Seq<char>) -> Seq<char> {
    match extract_field_spec(extensions, "proto"@) {
        Some(value) => value,
        None => "tcp"@,
    }
}

/// The event that a line makes, given what its header captures: source from
/// `src`, destination from `dst`, port from `service`, and only where the
/// action is `drop`.
pub open spec fn gaia_event(header: Option<(Seq<char>, Seq<char>)>, line: Seq<char>) -> Option<
    LogEventView,
> {
    match header {
        None => None,
        Some((action, extensions)) => event_of(
            extract_field_spec(extensions, "src"@),
            extract_field_spec(extensions, "dst"@),
            extract_field_spec(extensions, "service"@),
            lowercase(gaia_protocol(extensions)),
            lowercase(action),
            line,
        ),
    }
}

impl GaiaParser {
    /// The pattern of the parser's header expression.
    pub closed spec fn pattern(&self) -> Seq<char> {
        pattern_of(self.header_re)
    }

    /// The parser reads the header that raw lines have.
    pub open spec fn wf(&self) -> bool {
        self.pattern() == HEADER_PATTERN@
    }

    /// The parser around a compiled header expression, or the error where
    /// the expression did not compile. The expression is one that
    /// `Regex::new` made: its pattern alone says what it matches.
    pub fn from_compiled(compiled: Result<Regex, regex::Error>) -> (made: Result<
        GaiaParser,
        ParserError,
    >)
        ensures
            made is Ok <==> compiled is Ok,
            made is Ok ==> made->Ok_0.pattern() == pattern_of(compiled->Ok_0),
            made is Err ==> made->Err_0 is InvalidPattern,
    {
        match compiled {
            Ok(header_re) => Ok(GaiaParser { header_re }),
            Err(_) => Err(ParserError::InvalidPattern),
        }
    }

    /// A parser for raw lines. There is one exactly when the header pattern
    /// compiles.
    pub fn new() -> (made: Result<GaiaParser, ParserError>)
        ensures
            made is Ok <==> compiles(HEADER_PATTERN@),
            made is Ok ==> made->Ok_0.wf(),
            made is Err ==> made->Err_0 is InvalidPattern,
    {
        Self::from_compiled(compile_header(HEADER_PATTERN))
    }

    /// The value of the first field with the given key in a field list.
    pub fn extract_field(extensions: &Vec<char>, key: &str) -> (value: Option<Vec<char>>)
        ensures
            chars_view(value) == extract_field_spec(extensions@, key@),
    {
        let mut prefix = chars_of(key);
        prefix.push(':');
        prefix.push(' ');
        let parts = split(extensions, ';');
        let ghost list = rows(parts@);
        let mut i: usize = 0;
        while i < parts.len()
            invariant
                i <= parts.len(),
                list == rows(parts@),
                list == split_spec(extensions@, ';'),
                prefix@ == key@ + seq![':', ' '],
                field_value(list, key@, 0) == field_value(list, key@, i as int),
            decreases parts.len() - i,
        {
            let part = trim(&parts[i]);
            if matches_at(&part, 0, &prefix) {
                let value = slice(&part, prefix.len(), part.len());
                return Some(trim(&value));
            }
            i += 1;
        }
        None
    }

    /// Makes the event from what the header captures, given the protocol
    /// and the action in lower case.
    pub fn event_from_fields(
        extensions: &Vec<char>,
        protocol_lower: String,
        action_lower: String,
        line: &str,
    ) -> (event: Option<LogEvent>)
        ensures
            outcome(event) == event_of(
                extract_field_spec(extensions@, "src"@),
                extract_field_spec(extensions@, "dst"@),
                extract_field_spec(extensions@, "service"@),
                protocol_lower@,
                action_lower@,
                line@,
            ),
    {
        let source = Self::extract_field(extensions, "src");
        let dest = Self::extract_field(extensions, "dst");
        let port = Self::extract_field(extensions, "service");
        assemble_event(&source, &dest, &port, protocol_lower, action_lower, line)
    }
}

impl LogParser for GaiaParser {
    open spec fn parsed(&self, line: Seq<char>) -> Option<LogEventView> {
        gaia_event(header_capture(self.pattern(), line), line)
    }

    fn parse(&self, line: &str) -> (event: Option<LogEvent>) {
        let (action, rest) = match capture_header(&self.header_re, line) {
            Some(found) => found,
            None => {
                return None;
            },
        };
        let extensions = chars_of(rest.as_str());
        let protocol = match Self::extract_field(&extensions, "proto") {
            Some(value) => string_of(&value),
            None => "tcp".to_owned(),
        };
        let protocol_lower = to_lowercase(protocol.as_str());
        let action_lower = to_lowercase(action.as_str());
        Self::event_from_fields(&extensions, protocol_lower, action_lower, line)
    }

    open spec fn name_text(&self) -> Seq<char> {
        "Checkpoint Gaia (Raw)"@
    }

    open spec fn format_text(&self) -> Seq<char> {
        "Mon  D HH:MM:SS host Checkpoint: DDMmmYYYY HH:MM:SS action src >iface rule: N; src: IP; dst: IP; proto: PROTO; service: PORT;"@
    }

    fn name(&self) -> (name: &str) {
        "Checkpoint Gaia (Raw)"
    }

    fn expected_format(&self) -> (sample: &str) {
        "Mon  D HH:MM:SS host Checkpoint: DDMmmYYYY HH:MM:SS action src >iface rule: N; src: IP; dst: IP; proto: PROTO; service: PORT;"
    }
}

} // verus!
