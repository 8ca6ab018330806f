//! The parser for CEF records.
//!
//! A record starts at the first `CEF:` of the line; whatever stands before
//! is a syslog prefix. Seven header fields end in `|` each; the rest of the
//! line is the extension, a list of `key=value` words.

use vstd::prelude::*;
use crate::parser::{assemble_event, chars_view, event_of, outcome, LogEvent, LogEventView, LogParser};
use crate::text::{
    chars_of, find_char, find_first, first_occurrence, lowercase, position_from, rows,
    same_chars, slice, split_words, string_of, to_lowercase, words,
};

verus! {

/// The parser for CEF records.
pub struct CefParser;

/// The text with which a CEF record starts.
pub open spec fn cef_marker() -> Seq<char> {
    seq!['C', 'E', 'F', ':']
}

/// The number of header fields that stand before the extension.
pub open spec fn header_fields() -> nat {
    7
}

/// The index behind the `n`-th separator at or after `from`, if there are
/// that many.
pub open spec fn after_fields(s: Seq<char>, sep: char, from: int, n: nat) -> Option<int>
    decreases n,
{
    if n == 0 {
        Some(from)
    } else {
        let at = position_from(s, sep, from);
        if at < s.len() {
            after_fields(s, sep, at + 1, (n - 1) as nat)
        } else {
            None
        }
    }
}

/// The extension of the record in a line: what follows the seventh `|`
/// after the first `CEF:`. There is none where the line has no `CEF:` or the
/// record has fewer than seven header fields.
pub open spec fn cef_extension(line: Seq<char>) -> Option<Seq<char>> {
    match first_occurrence(line, cef_marker()) {
        None => None,
        Some(start) => match after_fields(line, '|', start, header_fields()) {
            Some(at) => Some(line.subrange(at, line.len() as int)),
            None => None,
        },
    }
}

/// The key and the value of a word that holds an equals sign: what stands
/// before the first one, and what stands behind it.
pub open spec fn assignment(word: Seq<char>) -> Option<(Seq<char>, Seq<char>)> {
    let at = position_from(word, '=', 0);
    if at < word.len() {
        Some((word.subrange(0, at), word.subrange(at + 1, word.len() as int)))
    } else {
        None
    }
}

/// The value that the last assignment to `key` among the words gives.
pub open spec fn last_value(list: Seq<Seq<char>>, key: Seq<char>) -> Option<Seq<char>>
    decreases list.len(),
{
    if list.len() == 0 {
        None
    } else if assignment(list.last()) is Some && (assignment(list.last())->0).0 == key {
        Some((assignment(list.last())->0).1)
    } else {
        last_value(list.drop_last(), key)
    }
}

/// The protocol of a record: the `proto` value in lower case, `tcp` where
/// there is none.
pub open spec fn cef_protocol(list: Seq<Seq<char>>) -> Seq<char> {
    match last_value(list, "proto"@) {
        Some(value) => lowercase(value),
        None => "tcp"@,
    }
}

/// The action of a record: the `act` value in lower case, empty where there
/// is none.
pub open spec fn cef_action(list: Seq<Seq<char>>) -> Seq<char> {
    match last_value(list, "act"@) {
        Some(value) => lowercase(value),
        None => Seq::empty(),
    }
}

/// The event that a line makes as a CEF record: source from `src`,
/// destination from `dst`, port from `dpt`, and only where `act` is `drop`.
pub open spec fn cef_event(line: Seq<char>) -> Option<LogEventView> {
    match cef_extension(line) {
        None => None,
        Some(extension) => {
            let list = words(extension);
            event_of(
                last_value(list, "src"@),
                last_value(list, "dst"@),
                last_value(list, "dpt"@),
                cef_protocol(list),
                cef_action(list),
                line,
            )
        },
    }
}

/// The index behind the `n`-th separator at or after `from`.
fn skip_fields(s: &Vec<char>, sep: char, from: usize, n: usize) -> (at: Option<usize>)
    requires
        from <= s@.len(),
    ensures
        at is Some <==> after_fields(s@, sep, from as int, n as nat) is Some,
        at is Some ==> at->0 == after_fields(s@, sep, from as int, n as nat)->0 && at->0
            <= s@.len(),
{
    let mut at: usize = from;
    let mut left: usize = n;
    while left > 0
        invariant
            at <= s@.len(),
            after_fields(s@, sep, from as int, n as nat) == after_fields(
                s@,
                sep,
                at as int,
                left as nat,
            ),
        decreases left,
    {
        let next = find_char(s, sep, at);
        if next >= s.len() {
            return None;
        }
        at = next + 1;
        left -= 1;
    }
    Some(at)
}

/// The extension of the record in a line.
pub fn extension_of(line: &Vec<char>) -> (extension: Option<Vec<char>>)
    ensures
        chars_view(extension) == cef_extension(line@),
{
    let mut marker: Vec<char> = Vec::new();
    marker.push('C');
    marker.push('E');
    marker.push('F');
    marker.push(':');
    assert(marker@ =~= cef_marker());
    let start = match find_first(line, &marker) {
        Some(start) => start,
        None => {
            return None;
        },
    };
    match skip_fields(line, '|', start, 7) {
        Some(at) => Some(slice(line, at, line.len())),
        None => None,
    }
}

/// The value that the last assignment to `key` among the words gives.
pub fn lookup(list: &Vec<Vec<char>>, key: &str) -> (value: Option<Vec<char>>)
    ensures
        chars_view(value) == last_value(rows(list@), key@),
{
    let key_chars = chars_of(key);
    let ghost all = rows(list@);
    let mut i: usize = list.len();
    assert(all.take(i as int) =~= all);
    while i > 0
        invariant
            i <= list.len(),
            all == rows(list@),
            key_chars@ == key@,
            last_value(all, key@) == last_value(all.take(i as int), key@),
        decreases i,
    {
        let word = &list[i - 1];
        proof {
            assert(all.take(i as int).drop_last() =~= all.take(i - 1));
        }
        let at = find_char(word, '=', 0);
        if at < word.len() {
            let name = slice(word, 0, at);
            if same_chars(&name, &key_chars) {
                return Some(slice(word, at + 1, word.len()));
            }
        }
        i -= 1;
    }
    None
}

impl CefParser {
    /// A parser for CEF records.
    pub fn new() -> (parser: CefParser) {
        CefParser
    }

    /// Makes the event from the extension words of a record, given the
    /// `proto` and `act` values in lower case as far as the record has them.
    pub fn event_from_words(
        list: &Vec<Vec<char>>,
        protocol_lower: Option<String>,
        action_lower: Option<String>,
        line: &str,
    ) -> (event: Option<LogEvent>)
        ensures
            outcome(event) == event_of(
                last_value(rows(list@), "src"@),
                last_value(rows(list@), "dst"@),
                last_value(rows(list@), "dpt"@),
                match protocol_lower {
                    Some(value) => value@,
                    None => "tcp"@,
                },
                match action_lower {
                    Some(value) => value@,
                    None => Seq::empty(),
                },
                line@,
            ),
    {
        let source = lookup(list, "src");
        let dest = lookup(list, "dst");
        let port = lookup(list, "dpt");
        let protocol = match protocol_lower {
            Some(value) => value,
            None => "tcp".to_owned(),
        };
        let action = match action_lower {
            Some(value) => value,
            None => String::new(),
        };
        assemble_event(&source, &dest, &port, protocol, action, line)
    }
}

/// The text in lower case, where there is one.
fn lower(value: Option<Vec<char>>) -> (lowered: Option<String>)
    ensures
        lowered is Some <==> value is Some,
        lowered is Some ==> lowered->0@ == lowercase(value->0@),
{
    match value {
        Some(value) => Some(to_lowercase(string_of(&value).as_str())),
        None => None,
    }
}

impl LogParser for CefParser {
    open spec fn parsed(&self, line: Seq<char>) -> Option<LogEventView> {
        cef_event(line)
    }

    fn parse(&self, line: &str) -> (event: Option<LogEvent>) {
        let chars = chars_of(line);
        let extension = match extension_of(&chars) {
            Some(extension) => extension,
            None => {
                return None;
            },
        };
        let list = split_words(&extension);
        let protocol = lower(lookup(&list, "proto"));
        let action = lower(lookup(&list, "act"));
        Self::event_from_words(&list, protocol, action, line)
    }

    open spec fn name_text(&self) -> Seq<char> {
        "CEF (ArcSight)"@
    }

    open spec fn format_text(&self) -> Seq<char> {
        "<PRI>Mon DD HH:MM:SS hostname CEF:0|Vendor|Product|Version|ID|Name|Severity|src=IP dst=IP dpt=PORT proto=PROTO act=ACTION"@
    }

    fn name(&self) -> (name: &str) {
        "CEF (ArcSight)"
    }

    fn expected_format(&self) -> (sample: &str) {
        "<PRI>Mon DD HH:MM:SS hostname CEF:0|Vendor|Product|Version|ID|Name|Severity|src=IP dst=IP dpt=PORT proto=PROTO act=ACTION"
    }
}

} // verus!
