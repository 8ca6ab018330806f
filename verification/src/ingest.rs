//! Cutting a received datagram into log lines.

use vstd::prelude::*;
use crate::text::{chars_of, rows, split, split_spec, string_of, texts, trim, trimmed};

verus! {

/// The trimmed parts that are not empty, in order.
pub open spec fn kept_lines(parts: Seq<Seq<char>>) -> Seq<Seq<char>>
    decreases parts.len(),
{
    if parts.len() == 0 {
        Seq::empty()
    } else if trimmed(parts.last()).len() > 0 {
        kept_lines(parts.drop_last()).push(trimmed(parts.last()))
    } else {
        kept_lines(parts.drop_last())
    }
}

/// The log lines of a datagram: the text is cut at every line feed, each
/// part loses the white space at its ends (a carriage return before the line
/// feed with it), and empty parts are dropped.
pub open spec fn datagram_lines_spec(data: Seq<char>) -> Seq<Seq<char>> {
    kept_lines(split_spec(data, '\n'))
}

/// Cuts the text of a datagram into its log lines.
pub fn datagram_lines(data: &str) -> (lines: Vec<String>)
    ensures
        texts(lines@) == datagram_lines_spec(data@),
{
    let parts = split(&chars_of(data), '\n');
    let ghost all = rows(parts@);
    let mut lines: Vec<String> = Vec::new();
    let mut i: usize = 0;
    while i < parts.len()
        invariant
            i <= parts.len(),
            all == rows(parts@),
            texts(lines@) == kept_lines(all.take(i as int)),
        decreases parts.len() - i,
    {
        proof {
            assert(all.take(i + 1).drop_last() =~= all.take(i as int));
        }
        let line = trim(&parts[i]);
        if line.len() > 0 {
            lines.push(string_of(&line));
        }
        i += 1;
    }
    assert(all.take(parts.len() as int) =~= all);
    lines
}

} // verus!
