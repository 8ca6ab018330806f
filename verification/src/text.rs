//! Character-level text primitives shared by the parsers and the alert
//! serializers. Strings are modelled by their sequence of `char`s.

use vstd::prelude::*;
use vstd::std_specs::iter::IteratorSpec;

verus! {

broadcast use vstd::string::group_string_axioms;

/// `String::push` of the standard library: appends exactly one character at
/// the end and leaves the rest of the string as it was.
pub assume_specification[ String::push ](s: &mut String, c: char)
    ensures
        final(s)@ == old(s)@.push(c),
;

/// The characters of `s`, in order.
pub fn chars_of(s: &str) -> (v: Vec<char>)
    ensures
        v@ == s@,
{
    let mut it = s.chars();
    let mut v: Vec<char> = Vec::new();
    loop
        invariant
            it.obeys_prophetic_iter_laws(),
            it.decrease() is Some,
            v@ + it.remaining() == s@,
        ensures
            v@ == s@,
        decreases it.decrease()->0,
    {
        match it.next() {
            Some(c) => {
                v.push(c);
            },
            None => {
                break ;
            },
        }
    }
    v
}

/// The string made of the characters of `v`, in order.
pub fn string_of(v: &Vec<char>) -> (s: String)
    ensures
        s@ == v@,
{
    let mut s = String::new();
    let mut i: usize = 0;
    while i < v.len()
        invariant
            i <= v.len(),
            s@ == v@.subrange(0, i as int),
        decreases v.len() - i,
    {
        s.push(v[i]);
        i += 1;
    }
    s
}

/// Whether two character lists are the same.
pub fn same_chars(a: &Vec<char>, b: &Vec<char>) -> (same: bool)
    ensures
        same == (a@ == b@),
{
    if a.len() != b.len() {
        return false;
    }
    let mut i: usize = 0;
    while i < a.len()
        invariant
            i <= a.len(),
            a.len() == b.len(),
            forall|k: int| 0 <= k < i ==> a@[k] == b@[k],
        decreases a.len() - i,
    {
        if a[i] != b[i] {
            return false;
        }
        i += 1;
    }
    assert(a@ =~= b@);
    true
}

/// Whether two strings hold the same characters.
pub fn same_text(a: &str, b: &str) -> (same: bool)
    ensures
        same == (a@ == b@),
{
    same_chars(&chars_of(a), &chars_of(b))
}

/// Appends the characters of `s` to `out`.
pub fn push_str(out: &mut Vec<char>, s: &str)
    ensures
        final(out)@ == old(out)@ + s@,
{
    let mut chars = chars_of(s);
    out.append(&mut chars);
}

/// Appends the characters of `more` to `out`.
pub fn push_chars(out: &mut Vec<char>, more: &Vec<char>)
    ensures
        final(out)@ == old(out)@ + more@,
{
    let mut i: usize = 0;
    while i < more.len()
        invariant
            i <= more.len(),
            out@ == old(out)@ + more@.take(i as int),
        decreases more.len() - i,
    {
        out.push(more[i]);
        i += 1;
    }
}

/// The ten decimal digits.
pub open spec fn digits() -> Seq<char> {
    seq!['0', '1', '2', '3', '4', '5', '6', '7', '8', '9']
}

/// The decimal numeral of `n`, without sign or leading zeros.
pub open spec fn decimal(n: nat) -> Seq<char>
    decreases n,
{
    if n < 10 {
        seq![digits()[n as int]]
    } else {
        decimal(n / 10).push(digits()[(n % 10) as int])
    }
}

/// The character of one decimal digit.
pub fn digit_char(d: u8) -> (c: char)
    requires
        d < 10,
    ensures
        c == digits()[d as int],
{
    match d {
        0 => '0',
        1 => '1',
        2 => '2',
        3 => '3',
        4 => '4',
        5 => '5',
        6 => '6',
        7 => '7',
        8 => '8',
        _ => '9',
    }
}

/// Appends the decimal numeral of `n` to `out`.
pub fn push_decimal(out: &mut Vec<char>, n: u128)
    ensures
        final(out)@ == old(out)@ + decimal(n as nat),
    decreases n,
{
    if n >= 10 {
        push_decimal(out, n / 10);
    }
    out.push(digit_char((n % 10) as u8));
}

/// The strings of a list, each as its sequence of characters.
pub open spec fn texts(list: Seq<String>) -> Seq<Seq<char>> {
    Seq::new(list.len(), |i: int| list[i]@)
}

/// The texts of a joined list are the joined texts.
pub proof fn lemma_texts_concat(a: Seq<String>, b: Seq<String>)
    ensures
        texts(a + b) == texts(a) + texts(b),
{
}

/// What the `Debug` formatting of the standard library makes of a string:
/// the string between double quotes, with quotes, backslashes and
/// unprintable characters escaped.
pub uninterp spec fn debug_quoted(s: Seq<char>) -> Seq<char>;

/// `Debug` formatting of a `str`, as `{:?}` does it.
#[verifier::external_body]
pub(crate) fn quote_debug(s: &str) -> (quoted: String)
    ensures
        quoted@ == debug_quoted(s@),
{
    format!("{:?}", s)
}

/// `s` with every occurrence of the character `from` replaced by `to`.
pub open spec fn replace_char_spec(s: Seq<char>, from: char, to: Seq<char>) -> Seq<char>
    decreases s.len(),
{
    if s.len() == 0 {
        Seq::empty()
    } else {
        replace_char_spec(s.drop_last(), from, to) + if s.last() == from {
            to
        } else {
            seq![s.last()]
        }
    }
}

/// Replacing a character in a joined text is replacing it in both parts.
pub proof fn lemma_replace_char_concat(a: Seq<char>, b: Seq<char>, from: char, to: Seq<char>)
    ensures
        replace_char_spec(a + b, from, to) == replace_char_spec(a, from, to) + replace_char_spec(
            b,
            from,
            to,
        ),
    decreases b.len(),
{
    if b.len() == 0 {
        assert(replace_char_spec(a, from, to) + replace_char_spec(b, from, to)
            =~= replace_char_spec(a, from, to));
    } else {
        assert((a + b).drop_last() =~= a + b.drop_last());
        lemma_replace_char_concat(a, b.drop_last(), from, to);
        let tail = if b.last() == from {
            to
        } else {
            seq![b.last()]
        };
        assert(replace_char_spec(a + b, from, to) =~= replace_char_spec(a, from, to) + (
        replace_char_spec(b.drop_last(), from, to) + tail));
    }
}

/// `s` with every occurrence of the character `from` replaced by `to`.
pub fn replace_char(s: &Vec<char>, from: char, to: &str) -> (out: Vec<char>)
    ensures
        out@ == replace_char_spec(s@, from, to@),
{
    let mut out: Vec<char> = Vec::new();
    let mut i: usize = 0;
    while i < s.len()
        invariant
            i <= s.len(),
            out@ == replace_char_spec(s@.take(i as int), from, to@),
        decreases s.len() - i,
    {
        proof {
            assert(s@.take(i + 1).drop_last() =~= s@.take(i as int));
        }
        if s[i] == from {
            push_str(&mut out, to);
        } else {
            out.push(s[i]);
        }
        i += 1;
    }
    assert(s@.take(s.len() as int) =~= s@);
    out
}

/// The pattern occurs in `s` at index `i`.
pub open spec fn occurs_at(s: Seq<char>, pattern: Seq<char>, i: int) -> bool {
    0 <= i && i + pattern.len() <= s.len() && s.subrange(i, i + pattern.len()) == pattern
}

/// Whether the pattern occurs in `s` at index `i`.
pub fn matches_at(s: &Vec<char>, i: usize, pattern: &Vec<char>) -> (found: bool)
    requires
        i <= s.len(),
    ensures
        found == occurs_at(s@, pattern@, i as int),
{
    if pattern.len() > s.len() - i {
        return false;
    }
    let mut k: usize = 0;
    while k < pattern.len()
        invariant
            k <= pattern.len(),
            i + pattern.len() <= s.len(),
            forall|j: int| 0 <= j < k ==> s@[i + j] == pattern@[j],
        decreases pattern.len() - k,
    {
        if s[i + k] != pattern[k] {
            return false;
        }
        k += 1;
    }
    assert(s@.subrange(i as int, i + pattern.len()) =~= pattern@);
    true
}

/// The index of the first occurrence of the pattern in `s`.
pub fn find(s: &Vec<char>, pattern: &Vec<char>) -> (at: Option<usize>)
    ensures
        at is Some ==> occurs_at(s@, pattern@, at->0 as int),
        at is Some ==> forall|j: int| 0 <= j < at->0 ==> !occurs_at(s@, pattern@, j),
        at is None ==> forall|j: int| !occurs_at(s@, pattern@, j),
{
    let mut i: usize = 0;
    loop
        invariant
            i <= s.len(),
            forall|j: int| 0 <= j < i ==> !occurs_at(s@, pattern@, j),
        decreases s.len() - i,
    {
        if matches_at(s, i, pattern) {
            return Some(i);
        }
        if i == s.len() {
            return None;
        }
        i += 1;
    }
}

/// `s` with every occurrence of a non-empty pattern replaced by `to`,
/// scanning from the left; occurrences do not overlap.
pub open spec fn replace_spec(s: Seq<char>, pattern: Seq<char>, to: Seq<char>) -> Seq<char>
    decreases s.len(),
{
    if pattern.len() == 0 || s.len() == 0 {
        s
    } else if occurs_at(s, pattern, 0) {
        to + replace_spec(s.subrange(pattern.len() as int, s.len() as int), pattern, to)
    } else {
        seq![s[0]] + replace_spec(s.subrange(1, s.len() as int), pattern, to)
    }
}

/// `s` with every occurrence of a non-empty pattern replaced by `to`,
/// scanning from the left; occurrences do not overlap.
pub fn replace_all(s: &Vec<char>, pattern: &Vec<char>, to: &Vec<char>) -> (out: Vec<char>)
    requires
        pattern@.len() > 0,
    ensures
        out@ == replace_spec(s@, pattern@, to@),
{
    let mut out: Vec<char> = Vec::new();
    let mut i: usize = 0;
    assert(s@.subrange(0, s@.len() as int) =~= s@);
    while i < s.len()
        invariant
            i <= s.len(),
            pattern@.len() > 0,
            out@ + replace_spec(s@.subrange(i as int, s@.len() as int), pattern@, to@)
                == replace_spec(s@, pattern@, to@),
        decreases s.len() - i,
    {
        let ghost rest = s@.subrange(i as int, s@.len() as int);
        let ghost before = out@;
        let hit = matches_at(s, i, pattern);
        proof {
            if occurs_at(s@, pattern@, i as int) {
                assert(rest.subrange(0, pattern@.len() as int) =~= s@.subrange(
                    i as int,
                    i + pattern@.len(),
                ));
            }
            if occurs_at(rest, pattern@, 0) {
                assert(rest.subrange(0, pattern@.len() as int) =~= s@.subrange(
                    i as int,
                    i + pattern@.len(),
                ));
            }
        }
        if hit {
            push_chars(&mut out, to);
            i += pattern.len();
            proof {
                assert(rest.subrange(pattern@.len() as int, rest.len() as int) =~= s@.subrange(
                    i as int,
                    s@.len() as int,
                ));
                assert(out@ + replace_spec(s@.subrange(i as int, s@.len() as int), pattern@, to@)
                    =~= before + replace_spec(rest, pattern@, to@));
            }
        } else {
            out.push(s[i]);
            i += 1;
            proof {
                assert(rest.subrange(1, rest.len() as int) =~= s@.subrange(
                    i as int,
                    s@.len() as int,
                ));
                assert(out@ + replace_spec(s@.subrange(i as int, s@.len() as int), pattern@, to@)
                    =~= before + replace_spec(rest, pattern@, to@));
            }
        }
    }
    proof {
        assert(out@ + replace_spec(s@.subrange(i as int, s@.len() as int), pattern@, to@)
            =~= out@);
    }
    out
}

/// The lists of a list, each as its sequence of characters.
pub open spec fn rows(list: Seq<Vec<char>>) -> Seq<Seq<char>> {
    Seq::new(list.len(), |i: int| list[i]@)
}

/// The parts into which the separator cuts `s`: one more than there are
/// separators, empty parts included.
pub open spec fn split_spec(s: Seq<char>, sep: char) -> Seq<Seq<char>>
    decreases s.len(),
{
    if s.len() == 0 {
        seq![Seq::empty()]
    } else if s.last() == sep {
        split_spec(s.drop_last(), sep).push(Seq::empty())
    } else {
        let parts = split_spec(s.drop_last(), sep);
        parts.drop_last().push(parts.last().push(s.last()))
    }
}

/// Cuts `s` at every separator.
pub fn split(s: &Vec<char>, sep: char) -> (parts: Vec<Vec<char>>)
    ensures
        rows(parts@) == split_spec(s@, sep),
        parts@.len() >= 1,
{
    let mut done: Vec<Vec<char>> = Vec::new();
    let mut current: Vec<char> = Vec::new();
    let mut i: usize = 0;
    while i < s.len()
        invariant
            i <= s.len(),
            split_spec(s@.take(i as int), sep) == rows(done@).push(current@),
        decreases s.len() - i,
    {
        let ghost before = rows(done@).push(current@);
        proof {
            assert(s@.take(i + 1).drop_last() =~= s@.take(i as int));
        }
        if s[i] == sep {
            done.push(current);
            current = Vec::new();
        } else {
            current.push(s[i]);
            assert(rows(done@).push(current@) =~= before.drop_last().push(
                before.last().push(s@[i as int]),
            ));
        }
        i += 1;
    }
    assert(s@.take(s.len() as int) =~= s@);
    done.push(current);
    done
}

/// The characters of `s` from index `from` up to index `to`.
pub fn slice(s: &Vec<char>, from: usize, to: usize) -> (part: Vec<char>)
    requires
        from <= to <= s.len(),
    ensures
        part@ == s@.subrange(from as int, to as int),
{
    let mut part: Vec<char> = Vec::new();
    let mut i: usize = from;
    while i < to
        invariant
            from <= i <= to <= s.len(),
            part@ == s@.subrange(from as int, i as int),
        decreases to - i,
    {
        part.push(s[i]);
        i += 1;
    }
    part
}

/// A decimal digit.
pub open spec fn is_digit(c: char) -> bool {
    '0' <= c <= '9'
}

/// The value of a decimal digit.
pub open spec fn digit_value(c: char) -> nat {
    (c as u32 - '0' as u32) as nat
}

/// Every character is a decimal digit.
pub open spec fn all_digits(s: Seq<char>) -> bool {
    forall|i: int| 0 <= i < s.len() ==> is_digit(#[trigger] s[i])
}

/// The number that a run of decimal digits writes.
pub open spec fn decimal_value(s: Seq<char>) -> nat
    decreases s.len(),
{
    if s.len() == 0 {
        0
    } else {
        decimal_value(s.drop_last()) * 10 + digit_value(s.last())
    }
}

/// Reads a run of decimal digits as a number, if the text is such a run and
/// the number is at most `limit`.
pub fn read_decimal(s: &Vec<char>, limit: u32) -> (value: Option<u32>)
    requires
        limit <= 100_000_000,
    ensures
        value is Some <==> s@.len() > 0 && all_digits(s@) && decimal_value(s@) <= limit,
        value is Some ==> value->0 == decimal_value(s@),
{
    if s.len() == 0 {
        return None;
    }
    let mut acc: u32 = 0;
    let mut i: usize = 0;
    while i < s.len()
        invariant
            i <= s.len(),
            limit <= 100_000_000,
            all_digits(s@.take(i as int)),
            acc == decimal_value(s@.take(i as int)),
            acc <= limit,
        decreases s.len() - i,
    {
        let c = s[i];
        proof {
            assert(s@.take(i + 1).drop_last() =~= s@.take(i as int));
        }
        if c < '0' || c > '9' {
            return None;
        }
        let d: u32 = c as u32 - '0' as u32;
        let next: u32 = acc * 10 + d;
        if next > limit {
            proof {
                lemma_decimal_value_grows(s@, i + 1);
            }
            return None;
        }
        acc = next;
        i += 1;
    }
    assert(s@.take(s.len() as int) =~= s@);
    Some(acc)
}

/// The number written by a prefix of a digit run is at most the number
/// written by the whole run.
pub proof fn lemma_decimal_value_grows(s: Seq<char>, n: int)
    requires
        0 <= n <= s.len(),
    ensures
        decimal_value(s.take(n)) <= decimal_value(s),
    decreases s.len() - n,
{
    if n == s.len() {
        assert(s.take(n) =~= s);
    } else {
        lemma_decimal_value_grows(s, n + 1);
        assert(s.take(n + 1).drop_last() =~= s.take(n));
    }
}

/// What the standard library's `str::to_lowercase` makes of a text: each
/// character replaced by its lower-case mapping under Unicode.
pub uninterp spec fn lowercase(s: Seq<char>) -> Seq<char>;

/// `str::to_lowercase`: the text in lower case.
#[verifier::external_body]
pub(crate) fn to_lowercase(s: &str) -> (lower: String)
    ensures
        lower@ == lowercase(s@),
{
    s.to_lowercase()
}

/// A character with the Unicode property White_Space.
pub open spec fn is_space(c: char) -> bool {
    let code = c as u32;
    ||| 0x09 <= code <= 0x0d
    ||| code == 0x20
    ||| code == 0x85
    ||| code == 0xa0
    ||| code == 0x1680
    ||| 0x2000 <= code <= 0x200a
    ||| code == 0x2028
    ||| code == 0x2029
    ||| code == 0x202f
    ||| code == 0x205f
    ||| code == 0x3000
}

/// Whether a character has the Unicode property White_Space.
pub fn is_whitespace(c: char) -> (space: bool)
    ensures
        space == is_space(c),
{
    let code = c as u32;
    (0x09 <= code && code <= 0x0d) || code == 0x20 || code == 0x85 || code == 0xa0 || code
        == 0x1680 || (0x2000 <= code && code <= 0x200a) || code == 0x2028 || code == 0x2029
        || code == 0x202f || code == 0x205f || code == 0x3000
}

/// The index of the first character at or after `from` that is no white
/// space; the length where there is none.
pub open spec fn skip_spaces(s: Seq<char>, from: int) -> int
    decreases s.len() - from,
{
    if 0 <= from < s.len() && is_space(s[from]) {
        skip_spaces(s, from + 1)
    } else {
        from
    }
}

/// The index behind the last character before `upto` and at or after `floor`
/// that is no white space; `floor` where there is none.
pub open spec fn skip_spaces_back(s: Seq<char>, upto: int, floor: int) -> int
    decreases upto,
{
    if floor < upto <= s.len() && floor >= 0 && is_space(s[upto - 1]) {
        skip_spaces_back(s, upto - 1, floor)
    } else {
        upto
    }
}

/// The text without the white space at its two ends.
pub open spec fn trimmed(s: Seq<char>) -> Seq<char> {
    let start = skip_spaces(s, 0);
    s.subrange(start, skip_spaces_back(s, s.len() as int, start))
}

/// The text without the white space at its two ends.
pub fn trim(s: &Vec<char>) -> (inner: Vec<char>)
    ensures
        inner@ == trimmed(s@),
{
    let mut start: usize = 0;
    while start < s.len() && is_whitespace(s[start])
        invariant
            start <= s.len(),
            skip_spaces(s@, 0) == skip_spaces(s@, start as int),
        decreases s.len() - start,
    {
        start += 1;
    }
    let mut end: usize = s.len();
    while end > start && is_whitespace(s[end - 1])
        invariant
            start <= end <= s.len(),
            skip_spaces_back(s@, s@.len() as int, start as int) == skip_spaces_back(
                s@,
                end as int,
                start as int,
            ),
        decreases end,
    {
        end -= 1;
    }
    slice(s, start, end)
}

/// The index of the first `c` at or after `from`; the length where there is
/// none.
pub open spec fn position_from(s: Seq<char>, c: char, from: int) -> int
    decreases s.len() - from,
{
    if 0 <= from < s.len() && s[from] != c {
        position_from(s, c, from + 1)
    } else if from < s.len() {
        from
    } else {
        s.len() as int
    }
}

/// The index of the first `c` at or after `from`; the length where there is
/// none.
pub fn find_char(s: &Vec<char>, c: char, from: usize) -> (at: usize)
    requires
        from <= s.len(),
    ensures
        at == position_from(s@, c, from as int),
        from <= at <= s.len(),
        at < s.len() ==> s@[at as int] == c,
{
    let mut i: usize = from;
    while i < s.len() && s[i] != c
        invariant
            from <= i <= s.len(),
            position_from(s@, c, from as int) == position_from(s@, c, i as int),
        decreases s.len() - i,
    {
        i += 1;
    }
    i
}

/// The words of a text seen so far, and the word that is still open: the
/// state of a scan that cuts the text at white space.
pub open spec fn word_scan(s: Seq<char>) -> (Seq<Seq<char>>, Seq<char>)
    decreases s.len(),
{
    if s.len() == 0 {
        (Seq::empty(), Seq::empty())
    } else {
        let (done, open) = word_scan(s.drop_last());
        if !is_space(s.last()) {
            (done, open.push(s.last()))
        } else if open.len() > 0 {
            (done.push(open), Seq::empty())
        } else {
            (done, open)
        }
    }
}

/// The words of a text: its maximal runs of characters that are no white
/// space, in order.
pub open spec fn words(s: Seq<char>) -> Seq<Seq<char>> {
    let (done, open) = word_scan(s);
    if open.len() > 0 {
        done.push(open)
    } else {
        done
    }
}

/// Cuts a text into its words.
pub fn split_words(s: &Vec<char>) -> (list: Vec<Vec<char>>)
    ensures
        rows(list@) == words(s@),
{
    let mut done: Vec<Vec<char>> = Vec::new();
    let mut open: Vec<char> = Vec::new();
    let mut i: usize = 0;
    while i < s.len()
        invariant
            i <= s.len(),
            rows(done@) == word_scan(s@.take(i as int)).0,
            open@ == word_scan(s@.take(i as int)).1,
        decreases s.len() - i,
    {
        proof {
            assert(s@.take(i + 1).drop_last() =~= s@.take(i as int));
        }
        if !is_whitespace(s[i]) {
            open.push(s[i]);
        } else if open.len() > 0 {
            done.push(open);
            open = Vec::new();
        }
        i += 1;
    }
    assert(s@.take(s.len() as int) =~= s@);
    if open.len() > 0 {
        done.push(open);
    }
    done
}

/// The port that a text writes, if it writes one: decimal digits, behind an
/// optional plus sign, for a number of at most 65535.
pub open spec fn parse_port_spec(s: Seq<char>) -> Option<u16> {
    let body = if s.len() > 0 && s[0] == '+' {
        s.subrange(1, s.len() as int)
    } else {
        s
    };
    if body.len() > 0 && all_digits(body) && decimal_value(body) <= 65535 {
        Some(decimal_value(body) as u16)
    } else {
        None
    }
}

/// Reads a port number.
pub fn parse_port(s: &Vec<char>) -> (port: Option<u16>)
    ensures
        port == parse_port_spec(s@),
{
    let body = if s.len() > 0 && s[0] == '+' {
        slice(s, 1, s.len())
    } else {
        let whole = slice(s, 0, s.len());
        assert(whole@ =~= s@);
        whole
    };
    match read_decimal(&body, 65535) {
        Some(value) => Some(value as u16),
        None => None,
    }
}

/// The index of the first occurrence of the pattern in `s`, if it occurs.
#[verifier::opaque]
pub open spec fn first_occurrence(s: Seq<char>, pattern: Seq<char>) -> Option<int> {
    if exists|i: int| occurs_at(s, pattern, i) {
        Some(
            choose|i: int|
                occurs_at(s, pattern, i) && forall|j: int| 0 <= j < i ==> !occurs_at(s, pattern, j),
        )
    } else {
        None
    }
}

/// The first occurrence is an occurrence with none before it, and there is
/// one exactly when the pattern occurs at all.
pub proof fn lemma_first_occurrence(s: Seq<char>, pattern: Seq<char>)
    ensures
        first_occurrence(s, pattern) is Some <==> exists|i: int| occurs_at(s, pattern, i),
        first_occurrence(s, pattern) is Some ==> occurs_at(
            s,
            pattern,
            first_occurrence(s, pattern)->0,
        ) && forall|j: int| 0 <= j < first_occurrence(s, pattern)->0 ==> !occurs_at(s, pattern, j),
{
    reveal(first_occurrence);
    if exists|i: int| occurs_at(s, pattern, i) {
        let some = choose|i: int| occurs_at(s, pattern, i);
        lemma_least_occurrence(s, pattern, some);
    }
}

/// Where the pattern occurs at an index, it occurs at some index with no
/// occurrence before it.
proof fn lemma_least_occurrence(s: Seq<char>, pattern: Seq<char>, at: int)
    requires
        occurs_at(s, pattern, at),
    ensures
        exists|i: int|
            occurs_at(s, pattern, i) && forall|j: int| 0 <= j < i ==> !occurs_at(s, pattern, j),
    decreases at,
{
    if exists|j: int| 0 <= j < at && occurs_at(s, pattern, j) {
        let earlier = choose|j: int| 0 <= j < at && occurs_at(s, pattern, j);
        lemma_least_occurrence(s, pattern, earlier);
    } else {
        assert(occurs_at(s, pattern, at) && forall|j: int|
            0 <= j < at ==> !occurs_at(s, pattern, j));
    }
}

/// An occurrence with none before it is the first occurrence.
pub proof fn lemma_is_first_occurrence(s: Seq<char>, pattern: Seq<char>, at: int)
    requires
        occurs_at(s, pattern, at),
        forall|j: int| 0 <= j < at ==> !occurs_at(s, pattern, j),
    ensures
        first_occurrence(s, pattern) == Some(at),
{
    lemma_first_occurrence(s, pattern);
}

/// The index of the first occurrence of the pattern in `s`, if it occurs.
pub fn find_first(s: &Vec<char>, pattern: &Vec<char>) -> (at: Option<usize>)
    ensures
        at is Some <==> first_occurrence(s@, pattern@) is Some,
        at is Some ==> at->0 == first_occurrence(s@, pattern@)->0,
        at is Some ==> at->0 + pattern@.len() <= s@.len(),
{
    let at = find(s, pattern);
    proof {
        lemma_first_occurrence(s@, pattern@);
        if at is Some {
            lemma_is_first_occurrence(s@, pattern@, at->0 as int);
        }
    }
    at
}

} // verus!
