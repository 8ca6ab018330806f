//! Network addresses as plain integers, and their textual forms.
//!
//! An IPv4 address in text is four decimal octets joined by dots; an octet
//! has one to three digits and no leading zero. An IPv6 address in text is
//! eight groups of one to four hexadecimal digits joined by colons, where
//! one `::` may stand for one or more zero groups and the last two groups may
//! be written as an IPv4 address.

use vstd::prelude::*;
use crate::text::{
    all_digits, chars_of, decimal, decimal_value, find_first, first_occurrence, push_decimal,
    push_str, read_decimal, rows, slice, split, split_spec, string_of,
};

verus! {

/// The integer pair under which an address is stored in the detector's maps:
/// whether it is an IPv6 address, and its bits.
pub type IpKey = (bool, u128);

/// An IPv4 or IPv6 address, held as its big-endian integer value.
#[derive(Clone, Copy, Debug, PartialEq, Eq, Structural)]
pub enum IpAddress {
    V4(u32),
    V6(u128),
}

/// A text that is no address.
#[derive(Clone, Copy, Debug, PartialEq, Eq, Structural)]
pub struct AddrParseError;

/// The text of one IPv4 octet: one to three digits, no leading zero, at most
/// 255.
pub open spec fn octet_text(s: Seq<char>) -> bool {
    &&& 1 <= s.len() <= 3
    &&& all_digits(s)
    &&& s.len() > 1 ==> s[0] != '0'
    &&& decimal_value(s) <= 255
}

/// The address that a text denotes as IPv4, if it does.
pub open spec fn parse_ipv4_spec(s: Seq<char>) -> Option<u32> {
    let parts = split_spec(s, '.');
    if parts.len() == 4 && octet_text(parts[0]) && octet_text(parts[1]) && octet_text(parts[2])
        && octet_text(parts[3]) {
        Some(
            (((decimal_value(parts[0]) * 256 + decimal_value(parts[1])) * 256 + decimal_value(
                parts[2],
            )) * 256 + decimal_value(parts[3])) as u32,
        )
    } else {
        None
    }
}

/// A hexadecimal digit, in either case.
pub open spec fn is_hex_digit(c: char) -> bool {
    ('0' <= c <= '9') || ('a' <= c <= 'f') || ('A' <= c <= 'F')
}

/// The value of a hexadecimal digit.
pub open spec fn hex_digit_value(c: char) -> nat {
    if '0' <= c <= '9' {
        (c as u32 - '0' as u32) as nat
    } else if 'a' <= c <= 'f' {
        (c as u32 - 'a' as u32 + 10) as nat
    } else {
        (c as u32 - 'A' as u32 + 10) as nat
    }
}

/// The number that a run of hexadecimal digits writes.
pub open spec fn hex_value(s: Seq<char>) -> nat
    decreases s.len(),
{
    if s.len() == 0 {
        0
    } else {
        hex_value(s.drop_last()) * 16 + hex_digit_value(s.last())
    }
}

/// The text of one IPv6 group: one to four hexadecimal digits.
pub open spec fn group_text(s: Seq<char>) -> bool {
    &&& 1 <= s.len() <= 4
    &&& forall|i: int| 0 <= i < s.len() ==> is_hex_digit(#[trigger] s[i])
}

/// Every part is the text of a group.
pub open spec fn all_groups(parts: Seq<Seq<char>>) -> bool {
    forall|i: int| 0 <= i < parts.len() ==> group_text(#[trigger] parts[i])
}

/// The values of a list of group texts.
pub open spec fn group_values(parts: Seq<Seq<char>>) -> Seq<u16> {
    Seq::new(parts.len(), |i: int| hex_value(parts[i]) as u16)
}

/// The groups that a colon-separated list writes, if it is one: an empty
/// text writes none; where allowed, the last item may be an IPv4 address,
/// which writes two groups.
pub open spec fn group_list(s: Seq<char>, v4_allowed: bool) -> Option<Seq<u16>> {
    let parts = split_spec(s, ':');
    if s.len() == 0 {
        Some(Seq::empty())
    } else if all_groups(parts) {
        Some(group_values(parts))
    } else if v4_allowed && all_groups(parts.drop_last()) && parse_ipv4_spec(parts.last())
        is Some {
        let v4 = parse_ipv4_spec(parts.last())->0;
        Some(group_values(parts.drop_last()).push((v4 / 65536) as u16).push((v4 % 65536) as u16))
    } else {
        None
    }
}

/// The number that a list of groups writes, most significant group first.
pub open spec fn groups_value(groups: Seq<u16>) -> nat
    decreases groups.len(),
{
    if groups.len() == 0 {
        0
    } else {
        groups_value(groups.drop_last()) * 65536 + groups.last() as nat
    }
}

/// `n` zero groups.
pub open spec fn zero_groups(n: nat) -> Seq<u16> {
    Seq::new(n, |i: int| 0u16)
}

/// The two characters that stand for a run of zero groups.
pub open spec fn double_colon() -> Seq<char> {
    seq![':', ':']
}

/// The eight groups that a text without `::` denotes: the list must write
/// eight groups.
pub open spec fn plain_groups(s: Seq<char>) -> Option<Seq<u16>> {
    let all = group_list(s, true);
    if all is Some && all->0.len() == 8 {
        all
    } else {
        None
    }
}

/// The eight groups that a text with `::` at index `at` denotes: the lists
/// on the two sides write at most seven groups, and zero groups fill the gap.
pub open spec fn folded_groups(s: Seq<char>, at: int) -> Option<Seq<u16>> {
    let head = group_list(s.subrange(0, at), false);
    let tail = group_list(s.subrange(at + 2, s.len() as int), true);
    if head is Some && tail is Some && head->0.len() + tail->0.len() <= 7 {
        Some(head->0 + zero_groups((8 - head->0.len() - tail->0.len()) as nat) + tail->0)
    } else {
        None
    }
}

/// The eight groups that a text denotes as IPv6, if it does. Where the text
/// holds `::`, the first one is the fold.
pub open spec fn ipv6_groups(s: Seq<char>) -> Option<Seq<u16>> {
    match first_occurrence(s, double_colon()) {
        None => plain_groups(s),
        Some(at) => folded_groups(s, at),
    }
}

/// The address that a text denotes as IPv6, if it does.
pub open spec fn parse_ipv6_spec(s: Seq<char>) -> Option<u128> {
    value_of(ipv6_groups(s))
}

/// The address that a text denotes, if it does: an IPv4 address where the
/// text is one, else an IPv6 address where the text is one.
pub open spec fn parse_ip_spec(s: Seq<char>) -> Option<IpAddress> {
    match parse_ipv4_spec(s) {
        Some(bits) => Some(IpAddress::V4(bits)),
        None => match parse_ipv6_spec(s) {
            Some(bits) => Some(IpAddress::V6(bits)),
            None => None,
        },
    }
}

/// Reads one IPv4 octet.
fn read_octet(s: &Vec<char>) -> (value: Option<u32>)
    ensures
        value is Some <==> octet_text(s@),
        value is Some ==> value->0 == decimal_value(s@) && value->0 <= 255,
{
    if s.len() == 0 || s.len() > 3 {
        return None;
    }
    if s.len() > 1 && s[0] == '0' {
        return None;
    }
    read_decimal(s, 255)
}

/// Reads an IPv4 address.
pub fn parse_ipv4(s: &Vec<char>) -> (bits: Option<u32>)
    ensures
        bits == parse_ipv4_spec(s@),
{
    let parts = split(s, '.');
    if parts.len() != 4 {
        return None;
    }
    let a = match read_octet(&parts[0]) {
        Some(a) => a,
        None => {
            return None;
        },
    };
    let b = match read_octet(&parts[1]) {
        Some(b) => b,
        None => {
            return None;
        },
    };
    let c = match read_octet(&parts[2]) {
        Some(c) => c,
        None => {
            return None;
        },
    };
    let d = match read_octet(&parts[3]) {
        Some(d) => d,
        None => {
            return None;
        },
    };
    Some(((a * 256 + b) * 256 + c) * 256 + d)
}

/// Reads one hexadecimal digit.
fn read_hex_digit(c: char) -> (value: Option<u16>)
    ensures
        value is Some <==> is_hex_digit(c),
        value is Some ==> value->0 == hex_digit_value(c) && value->0 < 16,
{
    if '0' <= c && c <= '9' {
        Some((c as u32 - '0' as u32) as u16)
    } else if 'a' <= c && c <= 'f' {
        Some((c as u32 - 'a' as u32 + 10) as u16)
    } else if 'A' <= c && c <= 'F' {
        Some((c as u32 - 'A' as u32 + 10) as u16)
    } else {
        None
    }
}

/// Reads one IPv6 group.
fn read_group(s: &Vec<char>) -> (value: Option<u16>)
    ensures
        value is Some <==> group_text(s@),
        value is Some ==> value->0 == hex_value(s@),
{
    if s.len() == 0 || s.len() > 4 {
        return None;
    }
    let mut acc: u16 = 0;
    let mut i: usize = 0;
    while i < s.len()
        invariant
            i <= s.len() <= 4,
            forall|k: int| 0 <= k < i ==> is_hex_digit(#[trigger] s@[k]),
            acc == hex_value(s@.take(i as int)),
            i == 0 ==> acc == 0,
            i == 1 ==> acc < 16,
            i == 2 ==> acc < 256,
            i == 3 ==> acc < 4096,
        decreases s.len() - i,
    {
        proof {
            assert(s@.take(i + 1).drop_last() =~= s@.take(i as int));
        }
        match read_hex_digit(s[i]) {
            Some(d) => {
                acc = acc * 16 + d;
            },
            None => {
                return None;
            },
        }
        i += 1;
    }
    assert(s@.take(s.len() as int) =~= s@);
    Some(acc)
}

/// Reads a colon-separated list of groups.
fn read_group_list(s: &Vec<char>, v4_allowed: bool) -> (groups: Option<Vec<u16>>)
    ensures
        groups is Some <==> group_list(s@, v4_allowed) is Some,
        groups is Some ==> groups->0@ == group_list(s@, v4_allowed)->0,
{
    let mut groups: Vec<u16> = Vec::new();
    if s.len() == 0 {
        return Some(groups);
    }
    let parts = split(s, ':');
    let ghost texts = rows(parts@);
    let mut i: usize = 0;
    while i < parts.len()
        invariant
            i <= parts.len(),
            parts@.len() >= 1,
            texts == rows(parts@),
            texts == split_spec(s@, ':'),
            s@.len() > 0,
            all_groups(texts.take(i as int)),
            groups@ == group_values(texts.take(i as int)),
        decreases parts.len() - i,
    {
        assert(texts[i as int] == parts@[i as int]@);
        match read_group(&parts[i]) {
            Some(g) => {
                groups.push(g);
            },
            None => {
                if v4_allowed && i + 1 == parts.len() {
                    match parse_ipv4(&parts[i]) {
                        Some(v4) => {
                            groups.push((v4 / 65536) as u16);
                            groups.push((v4 % 65536) as u16);
                            return Some(groups);
                        },
                        None => {
                            return None;
                        },
                    }
                }
                proof {
                    if v4_allowed {
                        assert(texts.drop_last()[i as int] == texts[i as int]);
                    }
                }
                return None;
            },
        }
        i += 1;
    }
    assert(texts.take(parts.len() as int) =~= texts);
    Some(groups)
}

/// The bound below which a list of `n` groups writes its number.
pub open spec fn groups_bound(n: nat) -> nat
    decreases n,
{
    if n == 0 {
        1
    } else {
        groups_bound((n - 1) as nat) * 65536
    }
}

/// A list of groups writes a number below the bound of its length, and
/// eight groups fit 128 bits.
pub proof fn lemma_groups_value_bound(groups: Seq<u16>)
    ensures
        groups_value(groups) < groups_bound(groups.len()),
        groups_bound(8) == 0x1_0000_0000_0000_0000_0000_0000_0000_0000,
    decreases groups.len(),
{
    reveal_with_fuel(groups_bound, 9);
    if groups.len() > 0 {
        lemma_groups_value_bound(groups.drop_last());
        let below = groups_value(groups.drop_last());
        let bound = groups_bound((groups.len() - 1) as nat);
        assert(below * 65536 + groups.last() < bound * 65536) by (nonlinear_arith)
            requires
                below < bound,
                groups.last() < 65536,
        ;
    }
}

/// The number that eight groups write.
fn join_groups(groups: &Vec<u16>) -> (bits: u128)
    requires
        groups@.len() == 8,
    ensures
        bits == groups_value(groups@),
{
    let mut acc: u128 = 0;
    let mut i: usize = 0;
    while i < 8
        invariant
            i <= 8,
            groups@.len() == 8,
            acc == groups_value(groups@.take(i as int)),
        decreases 8 - i,
    {
        proof {
            assert(groups@.take(i + 1).drop_last() =~= groups@.take(i as int));
            lemma_groups_value_bound(groups@.take(i as int));
            lemma_groups_value_bound(groups@.take(i + 1));
            lemma_groups_bound_grows(groups@.take(i + 1).len(), 8);
        }
        acc = acc * 65536 + groups[i] as u128;
        i += 1;
    }
    assert(groups@.take(8) =~= groups@);
    acc
}

/// The bound grows with the number of groups.
pub proof fn lemma_groups_bound_grows(n: nat, m: nat)
    requires
        n <= m,
    ensures
        groups_bound(n) <= groups_bound(m),
    decreases m,
{
    if n < m {
        lemma_groups_bound_grows(n, (m - 1) as nat);
        assert(groups_bound((m - 1) as nat) <= groups_bound((m - 1) as nat) * 65536)
            by (nonlinear_arith);
    }
}

/// The eight groups of an address whose text has `::` between the groups of
/// `head` and the groups of `tail`.
fn fill_gap(head: &Vec<u16>, tail: &Vec<u16>) -> (groups: Vec<u16>)
    requires
        head@.len() + tail@.len() <= 7,
    ensures
        groups@ == head@ + zero_groups((8 - head@.len() - tail@.len()) as nat) + tail@,
        groups@.len() == 8,
{
    let gap: usize = 8 - head.len() - tail.len();
    let mut groups: Vec<u16> = Vec::new();
    let mut i: usize = 0;
    while i < head.len()
        invariant
            i <= head.len(),
            groups@ == head@.take(i as int),
        decreases head.len() - i,
    {
        groups.push(head[i]);
        i += 1;
    }
    let mut k: usize = 0;
    while k < gap
        invariant
            k <= gap,
            groups@ == head@ + zero_groups(k as nat),
        decreases gap - k,
    {
        groups.push(0u16);
        k += 1;
    }
    let mut j: usize = 0;
    while j < tail.len()
        invariant
            j <= tail.len(),
            groups@ == head@ + zero_groups(gap as nat) + tail@.take(j as int),
        decreases tail.len() - j,
    {
        groups.push(tail[j]);
        j += 1;
    }
    groups
}

/// The number that the groups write, where there are groups.
pub open spec fn value_of(groups: Option<Seq<u16>>) -> Option<u128> {
    match groups {
        Some(groups) => Some(groups_value(groups) as u128),
        None => None,
    }
}

/// Reads an IPv6 address that is written without `::`.
fn parse_plain(s: &Vec<char>) -> (bits: Option<u128>)
    ensures
        bits == value_of(plain_groups(s@)),
{
    match read_group_list(s, true) {
        Some(groups) => {
            if groups.len() == 8 {
                proof {
                    lemma_groups_value_bound(groups@);
                }
                Some(join_groups(&groups))
            } else {
                None
            }
        },
        None => None,
    }
}

/// Reads an IPv6 address that is written with `::` at index `at`.
fn parse_folded(s: &Vec<char>, at: usize) -> (bits: Option<u128>)
    requires
        at + 2 <= s@.len(),
    ensures
        bits == value_of(folded_groups(s@, at as int)),
{
    let end = s.len();
    let head_text = slice(s, 0, at);
    let tail_text = slice(s, at + 2, end);
    let head = match read_group_list(&head_text, false) {
        Some(head) => head,
        None => {
            return None;
        },
    };
    let tail = match read_group_list(&tail_text, true) {
        Some(tail) => tail,
        None => {
            return None;
        },
    };
    if head.len() > 7 || tail.len() > 7 - head.len() {
        return None;
    }
    let groups = fill_gap(&head, &tail);
    proof {
        lemma_groups_value_bound(groups@);
    }
    Some(join_groups(&groups))
}

/// Reads an IPv6 address.
pub fn parse_ipv6(s: &Vec<char>) -> (bits: Option<u128>)
    ensures
        bits == parse_ipv6_spec(s@),
{
    let mut marker: Vec<char> = Vec::new();
    marker.push(':');
    marker.push(':');
    assert(marker@ =~= double_colon());
    match find_first(s, &marker) {
        None => parse_plain(s),
        Some(at) => parse_folded(s, at),
    }
}

/// The text of an IPv4 address: its four octets in decimal, joined by dots.
pub open spec fn ipv4_text(bits: u32) -> Seq<char> {
    decimal((bits / 16777216) as nat) + seq!['.'] + decimal((bits / 65536 % 256) as nat) + seq![
        '.',
    ] + decimal((bits / 256 % 256) as nat) + seq!['.'] + decimal((bits % 256) as nat)
}

/// Appends the text of an IPv4 address.
fn push_ipv4(out: &mut Vec<char>, bits: u32)
    ensures
        final(out)@ == old(out)@ + ipv4_text(bits),
{
    push_decimal(out, (bits / 16777216) as u128);
    out.push('.');
    push_decimal(out, (bits / 65536 % 256) as u128);
    out.push('.');
    push_decimal(out, (bits / 256 % 256) as u128);
    out.push('.');
    push_decimal(out, (bits % 256) as u128);
}

/// The sixteen hexadecimal digits, in lower case.
pub open spec fn hex_digits() -> Seq<char> {
    seq!['0', '1', '2', '3', '4', '5', '6', '7', '8', '9', 'a', 'b', 'c', 'd', 'e', 'f']
}

/// The hexadecimal numeral of `n` in lower case, without leading zeros.
pub open spec fn hex_text(n: nat) -> Seq<char>
    decreases n,
{
    if n < 16 {
        seq![hex_digits()[n as int]]
    } else {
        hex_text(n / 16).push(hex_digits()[(n % 16) as int])
    }
}

/// The character of one hexadecimal digit.
fn hex_digit_char(d: u16) -> (c: char)
    requires
        d < 16,
    ensures
        c == hex_digits()[d as int],
{
    match d {
        0 => '0',
        1 => '1',
        2 => '2',
        3 => '3',
        4 => '4',
        5 => '5',
        6 => '6',
        7 => '7',
        8 => '8',
        9 => '9',
        10 => 'a',
        11 => 'b',
        12 => 'c',
        13 => 'd',
        14 => 'e',
        _ => 'f',
    }
}

/// Appends the hexadecimal numeral of `n`.
fn push_hex(out: &mut Vec<char>, n: u16)
    ensures
        final(out)@ == old(out)@ + hex_text(n as nat),
    decreases n,
{
    if n >= 16 {
        push_hex(out, n / 16);
    }
    out.push(hex_digit_char(n % 16));
}

/// The eight groups of an IPv6 address, most significant first.
pub open spec fn groups_of(bits: nat, n: nat) -> Seq<u16>
    decreases n,
{
    if n == 0 {
        Seq::empty()
    } else {
        groups_of(bits / 65536, (n - 1) as nat).push((bits % 65536) as u16)
    }
}

/// The groups joined by colons, each in hexadecimal.
pub open spec fn joined_groups(groups: Seq<u16>) -> Seq<char>
    decreases groups.len(),
{
    if groups.len() == 0 {
        Seq::empty()
    } else if groups.len() == 1 {
        hex_text(groups[0] as nat)
    } else {
        joined_groups(groups.drop_last()) + seq![':'] + hex_text(groups.last() as nat)
    }
}

/// A run of groups: where it starts and how many groups it has.
pub struct Run {
    pub start: int,
    pub len: int,
}

/// The longest run of zero groups among the first `n` groups, the first one
/// if several are as long; and the run of zero groups that ends at group
/// `n`.
pub open spec fn zero_runs(groups: Seq<u16>, n: int) -> (Run, Run)
    decreases n,
{
    if n <= 0 {
        (Run { start: 0, len: 0 }, Run { start: 0, len: 0 })
    } else {
        let (longest, current) = zero_runs(groups, n - 1);
        if groups[n - 1] == 0 {
            let grown = Run {
                start: if current.len == 0 {
                    n - 1
                } else {
                    current.start
                },
                len: current.len + 1,
            };
            (
                if grown.len > longest.len {
                    grown
                } else {
                    longest
                },
                grown,
            )
        } else {
            (longest, Run { start: 0, len: 0 })
        }
    }
}

/// The address is an IPv4 address mapped into IPv6: five zero groups, then
/// `ffff`.
pub open spec fn is_v4_mapped(groups: Seq<u16>) -> bool {
    groups[0] == 0 && groups[1] == 0 && groups[2] == 0 && groups[3] == 0 && groups[4] == 0
        && groups[5] == 0xffff
}

/// The text of an IPv6 address: a mapped IPv4 address as `::ffff:` and the
/// IPv4 text; else the groups in hexadecimal joined by colons, with the
/// longest run of two or more zero groups written as `::`.
pub open spec fn ipv6_text(bits: u128) -> Seq<char> {
    let groups = groups_of(bits as nat, 8);
    let longest = zero_runs(groups, 8).0;
    if is_v4_mapped(groups) {
        seq![':', ':', 'f', 'f', 'f', 'f', ':'] + ipv4_text(
            (groups[6] as nat * 65536 + groups[7] as nat) as u32,
        )
    } else if longest.len > 1 {
        joined_groups(groups.subrange(0, longest.start)) + double_colon() + joined_groups(
            groups.subrange(longest.start + longest.len, 8),
        )
    } else {
        joined_groups(groups)
    }
}

/// The eight groups of an IPv6 address, most significant first.
fn split_groups(bits: u128) -> (groups: Vec<u16>)
    ensures
        groups@ == groups_of(bits as nat, 8),
        groups@.len() == 8,
{
    let mut reversed: Vec<u16> = Vec::new();
    let mut rest: u128 = bits;
    let mut i: usize = 0;
    let ghost mut spine: Seq<nat> = seq![bits as nat];
    while i < 8
        invariant
            i <= 8,
            reversed@.len() == i,
            spine.len() == i + 1,
            spine[0] == bits,
            spine[i as int] == rest,
            forall|k: int| 0 <= k < i ==> spine[k + 1] == #[trigger] spine[k] / 65536,
            forall|k: int| 0 <= k < i ==> reversed@[k] == (#[trigger] spine[k] % 65536) as u16,
        decreases 8 - i,
    {
        reversed.push((rest % 65536) as u16);
        rest = rest / 65536;
        proof {
            spine = spine.push(rest as nat);
        }
        i += 1;
    }
    let mut groups: Vec<u16> = Vec::new();
    let mut j: usize = 0;
    while j < 8
        invariant
            j <= 8,
            reversed@.len() == 8,
            spine.len() == 9,
            spine[0] == bits,
            forall|k: int| 0 <= k < 8 ==> spine[k + 1] == #[trigger] spine[k] / 65536,
            forall|k: int| 0 <= k < 8 ==> reversed@[k] == (#[trigger] spine[k] % 65536) as u16,
            groups@ == groups_of(spine[8 - j], j as nat),
        decreases 8 - j,
    {
        groups.push(reversed[7 - j]);
        j += 1;
    }
    proof {
        lemma_groups_of_len(bits as nat, 8);
    }
    groups
}

/// `groups_of` writes as many groups as asked.
pub proof fn lemma_groups_of_len(bits: nat, n: nat)
    ensures
        groups_of(bits, n).len() == n,
    decreases n,
{
    if n > 0 {
        lemma_groups_of_len(bits / 65536, (n - 1) as nat);
    }
}

/// Appends the groups from index `from` up to index `to`, joined by colons.
fn push_groups(out: &mut Vec<char>, groups: &Vec<u16>, from: usize, to: usize)
    requires
        from <= to <= groups@.len(),
    ensures
        final(out)@ == old(out)@ + joined_groups(groups@.subrange(from as int, to as int)),
{
    let mut i: usize = from;
    while i < to
        invariant
            from <= i <= to <= groups@.len(),
            out@ == old(out)@ + joined_groups(groups@.subrange(from as int, i as int)),
        decreases to - i,
    {
        let ghost done = groups@.subrange(from as int, i as int);
        let ghost next = groups@.subrange(from as int, i + 1);
        proof {
            assert(next.drop_last() =~= done);
        }
        if i > from {
            out.push(':');
        }
        push_hex(out, groups[i]);
        i += 1;
    }
}

/// The longest run of zero groups, the first one if several are as long.
fn longest_zero_run(groups: &Vec<u16>) -> (run: (usize, usize))
    requires
        groups@.len() == 8,
    ensures
        run.0 == zero_runs(groups@, 8).0.start,
        run.1 == zero_runs(groups@, 8).0.len,
        run.0 + run.1 <= 8,
{
    let mut longest: (usize, usize) = (0, 0);
    let mut current: (usize, usize) = (0, 0);
    let mut i: usize = 0;
    while i < 8
        invariant
            i <= 8,
            groups@.len() == 8,
            longest.0 == zero_runs(groups@, i as int).0.start,
            longest.1 == zero_runs(groups@, i as int).0.len,
            current.0 == zero_runs(groups@, i as int).1.start,
            current.1 == zero_runs(groups@, i as int).1.len,
            longest.0 + longest.1 <= i,
            current.0 + current.1 <= i,
            current.1 > 0 ==> current.0 + current.1 == i,
        decreases 8 - i,
    {
        if groups[i] == 0 {
            if current.1 == 0 {
                current = (i, 1);
            } else {
                current = (current.0, current.1 + 1);
            }
            if current.1 > longest.1 {
                longest = current;
            }
        } else {
            current = (0, 0);
        }
        i += 1;
    }
    longest
}

impl IpAddress {
    /// The map key that stands for this address.
    pub open spec fn key_spec(self) -> IpKey {
        match self {
            IpAddress::V4(bits) => (false, bits as u128),
            IpAddress::V6(bits) => (true, bits),
        }
    }

    /// The map key that stands for this address.
    pub fn key(&self) -> (k: IpKey)
        ensures
            k == self.key_spec(),
    {
        match self {
            IpAddress::V4(bits) => (false, *bits as u128),
            IpAddress::V6(bits) => (true, *bits),
        }
    }

    /// The text of the address.
    pub open spec fn text(self) -> Seq<char> {
        match self {
            IpAddress::V4(bits) => ipv4_text(bits),
            IpAddress::V6(bits) => ipv6_text(bits),
        }
    }

    /// Appends the text of the address.
    pub fn push_text(&self, out: &mut Vec<char>)
        ensures
            final(out)@ == old(out)@ + self.text(),
    {
        match self {
            IpAddress::V4(bits) => {
                push_ipv4(out, *bits);
            },
            IpAddress::V6(bits) => {
                let groups = split_groups(*bits);
                if groups[0] == 0 && groups[1] == 0 && groups[2] == 0 && groups[3] == 0
                    && groups[4] == 0 && groups[5] == 0xffff {
                    push_str(out, "::ffff:");
                    proof {
                        reveal_strlit("::ffff:");
                    }
                    let low: u32 = (groups[6] as u32) * 65536 + groups[7] as u32;
                    push_ipv4(out, low);
                } else {
                    let run = longest_zero_run(&groups);
                    if run.1 > 1 {
                        push_groups(out, &groups, 0, run.0);
                        out.push(':');
                        out.push(':');
                        push_groups(out, &groups, run.0 + run.1, 8);
                    } else {
                        push_groups(out, &groups, 0, 8);
                        assert(groups@.subrange(0, 8) =~= groups@);
                    }
                }
            },
        }
    }

    /// The text of the address.
    pub fn to_string(&self) -> (s: String)
        ensures
            s@ == self.text(),
    {
        let mut out: Vec<char> = Vec::new();
        self.push_text(&mut out);
        string_of(&out)
    }

    /// Reads an address from its text.
    pub fn parse_chars(s: &Vec<char>) -> (ip: Option<IpAddress>)
        ensures
            ip == parse_ip_spec(s@),
    {
        match parse_ipv4(s) {
            Some(bits) => Some(IpAddress::V4(bits)),
            None => match parse_ipv6(s) {
                Some(bits) => Some(IpAddress::V6(bits)),
                None => None,
            },
        }
    }

    /// Reads an address from its text.
    pub fn parse(s: &str) -> (ip: Option<IpAddress>)
        ensures
            ip == parse_ip_spec(s@),
    {
        Self::parse_chars(&chars_of(s))
    }
}

/// Distinct addresses have distinct keys.
pub proof fn lemma_key_injective(a: IpAddress, b: IpAddress)
    requires
        a.key_spec() == b.key_spec(),
    ensures
        a == b,
{
}

impl std::str::FromStr for IpAddress {
    type Err = AddrParseError;

    fn from_str(s: &str) -> (parsed: Result<IpAddress, AddrParseError>)
        ensures
            parsed is Ok <==> parse_ip_spec(s@) is Some,
            parsed is Ok ==> Some(parsed->Ok_0) == parse_ip_spec(s@),
    {
        match IpAddress::parse(s) {
            Some(ip) => Ok(ip),
            None => Err(AddrParseError),
        }
    }
}

} // verus!
