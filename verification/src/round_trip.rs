//! Writing an address and reading it back gives the address.

use vstd::prelude::*;
use crate::ip::{
    double_colon, group_list, group_text, group_values, groups_bound, groups_of, groups_value,
    hex_digits, hex_text, hex_value, ipv4_text, ipv6_groups, ipv6_text, is_hex_digit, is_v4_mapped,
    joined_groups, lemma_groups_of_len, lemma_groups_value_bound, octet_text, parse_ip_spec,
    parse_ipv4_spec, parse_ipv6_spec, zero_groups, zero_runs, IpAddress,
};
use crate::text::{
    all_digits, decimal, decimal_value, digits, first_occurrence, lemma_first_occurrence,
    lemma_is_first_occurrence, occurs_at, split_spec,
};

verus! {

/// No character of the text is `c`.
pub open spec fn free_of(s: Seq<char>, c: char) -> bool {
    forall|i: int| 0 <= i < s.len() ==> #[trigger] s[i] != c
}

/// A text without the separator is the one part of its split.
pub proof fn lemma_split_whole(s: Seq<char>, sep: char)
    requires
        free_of(s, sep),
    ensures
        split_spec(s, sep) == seq![s],
    decreases s.len(),
{
    if s.len() == 0 {
        assert(s =~= Seq::<char>::empty());
    } else {
        let front = s.drop_last();
        assert forall|i: int| 0 <= i < front.len() implies #[trigger] front[i] != sep by {
            assert(front[i] == s[i]);
        }
        lemma_split_whole(front, sep);
        assert(seq![front].drop_last().push(seq![front].last().push(s.last())) =~= seq![s]) by {
            assert(front.push(s.last()) =~= s);
        }
    }
}

/// Behind a separator, a text without the separator is one more part.
pub proof fn lemma_split_append(head: Seq<char>, tail: Seq<char>, sep: char)
    requires
        free_of(tail, sep),
    ensures
        split_spec(head + seq![sep] + tail, sep) == split_spec(head, sep).push(tail),
    decreases tail.len(),
{
    let whole = head + seq![sep] + tail;
    if tail.len() == 0 {
        assert(whole.drop_last() =~= head);
        assert(tail =~= Seq::<char>::empty());
    } else {
        let front = tail.drop_last();
        assert forall|i: int| 0 <= i < front.len() implies #[trigger] front[i] != sep by {
            assert(front[i] == tail[i]);
        }
        lemma_split_append(head, front, sep);
        assert(whole.drop_last() =~= head + seq![sep] + front);
        assert(front.push(tail.last()) =~= tail);
    }
}

/// The decimal numeral of a number is a run of digits without a leading
/// zero that writes the number.
pub proof fn lemma_decimal_numeral(n: nat)
    ensures
        decimal(n).len() >= 1,
        all_digits(decimal(n)),
        n >= 10 ==> decimal(n).len() >= 2 && decimal(n)[0] != '0',
        n < 10 ==> decimal(n).len() == 1,
        10 <= n < 100 ==> decimal(n).len() == 2,
        100 <= n < 1000 ==> decimal(n).len() == 3,
        decimal_value(decimal(n)) == n,
    decreases n,
{
    if n < 10 {
        let one = seq![digits()[n as int]];
        assert(decimal_value(one.drop_last()) == 0);
    } else {
        lemma_decimal_numeral(n / 10);
        let front = decimal(n / 10);
        let all = decimal(n);
        assert(all.drop_last() =~= front);
    }
}

/// A run of digits holds no dot and no colon.
pub proof fn lemma_digits_are_plain(s: Seq<char>)
    requires
        all_digits(s),
    ensures
        free_of(s, '.'),
        free_of(s, ':'),
{
}

/// The decimal numeral of a number up to 255 is the text of an octet.
pub proof fn lemma_octet_numeral(n: nat)
    requires
        n <= 255,
    ensures
        octet_text(decimal(n)),
        decimal_value(decimal(n)) == n,
        free_of(decimal(n), '.'),
        free_of(decimal(n), ':'),
{
    lemma_decimal_numeral(n);
    lemma_digits_are_plain(decimal(n));
}

/// The four parts of the text of an IPv4 address.
pub proof fn lemma_ipv4_text_parts(bits: u32)
    ensures
        split_spec(ipv4_text(bits), '.') == seq![
            decimal((bits / 16777216) as nat),
            decimal((bits / 65536 % 256) as nat),
            decimal((bits / 256 % 256) as nat),
            decimal((bits % 256) as nat),
        ],
{
    let a = decimal((bits / 16777216) as nat);
    let b = decimal((bits / 65536 % 256) as nat);
    let c = decimal((bits / 256 % 256) as nat);
    let d = decimal((bits % 256) as nat);
    lemma_octet_numeral((bits / 16777216) as nat);
    lemma_octet_numeral((bits / 65536 % 256) as nat);
    lemma_octet_numeral((bits / 256 % 256) as nat);
    lemma_octet_numeral((bits % 256) as nat);
    lemma_split_whole(a, '.');
    lemma_split_append(a, b, '.');
    lemma_split_append(a + seq!['.'] + b, c, '.');
    lemma_split_append(a + seq!['.'] + b + seq!['.'] + c, d, '.');
}

/// The text of an IPv4 address reads back as the address.
pub proof fn lemma_ipv4_round_trip(bits: u32)
    ensures
        parse_ipv4_spec(ipv4_text(bits)) == Some(bits),
        parse_ip_spec(IpAddress::V4(bits).text()) == Some(IpAddress::V4(bits)),
{
    lemma_ipv4_text_parts(bits);
    lemma_octet_numeral((bits / 16777216) as nat);
    lemma_octet_numeral((bits / 65536 % 256) as nat);
    lemma_octet_numeral((bits / 256 % 256) as nat);
    lemma_octet_numeral((bits % 256) as nat);
}

/// The hexadecimal numeral of a group is the text of a group that writes
/// the group, and it holds neither colon nor dot.
pub proof fn lemma_hex_numeral(n: nat)
    requires
        n < 65536,
    ensures
        hex_text(n).len() >= 1,
        n < 16 ==> hex_text(n).len() == 1,
        16 <= n < 256 ==> hex_text(n).len() == 2,
        256 <= n < 4096 ==> hex_text(n).len() == 3,
        4096 <= n ==> hex_text(n).len() == 4,
        forall|i: int| 0 <= i < hex_text(n).len() ==> is_hex_digit(#[trigger] hex_text(n)[i]),
        hex_value(hex_text(n)) == n,
    decreases n,
{
    if n < 16 {
        let one = seq![hex_digits()[n as int]];
        assert(hex_value(one.drop_last()) == 0);
    } else {
        lemma_hex_numeral(n / 16);
        let front = hex_text(n / 16);
        let all = hex_text(n);
        assert(all.drop_last() =~= front);
    }
}

/// The hexadecimal numeral of a group as a part of an address text.
pub proof fn lemma_group_numeral(g: u16)
    ensures
        group_text(hex_text(g as nat)),
        hex_value(hex_text(g as nat)) == g,
        free_of(hex_text(g as nat), ':'),
        free_of(hex_text(g as nat), '.'),
{
    lemma_hex_numeral(g as nat);
}

/// The hexadecimal numerals of a list of groups.
pub open spec fn group_texts(groups: Seq<u16>) -> Seq<Seq<char>> {
    Seq::new(groups.len(), |i: int| hex_text(groups[i] as nat))
}

/// The characters at index `i` and behind it are colons.
pub open spec fn colons_at(text: Seq<char>, i: int) -> bool {
    text[i] == ':' && text[i + 1] == ':'
}

/// The shape of a list of groups in text: it holds no dot and no `::`, and
/// where there is a group it neither starts nor ends with a colon.
pub open spec fn well_joined(text: Seq<char>) -> bool {
    &&& free_of(text, '.')
    &&& forall|i: int| 0 <= i && i + 1 < text.len() ==> !#[trigger] colons_at(text, i)
    &&& text.len() > 0 ==> text[0] != ':' && text[text.len() - 1] != ':'
}

/// Groups joined by colons split at the colons into their numerals, and the
/// joined text is well shaped.
pub proof fn lemma_joined_parts(groups: Seq<u16>)
    ensures
        well_joined(joined_groups(groups)),
        groups.len() > 0 ==> joined_groups(groups).len() > 0 && split_spec(
            joined_groups(groups),
            ':',
        ) == group_texts(groups),
        groups.len() == 0 ==> joined_groups(groups).len() == 0,
    decreases groups.len(),
{
    if groups.len() == 1 {
        lemma_group_numeral(groups[0]);
        lemma_split_whole(hex_text(groups[0] as nat), ':');
    } else if groups.len() > 1 {
        let front = groups.drop_last();
        let head = joined_groups(front);
        let tail = hex_text(groups.last() as nat);
        let all = joined_groups(groups);
        lemma_joined_parts(front);
        lemma_group_numeral(groups.last());
        lemma_split_append(head, tail, ':');
        assert forall|i: int| 0 <= i && i + 1 < all.len() implies !#[trigger] colons_at(
            all,
            i,
        ) by {
            if i + 1 < head.len() {
                assert(!colons_at(head, i));
            }
        }
    }
}

/// Groups joined by colons read back as the groups.
pub proof fn lemma_joined_reads(groups: Seq<u16>, v4_allowed: bool)
    ensures
        group_list(joined_groups(groups), v4_allowed) == Some(groups),
{
    lemma_joined_parts(groups);
    if groups.len() > 0 {
        let parts = group_texts(groups);
        assert forall|i: int| 0 <= i < parts.len() implies group_text(#[trigger] parts[i]) by {
            lemma_group_numeral(groups[i]);
        }
        assert forall|i: int| 0 <= i < parts.len() implies group_values(parts)[i] == groups[i] by {
            lemma_group_numeral(groups[i]);
        }
    }
}

/// The runs that `zero_runs` finds lie among the first `n` groups and hold
/// zero groups only; the open run ends at group `n`.
pub proof fn lemma_zero_runs(groups: Seq<u16>, n: int)
    requires
        0 <= n <= groups.len(),
    ensures
        ({
            let (longest, current) = zero_runs(groups, n);
            &&& 0 <= longest.start
            &&& 0 <= longest.len
            &&& longest.start + longest.len <= n
            &&& forall|k: int|
                longest.start <= k < longest.start + longest.len ==> #[trigger] groups[k] == 0
            &&& 0 <= current.start
            &&& 0 <= current.len
            &&& current.start + current.len <= n
            &&& forall|k: int|
                current.start <= k < current.start + current.len ==> #[trigger] groups[k] == 0
            &&& current.len > 0 ==> current.start + current.len == n
        }),
    decreases n,
{
    if n > 0 {
        lemma_zero_runs(groups, n - 1);
    }
}

/// The groups of a number write the number, if the number fits them.
pub proof fn lemma_groups_write_bits(bits: nat, n: nat)
    requires
        bits < groups_bound(n),
    ensures
        groups_value(groups_of(bits, n)) == bits,
        groups_of(bits, n).len() == n,
    decreases n,
{
    lemma_groups_of_len(bits, n);
    if n > 0 {
        let rest = bits / 65536;
        assert(rest < groups_bound((n - 1) as nat)) by {
            if rest >= groups_bound((n - 1) as nat) {
                assert(rest * 65536 >= groups_bound((n - 1) as nat) * 65536) by (nonlinear_arith)
                    requires
                        rest >= groups_bound((n - 1) as nat),
                ;
            }
        }
        lemma_groups_write_bits(rest, (n - 1) as nat);
        let all = groups_of(bits, n);
        assert(all.drop_last() =~= groups_of(rest, (n - 1) as nat));
    }
}

/// `::` occurs at an index exactly when the two characters there are
/// colons.
pub proof fn lemma_fold_at(text: Seq<char>, i: int)
    ensures
        occurs_at(text, double_colon(), i) <==> (0 <= i && i + 2 <= text.len() && colons_at(
            text,
            i,
        )),
{
    if 0 <= i && i + 2 <= text.len() {
        let pair = text.subrange(i, i + 2);
        if colons_at(text, i) {
            assert(pair =~= double_colon());
        }
    }
}

/// In a text that holds `::` at some index and not before, the first `::`
/// is at that index.
pub proof fn lemma_first_fold(text: Seq<char>, at: int)
    requires
        occurs_at(text, double_colon(), at),
        forall|j: int| 0 <= j < at ==> !occurs_at(text, double_colon(), j),
    ensures
        first_occurrence(text, double_colon()) == Some(at),
{
    lemma_is_first_occurrence(text, double_colon(), at);
}

/// A well-shaped list of groups holds no `::`.
pub proof fn lemma_no_fold(text: Seq<char>)
    requires
        well_joined(text),
    ensures
        first_occurrence(text, double_colon()) is None,
{
    assert forall|i: int| !occurs_at(text, double_colon(), i) by {
        lemma_fold_at(text, i);
    }
    lemma_first_occurrence(text, double_colon());
}

/// What stands on the two sides of a `::` between two texts.
pub proof fn lemma_fold_sides(head: Seq<char>, tail: Seq<char>)
    ensures
        (head + double_colon() + tail).subrange(0, head.len() as int) == head,
        (head + double_colon() + tail).subrange(
            head.len() as int + 2,
            (head + double_colon() + tail).len() as int,
        ) == tail,
{
}

/// `::` stands between the two texts that it joins.
proof fn lemma_fold_in_place(head: Seq<char>, tail: Seq<char>)
    ensures
        occurs_at(head + double_colon() + tail, double_colon(), head.len() as int),
{
    let text = head + double_colon() + tail;
    assert(text.subrange(head.len() as int, head.len() as int + 2) =~= double_colon());
}

/// No `::` starts inside a well-shaped list of groups that stands before a
/// `::`.
proof fn lemma_no_fold_before(head: Seq<char>, tail: Seq<char>, j: int)
    requires
        well_joined(head),
        0 <= j < head.len(),
    ensures
        !occurs_at(head + double_colon() + tail, double_colon(), j),
{
    let text = head + double_colon() + tail;
    lemma_fold_at(text, j);
    if j + 1 < head.len() {
        assert(!colons_at(head, j));
    }
}

/// Two lists of groups with `::` between them: the first `::` of the text
/// is the one between the lists.
pub proof fn lemma_fold_between(head: Seq<char>, tail: Seq<char>)
    requires
        well_joined(head),
    ensures
        first_occurrence(head + double_colon() + tail, double_colon()) == Some(head.len() as int),
{
    let text = head + double_colon() + tail;
    lemma_fold_in_place(head, tail);
    assert forall|j: int| 0 <= j < head.len() implies !occurs_at(text, double_colon(), j) by {
        lemma_no_fold_before(head, tail, j);
    }
    lemma_first_fold(text, head.len() as int);
}

/// A text without a dot is no IPv4 address.
pub proof fn lemma_dotless_is_no_ipv4(text: Seq<char>)
    requires
        free_of(text, '.'),
    ensures
        parse_ipv4_spec(text) is None,
{
    lemma_split_whole(text, '.');
}

/// The numeral of the group `ffff`.
pub proof fn lemma_all_ones_numeral()
    ensures
        hex_text(0xffff) == seq!['f', 'f', 'f', 'f'],
{
    reveal_with_fuel(hex_text, 5);
}

/// The text of an IPv4 address holds no colon and has seven characters or
/// more.
proof fn lemma_ipv4_text_shape(low: u32)
    ensures
        free_of(ipv4_text(low), ':'),
        ipv4_text(low).len() >= 7,
{
    lemma_octet_numeral((low / 16777216) as nat);
    lemma_octet_numeral((low / 65536 % 256) as nat);
    lemma_octet_numeral((low / 256 % 256) as nat);
    lemma_octet_numeral((low % 256) as nat);
}

/// An IPv4 text behind a prefix that holds a colon and no dot is no IPv4
/// address.
#[verifier::rlimit(50)]
proof fn lemma_prefixed_is_no_ipv4(prefix: Seq<char>, low: u32)
    requires
        free_of(prefix, '.'),
        prefix.len() > 0,
        prefix[0] == ':',
    ensures
        parse_ipv4_spec(prefix + ipv4_text(low)) is None,
{
    let a = decimal((low / 16777216) as nat);
    let b = decimal((low / 65536 % 256) as nat);
    let c = decimal((low / 256 % 256) as nat);
    let d = decimal((low % 256) as nat);
    lemma_octet_numeral((low / 16777216) as nat);
    lemma_octet_numeral((low / 65536 % 256) as nat);
    lemma_octet_numeral((low / 256 % 256) as nat);
    lemma_octet_numeral((low % 256) as nat);
    let first = prefix + a;
    lemma_split_whole(first, '.');
    lemma_split_append(first, b, '.');
    lemma_split_append(first + seq!['.'] + b, c, '.');
    lemma_split_append(first + seq!['.'] + b + seq!['.'] + c, d, '.');
    let text = prefix + ipv4_text(low);
    assert(text =~= first + seq!['.'] + b + seq!['.'] + c + seq!['.'] + d);
}

/// The group `ffff`, a colon and an IPv4 text read as three groups.
proof fn lemma_mapped_tail_reads(low: u32)
    ensures
        group_list(seq!['f', 'f', 'f', 'f'] + seq![':'] + ipv4_text(low), true) == Some(
            seq![0xffffu16].push((low / 65536) as u16).push((low % 65536) as u16),
        ),
{
    let v4 = ipv4_text(low);
    let ones = seq!['f', 'f', 'f', 'f'];
    lemma_ipv4_round_trip(low);
    lemma_ipv4_text_shape(low);
    lemma_all_ones_numeral();
    lemma_group_numeral(0xffff);
    lemma_split_whole(ones, ':');
    lemma_split_append(ones, v4, ':');
}

/// The text of a mapped IPv4 address reads back as its eight groups.
proof fn lemma_mapped_round_trip(groups: Seq<u16>)
    requires
        groups.len() == 8,
        is_v4_mapped(groups),
    ensures
        ({
            let low = (groups[6] as nat * 65536 + groups[7] as nat) as u32;
            let text = seq![':', ':', 'f', 'f', 'f', 'f', ':'] + ipv4_text(low);
            &&& parse_ipv4_spec(text) is None
            &&& ipv6_groups(text) == Some(groups)
        }),
{
    let low = (groups[6] as nat * 65536 + groups[7] as nat) as u32;
    let v4 = ipv4_text(low);
    let prefix = seq![':', ':', 'f', 'f', 'f', 'f', ':'];
    let text = prefix + v4;
    lemma_prefixed_is_no_ipv4(prefix, low);

    let tail = seq!['f', 'f', 'f', 'f'] + seq![':'] + v4;
    assert(text =~= Seq::<char>::empty() + double_colon() + tail);
    lemma_fold_in_place(Seq::<char>::empty(), tail);
    lemma_first_fold(text, 0);
    lemma_fold_sides(Seq::<char>::empty(), tail);
    lemma_mapped_tail_reads(low);
    let read = seq![0xffffu16].push((low / 65536) as u16).push((low % 65536) as u16);
    lemma_folded_groups(text, 0, Seq::<u16>::empty(), read);
}

/// A text made of two dotless texts and `::` holds no dot.
proof fn lemma_fold_is_dotless(head: Seq<char>, tail: Seq<char>)
    requires
        free_of(head, '.'),
        free_of(tail, '.'),
    ensures
        free_of(head + double_colon() + tail, '.'),
{
}

/// Groups joined by colons make a well-shaped text.
proof fn lemma_joined_shape(groups: Seq<u16>)
    ensures
        well_joined(joined_groups(groups)),
        free_of(joined_groups(groups), '.'),
{
    lemma_joined_parts(groups);
}

/// A text whose first `::` has a list of groups on each side denotes the
/// groups of the first list, zero groups for the gap, and the groups of the
/// second list.
proof fn lemma_folded_groups(text: Seq<char>, at: int, front: Seq<u16>, back: Seq<u16>)
    requires
        first_occurrence(text, double_colon()) == Some(at),
        group_list(text.subrange(0, at), false) == Some(front),
        group_list(text.subrange(at + 2, text.len() as int), true) == Some(back),
        front.len() + back.len() <= 7,
    ensures
        ipv6_groups(text) == Some(
            front + zero_groups((8 - front.len() - back.len()) as nat) + back,
        ),
{
}

/// Two lists of at most seven groups with `::` between them read back as
/// the groups of the first list, zero groups for the gap, and the groups of
/// the second list.
pub proof fn lemma_folded_reads(front: Seq<u16>, back: Seq<u16>)
    requires
        front.len() + back.len() <= 7,
    ensures
        ipv6_groups(joined_groups(front) + double_colon() + joined_groups(back)) == Some(
            front + zero_groups((8 - front.len() - back.len()) as nat) + back,
        ),
        free_of(joined_groups(front) + double_colon() + joined_groups(back), '.'),
{
    let head = joined_groups(front);
    let tail = joined_groups(back);
    let text = head + double_colon() + tail;
    lemma_joined_shape(front);
    lemma_joined_shape(back);
    lemma_fold_between(head, tail);
    lemma_fold_sides(head, tail);
    lemma_joined_reads(front, false);
    lemma_joined_reads(back, true);
    lemma_fold_is_dotless(head, tail);
    lemma_folded_groups(text, head.len() as int, front, back);
}

/// Eight groups with a run of zero groups are what stands before the run,
/// as many zero groups as the run has, and what stands behind the run.
proof fn lemma_run_fills(groups: Seq<u16>, start: int, len: int)
    requires
        groups.len() == 8,
        0 <= start,
        0 <= len,
        start + len <= 8,
        forall|k: int| start <= k < start + len ==> #[trigger] groups[k] == 0,
    ensures
        groups.subrange(0, start) + zero_groups(len as nat) + groups.subrange(start + len, 8)
            == groups,
{
}

/// The longest run of zero groups among eight groups: where it lies and
/// that it holds zero groups only.
proof fn lemma_longest_run(groups: Seq<u16>)
    requires
        groups.len() == 8,
    ensures
        0 <= zero_runs(groups, 8).0.start,
        0 <= zero_runs(groups, 8).0.len,
        zero_runs(groups, 8).0.start + zero_runs(groups, 8).0.len <= 8,
        forall|k: int|
            zero_runs(groups, 8).0.start <= k < zero_runs(groups, 8).0.start + zero_runs(
                groups,
                8,
            ).0.len ==> #[trigger] groups[k] == 0,
{
    lemma_zero_runs(groups, 8);
}

/// The text of an address whose longest zero run is folded reads back as
/// its eight groups.
proof fn lemma_folded_round_trip(groups: Seq<u16>, start: int, len: int)
    requires
        groups.len() == 8,
        0 <= start,
        2 <= len,
        start + len <= 8,
        forall|k: int| start <= k < start + len ==> #[trigger] groups[k] == 0,
    ensures
        parse_ipv4_spec(
            joined_groups(groups.subrange(0, start)) + double_colon() + joined_groups(
                groups.subrange(start + len, 8),
            ),
        ) is None,
        ipv6_groups(
            joined_groups(groups.subrange(0, start)) + double_colon() + joined_groups(
                groups.subrange(start + len, 8),
            ),
        ) == Some(groups),
{
    let front = groups.subrange(0, start);
    let back = groups.subrange(start + len, 8);
    lemma_folded_reads(front, back);
    lemma_run_fills(groups, start, len);
    lemma_dotless_is_no_ipv4(joined_groups(front) + double_colon() + joined_groups(back));
}

/// The text of an address that is written without a fold reads back as its
/// eight groups.
proof fn lemma_plain_round_trip(groups: Seq<u16>)
    requires
        groups.len() == 8,
    ensures
        parse_ipv4_spec(joined_groups(groups)) is None,
        ipv6_groups(joined_groups(groups)) == Some(groups),
{
    lemma_joined_parts(groups);
    lemma_no_fold(joined_groups(groups));
    lemma_joined_reads(groups, true);
    lemma_dotless_is_no_ipv4(joined_groups(groups));
}

/// The text of an IPv6 address reads back as the address.
pub proof fn lemma_ipv6_round_trip(bits: u128)
    ensures
        parse_ipv4_spec(ipv6_text(bits)) is None,
        parse_ipv6_spec(ipv6_text(bits)) == Some(bits),
        parse_ip_spec(IpAddress::V6(bits).text()) == Some(IpAddress::V6(bits)),
{
    let groups = groups_of(bits as nat, 8);
    lemma_groups_value_bound(groups);
    lemma_groups_write_bits(bits as nat, 8);
    if is_v4_mapped(groups) {
        lemma_mapped_round_trip(groups);
    } else if zero_runs(groups, 8).0.len > 1 {
        lemma_longest_run(groups);
        lemma_folded_round_trip(
            groups,
            zero_runs(groups, 8).0.start,
            zero_runs(groups, 8).0.len,
        );
    } else {
        lemma_plain_round_trip(groups);
    }
}

/// The text of an address reads back as the address.
pub proof fn lemma_round_trip(ip: IpAddress)
    ensures
        parse_ip_spec(ip.text()) == Some(ip),
{
    match ip {
        IpAddress::V4(bits) => lemma_ipv4_round_trip(bits),
        IpAddress::V6(bits) => lemma_ipv6_round_trip(bits),
    }
}

} // verus!
