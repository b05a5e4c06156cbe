//! Which texts stand for which numbers, addresses and subnets.

use vstd::prelude::*;

use crate::addr::{IpAddr, Ipv4Addr, Ipv6Addr};
use crate::address_text;
use crate::cli;
use crate::cli::CliError;
use crate::text;

verus! {

/// Whether a text consists of decimal digits, at least one.
pub open spec fn is_digits(s: Seq<char>) -> bool {
    s.len() > 0 && forall|i: int| 0 <= i < s.len() ==> '0' <= #[trigger] s[i] <= '9'
}

/// Which characters are digits, and what they count.
pub proof fn law_what_digits_count(c: char)
    ensures
        '0' <= c <= '9' ==> text::digit(c, 10) == Some((c as int - 48) as nat),
        !('0' <= c <= '9') ==> text::digit(c, 10) is None,
        '0' <= c <= '9' ==> text::digit(c, 16) == Some((c as int - 48) as nat),
        'a' <= c <= 'f' ==> text::digit(c, 16) == Some((c as int - 87) as nat),
        'A' <= c <= 'F' ==> text::digit(c, 16) == Some((c as int - 55) as nat),
        !('0' <= c <= '9') && !('a' <= c <= 'f') && !('A' <= c <= 'F') ==> text::digit(
            c,
            16,
        ) is None,
{
}

proof fn lemma_digits_have_a_value(s: Seq<char>)
    requires
        forall|i: int| 0 <= i < s.len() ==> '0' <= #[trigger] s[i] <= '9',
    ensures
        text::digits_value(s, 10) is Some,
    decreases s.len(),
{
    if s.len() > 0 {
        let earlier = s.drop_last();
        assert forall|i: int| 0 <= i < earlier.len() implies '0' <= #[trigger] earlier[i]
            <= '9' by {
            assert(earlier[i] == s[i]);
        }
        lemma_digits_have_a_value(earlier);
        assert('0' <= s[s.len() - 1] <= '9');
    }
}

/// A text stands for a number exactly if it consists of digits, behind a plus sign or
/// not, and the number is not above the limit.
pub proof fn law_which_texts_are_numbers(s: Seq<char>, max: nat)
    ensures
        text::number(s, max) is Some ==> is_digits(s) || (s.len() > 0 && s[0] == '+' && is_digits(
            s.skip(1),
        )),
        text::number(s, max) matches Some(v) ==> v <= max,
        is_digits(s) ==> (exists|large: nat| #[trigger] text::number(s, large) is Some),
        is_digits(s) ==> text::number(seq!['+'] + s, max) == text::number(s, max),
{
    let digits = if s.len() > 0 && s[0] == '+' {
        s.skip(1)
    } else {
        s
    };
    if text::number(s, max) is Some {
        assert forall|i: int| 0 <= i < digits.len() implies '0' <= #[trigger] digits[i] <= '9' by {
            if !('0' <= digits[i] <= '9') {
                text::lemma_no_digits(digits, i, 10);
            }
        }
        assert(is_digits(digits));
    }
    if is_digits(s) {
        assert('0' <= s[0] <= '9');
        lemma_digits_have_a_value(s);
        let v = text::digits_value(s, 10)->0;
        assert(text::number(s, v) is Some);
        assert((seq!['+'] + s).skip(1) =~= s);
    }
}

/// The limit is only a limit: below it, it changes nothing about the number.
pub proof fn law_the_limit_of_a_number(s: Seq<char>, v: nat, large: nat, max: nat)
    requires
        text::number(s, large) == Some(v),
    ensures
        v <= max ==> text::number(s, max) == Some(v),
        v > max ==> text::number(s, max) is None,
{
}

/// One digit stands for what it counts; a digit behind others stands for ten times as
/// much as they do, and what it counts.
pub proof fn law_numbers_are_decimal(s: Seq<char>, v: nat, c: char, max: nat)
    requires
        text::number(s, v) == Some(v),
        '0' <= c <= '9',
    ensures
        text::number(s.push(c), max) == (if 10 * v + (c as int - 48) <= max {
            Some((10 * v + (c as int - 48)) as nat)
        } else {
            None
        }),
        c as int - 48 <= max ==> text::number(seq![c], max) == Some((c as int - 48) as nat),
{
    let longer = s.push(c);
    if s[0] == '+' {
        assert(longer.skip(1) =~= s.skip(1).push(c));
        assert(longer.skip(1).drop_last() =~= s.skip(1));
    } else {
        assert(longer.drop_last() =~= s);
    }
    assert(seq![c].drop_last() =~= Seq::<char>::empty());
    assert(text::digits_value(Seq::<char>::empty(), 10) == Some(0nat));
}

proof fn lemma_zero_in_front(s: Seq<char>, radix: nat)
    requires
        radix == 10 || radix == 16,
    ensures
        text::digits_value(seq!['0'] + s, radix) == text::digits_value(s, radix),
    decreases s.len(),
{
    let longer = seq!['0'] + s;
    if s.len() == 0 {
        assert(longer =~= seq!['0']);
        assert(longer.drop_last() =~= Seq::<char>::empty());
        assert(s =~= Seq::<char>::empty());
        assert(text::digits_value(Seq::<char>::empty(), radix) == Some(0nat));
        assert(0 * radix == 0);
    } else {
        lemma_zero_in_front(s.drop_last(), radix);
        assert(longer.drop_last() =~= seq!['0'] + s.drop_last());
    }
}

/// A zero in front changes nothing about a number.
pub proof fn law_zeros_in_front_of_a_number(s: Seq<char>, max: nat)
    requires
        is_digits(s),
    ensures
        text::number(seq!['0'] + s, max) == text::number(s, max),
{
    assert('0' <= s[0] <= '9');
    lemma_zero_in_front(s, 10);
}

/// A number is written in decimal digits, without a zero in front.
pub proof fn law_how_numbers_are_written(n: nat)
    ensures
        is_digits(text::decimal(n)),
        n > 0 ==> text::decimal(n)[0] != '0',
        n == 0 ==> text::decimal(n) == seq!['0'],
        text::number(text::decimal(n), n) == Some(n),
{
    address_text::lemma_decimal_digits(n);
    text::law_decimal_is_read_back(n, n);
}

/// Digits without a zero in front are the digits of their value.
proof fn lemma_digits_of_value(s: Seq<char>, v: nat)
    requires
        s.len() > 0,
        s.len() > 1 ==> s[0] != '0',
        text::digits_value(s, 10) == Some(v),
    ensures
        text::decimal(v) == s,
    decreases s.len(),
{
    let earlier = s.drop_last();
    let c = s.last();
    let d = text::digit(c, 10)->0;
    assert(c == (d + '0' as int) as char);
    if s.len() == 1 {
        assert(earlier =~= Seq::<char>::empty());
        assert(text::digits_value(Seq::<char>::empty(), 10) == Some(0nat));
        assert(s =~= seq![c]);
    } else {
        let w = text::digits_value(earlier, 10)->0;
        lemma_digits_of_value(earlier, w);
        assert(earlier[0] == s[0]);
        if w == 0 {
            assert(text::decimal(0)[0] == '0');
        }
        assert(v / 10 == w && v % 10 == d);
        assert(s =~= earlier.push(c));
    }
}

/// The parts of a text, with the separator in between, are the text; and a text that is
/// put together of parts is taken apart into them.
pub proof fn law_parts_make_the_text(s: Seq<char>, separator: char)
    ensures
        address_text::joined(text::split(s, separator), separator) == s,
        text::split(s, separator).len() > 0,
    decreases s.len(),
{
    if s.len() > 0 {
        let earlier = s.drop_last();
        let before = text::split(earlier, separator);
        let parts = text::split(s, separator);
        law_parts_make_the_text(earlier, separator);
        if s.last() == separator {
            assert(parts.drop_last() =~= before);
            assert(address_text::joined(parts, separator) =~= earlier.push(separator) + seq![]);
            assert(earlier.push(separator) + Seq::<char>::empty() =~= s);
        } else {
            let part = before.last().push(s.last());
            assert(parts =~= before.drop_last().push(part));
            if before.len() == 1 {
                assert(parts[0] == part);
                assert(before[0] == earlier);
                assert(part =~= s);
            } else {
                assert(parts.drop_last() =~= before.drop_last());
                let head = address_text::joined(before.drop_last(), separator).push(separator);
                assert(head + before.last() == earlier);
                assert(head + part =~= (head + before.last()).push(s.last()));
                assert((head + before.last()).push(s.last()) =~= s);
            }
        }
    } else {
        assert(text::split(s, separator)[0] =~= s);
    }
}

/// Parts that do not hold the separator are the parts of the text that they make.
pub proof fn law_a_text_is_taken_apart_into_its_parts(parts: Seq<Seq<char>>, separator: char)
    requires
        parts.len() > 0,
        forall|i: int| 0 <= i < parts.len() ==> !(#[trigger] parts[i]).contains(separator),
    ensures
        text::split(address_text::joined(parts, separator), separator) == parts,
{
    address_text::lemma_split_joined(parts, separator);
}

/// An octet stands in the text as its decimal digits and in no other way.
pub proof fn law_octets_have_one_text(s: Seq<char>, v: u8)
    ensures
        text::octet(s) == Some(v) <==> s == text::decimal(v as nat),
{
    address_text::lemma_octet(v);
    if text::octet(s) == Some(v) {
        lemma_digits_of_value(s, v as nat);
    }
}

/// An IPv4 address stands in the text as its four octets in decimal with dots in
/// between, the first one first, and in no other way.
pub proof fn law_ipv4_addresses_have_one_text(s: Seq<char>, a: u8, b: u8, c: u8, d: u8)
    ensures
        text::ipv4(s) == Some(
            Ipv4Addr { bits: (a * 0x100_0000 + b * 0x1_0000 + c * 0x100 + d) as u32 },
        ) <==> s == text::decimal(a as nat).push('.') + text::decimal(b as nat).push('.')
            + text::decimal(c as nat).push('.') + text::decimal(d as nat),
{
    let plain = text::decimal(a as nat).push('.') + text::decimal(b as nat).push('.')
        + text::decimal(c as nat).push('.') + text::decimal(d as nat);
    let texts = seq![
        text::decimal(a as nat),
        text::decimal(b as nat),
        text::decimal(c as nat),
        text::decimal(d as nat),
    ];
    lemma_four_joined(texts);
    assert(address_text::dotted(a, b, c, d) =~= plain);
    address_text::lemma_dotted(a, b, c, d);
    if text::ipv4(s) == Some(
        Ipv4Addr { bits: (a * 0x100_0000 + b * 0x1_0000 + c * 0x100 + d) as u32 },
    ) {
        let parts = text::split(s, '.');
        law_parts_make_the_text(s, '.');
        let e = text::octet(parts[0])->0;
        let f = text::octet(parts[1])->0;
        let g = text::octet(parts[2])->0;
        let h = text::octet(parts[3])->0;
        assert(e * 0x100_0000 + f * 0x1_0000 + g * 0x100 + h == a * 0x100_0000 + b * 0x1_0000 + c
            * 0x100 + d);
        assert(e == a && f == b && g == c && h == d);
        law_octets_have_one_text(parts[0], a);
        law_octets_have_one_text(parts[1], b);
        law_octets_have_one_text(parts[2], c);
        law_octets_have_one_text(parts[3], d);
        assert(parts =~= texts);
    }
}

proof fn lemma_four_joined(parts: Seq<Seq<char>>)
    requires
        parts.len() == 4,
    ensures
        address_text::joined(parts, '.') == parts[0].push('.') + parts[1].push('.')
            + parts[2].push('.') + parts[3],
{
    let three = parts.drop_last();
    let two = three.drop_last();
    let one = two.drop_last();
    assert(one.len() == 1);
    assert(address_text::joined(one, '.') == parts[0]);
    assert(address_text::joined(two, '.') == parts[0].push('.') + parts[1]);
    assert(address_text::joined(three, '.') == (parts[0].push('.') + parts[1]).push('.')
        + parts[2]);
    assert(address_text::joined(parts, '.') =~= parts[0].push('.') + parts[1].push('.')
        + parts[2].push('.') + parts[3]);
}

/// Whether a text consists of one to four hexadecimal digits, of either case.
pub open spec fn is_group(s: Seq<char>) -> bool {
    1 <= s.len() <= 4 && forall|i: int|
        0 <= i < s.len() ==> ('0' <= #[trigger] s[i] <= '9' || 'a' <= s[i] <= 'f' || 'A' <= s[i]
            <= 'F')
}

/// A group stands in the text as one to four hexadecimal digits of either case, each
/// counting sixteen times as much as the one behind it.
pub proof fn law_which_texts_are_groups(s: Seq<char>, c: char)
    ensures
        text::group(s) is Some <==> is_group(s),
        is_group(seq![c]) ==> text::group(seq![c]) == Some(text::digit(c, 16)->0 as u16),
        is_group(s) && is_group(s.push(c)) ==> text::group(s.push(c)) == Some(
            (16 * text::group(s)->0 + text::digit(c, 16)->0) as u16,
        ),
        is_group(s) && s.len() < 4 ==> text::group(seq!['0'] + s) == text::group(s),
{
    if 1 <= s.len() <= 4 {
        if is_group(s) {
            lemma_hex_digits_have_a_value(s);
        } else {
            let i = choose|i: int|
                0 <= i < s.len() && !('0' <= #[trigger] s[i] <= '9' || 'a' <= s[i] <= 'f' || 'A'
                    <= s[i] <= 'F');
            text::lemma_no_digits(s, i, 16);
        }
    }
    assert(seq![c].drop_last() =~= Seq::<char>::empty());
    assert(text::digits_value(Seq::<char>::empty(), 16) == Some(0nat));
    if is_group(seq![c]) {
        assert(seq![c][0] == c);
        assert(text::digit(c, 16) is Some);
    }
    if is_group(s) && is_group(s.push(c)) {
        assert(s.push(c)[s.len() as int] == c);
        assert(s.push(c).drop_last() =~= s);
        text::lemma_group_fits(s);
        text::lemma_group_fits(s.push(c));
    }
    lemma_zero_in_front(s, 16);
}

proof fn lemma_hex_digits_have_a_value(s: Seq<char>)
    requires
        forall|i: int|
            0 <= i < s.len() ==> ('0' <= #[trigger] s[i] <= '9' || 'a' <= s[i] <= 'f' || 'A' <= s[i]
                <= 'F'),
    ensures
        text::digits_value(s, 16) is Some,
    decreases s.len(),
{
    if s.len() > 0 {
        let earlier = s.drop_last();
        assert forall|i: int| 0 <= i < earlier.len() implies ('0' <= #[trigger] earlier[i] <= '9'
            || 'a' <= earlier[i] <= 'f' || 'A' <= earlier[i] <= 'F') by {
            assert(earlier[i] == s[i]);
        }
        lemma_hex_digits_have_a_value(earlier);
        assert(s[s.len() - 1] == s.last());
    }
}

/// A text with a colon is no IPv4 address, and one without is no IPv6 address; so an
/// address is of the family that its text says.
pub proof fn law_the_text_says_the_family(s: Seq<char>)
    ensures
        text::ipv4(s) is Some ==> !s.contains(':'),
        text::ipv6(s) is Some ==> s.contains(':'),
        match text::ip(s) {
            Some(IpAddr::V4(a)) => text::ipv4(s) == Some(a),
            Some(IpAddr::V6(a)) => text::ipv6(s) == Some(a),
            None => text::ipv4(s) is None && text::ipv6(s) is None,
        },
        text::ipv4(s) matches Some(a) ==> text::ip(s) == Some(IpAddr::V4(a)),
        text::ipv6(s) matches Some(a) ==> text::ip(s) == Some(IpAddr::V6(a)),
{
    if s.contains(':') {
        address_text::lemma_colon_is_no_ipv4(s);
    } else {
        lemma_no_colon_is_no_ipv6(s);
    }
}

proof fn lemma_no_colon_is_no_ipv6(s: Seq<char>)
    requires
        !s.contains(':'),
    ensures
        text::ipv6(s) is None,
{
    assert forall|i: int| 0 <= i < s.len() implies s[i] != ':' by {
        assert(s.contains(s[i]));
    }
    address_text::lemma_double_colon(s, 0, s.len() as int);
    address_text::lemma_split_one(s, ':');
    let parts = text::split(s, ':');
    assert(parts.drop_last() =~= Seq::<Seq<char>>::empty());
    assert(text::groups(Seq::<Seq<char>>::empty()) == Some(Seq::<u16>::empty()));
}

/// The eight groups of an IPv6 address may be written out, in hexadecimal with colons in
/// between; or any run of zeros among them, at least one, may be written as `::`.
#[verifier::spinoff_prover]
pub proof fn law_ipv6_texts(w: Seq<u16>, start: int, n: nat)
    requires
        w.len() == 8,
    ensures
        text::ipv6(address_text::joined(address_text::group_texts(w), ':')) == Some(
            Ipv6Addr { bits: Ipv6Addr::of_segments(w) as u128 },
        ),
        0 <= start && n > 0 && start + n <= 8 && (forall|i: int|
            start <= i < start + n ==> w[i] == 0) ==> text::ipv6(
            address_text::joined(address_text::group_texts(w.take(start)), ':') + seq![':', ':']
                + address_text::joined(address_text::group_texts(w.skip(start + n)), ':'),
        ) == Some(Ipv6Addr { bits: Ipv6Addr::of_segments(w) as u128 }),
{
    address_text::lemma_written_out(w);
    if 0 <= start && n > 0 && start + n <= 8 && (forall|i: int| start <= i < start + n ==> w[i] == 0) {
        address_text::lemma_written_short(w, start, n);
    }
}

/// Without `::` there are exactly eight groups.
pub proof fn law_ipv6_has_eight_groups(w: Seq<u16>)
    requires
        w.len() != 8,
    ensures
        text::ipv6(address_text::joined(address_text::group_texts(w), ':')) is None,
{
    address_text::lemma_not_eight(w);
}

/// The last two groups may be written as an IPv4 address: behind six others.
pub proof fn law_ipv6_may_end_in_ipv4(w: Seq<u16>, a: Ipv4Addr)
    ensures
        ({
            let s = address_text::joined(
                address_text::group_texts(w).push(address_text::ipv4_text(a)),
                ':',
            );
            let tail = seq![(a.bits / 0x1_0000) as u16, (a.bits % 0x1_0000) as u16];
            if w.len() == 6 {
                text::ipv6(s) == Some(
                    Ipv6Addr { bits: Ipv6Addr::of_segments(w + tail) as u128 },
                )
            } else {
                text::ipv6(s) is None
            }
        }),
{
    address_text::lemma_written_out_with_ipv4(w, a);
}

/// `::` stands for the groups of zeros that are missing to eight, at least one.
pub proof fn law_what_a_double_colon_stands_for(h: Seq<u16>, t: Seq<u16>)
    ensures
        ({
            let s = address_text::joined(address_text::group_texts(h), ':') + seq![':', ':']
                + address_text::joined(address_text::group_texts(t), ':');
            if h.len() + t.len() < 8 {
                text::ipv6(s) == Some(
                    Ipv6Addr {
                        bits: Ipv6Addr::of_segments(
                            h + Seq::new((8 - h.len() - t.len()) as nat, |i: int| 0u16) + t,
                        ) as u128,
                    },
                )
            } else {
                text::ipv6(s) is None
            }
        }),
{
    address_text::lemma_around(h, t);
    if h.len() + t.len() < 8 {
        assert(text::zeros((8 - h.len() - t.len()) as nat) =~= Seq::new(
            (8 - h.len() - t.len()) as nat,
            |i: int| 0u16,
        ));
    }
}

/// Behind `::` the last two groups may be written as an IPv4 address too; before it,
/// none may.
pub proof fn law_ipv4_behind_a_double_colon(
    h: Seq<u16>,
    t: Seq<u16>,
    a: Ipv4Addr,
    rest: Seq<char>,
)
    ensures
        ({
            let s = address_text::joined(address_text::group_texts(h), ':') + seq![':', ':']
                + address_text::joined(
                address_text::group_texts(t).push(address_text::ipv4_text(a)),
                ':',
            );
            let tail = t + seq![(a.bits / 0x1_0000) as u16, (a.bits % 0x1_0000) as u16];
            if h.len() + t.len() < 6 {
                text::ipv6(s) == Some(
                    Ipv6Addr {
                        bits: Ipv6Addr::of_segments(
                            h + Seq::new((6 - h.len() - t.len()) as nat, |i: int| 0u16) + tail,
                        ) as u128,
                    },
                )
            } else {
                text::ipv6(s) is None
            }
        }),
        text::ipv6(
            address_text::joined(
                address_text::group_texts(h).push(address_text::ipv4_text(a)),
                ':',
            ) + seq![':', ':'] + rest,
        ) is None,
{
    address_text::lemma_around_with_ipv4(h, t, a);
    address_text::lemma_no_ipv4_in_front(h, a, rest);
    if h.len() + t.len() < 6 {
        assert(text::zeros((6 - h.len() - t.len()) as nat) =~= Seq::new(
            (6 - h.len() - t.len()) as nat,
            |i: int| 0u16,
        ));
    }
}

/// `::` stands at most once in an address.
pub proof fn law_one_double_colon(head: Seq<char>, middle: Seq<char>, tail: Seq<char>)
    ensures
        text::ipv6(head + seq![':', ':'] + middle + seq![':', ':'] + tail) is None,
{
    let s = head + seq![':', ':'] + middle + seq![':', ':'] + tail;
    let at = text::double_colon(s, 0);
    assert(s[head.len() as int] == ':' && s[head.len() as int + 1] == ':');
    lemma_double_colon_before(s, 0, head.len() as int);
    let rest = s.skip(at + 2);
    let n = head.len() + 2 + middle.len() - (at + 2);
    let before = rest.take(n);
    let inner = Seq::<char>::empty().push(':') + tail;
    assert(rest =~= before.push(':') + inner);
    lemma_split_in_two(before, inner, ':');
    lemma_split_in_two(Seq::<char>::empty(), tail, ':');
    text::law_parts_hold_no_separator(before, ':');
    text::law_parts_hold_no_separator(tail, ':');
    let parts = text::split(rest, ':');
    let k = text::split(before, ':').len() as int;
    assert(text::split(Seq::<char>::empty(), ':') =~= seq![Seq::<char>::empty()]);
    assert(parts[k] =~= Seq::<char>::empty());
    assert(parts.drop_last()[k] =~= Seq::<char>::empty());
    assert(text::group(parts[k]) is None);
    text::lemma_no_groups(parts, k);
    text::lemma_no_groups(parts.drop_last(), k);
}

proof fn lemma_double_colon_before(s: Seq<char>, from: int, k: int)
    requires
        0 <= from <= k,
        k + 1 < s.len(),
        s[k] == ':',
        s[k + 1] == ':',
    ensures
        from <= text::double_colon(s, from) <= k,
    decreases k - from,
{
    if from < k {
        lemma_double_colon_before(s, from + 1, k);
    }
}

proof fn lemma_split_in_two(s: Seq<char>, t: Seq<char>, separator: char)
    ensures
        text::split(s.push(separator) + t, separator) == text::split(s, separator) + text::split(
            t,
            separator,
        ),
    decreases t.len(),
{
    let all = s.push(separator) + t;
    text::law_parts_hold_no_separator(s, separator);
    if t.len() == 0 {
        assert(all =~= s.push(separator));
        assert(all.drop_last() =~= s);
        assert(text::split(all, separator) =~= text::split(s, separator) + text::split(
            t,
            separator,
        ));
    } else {
        let before = text::split(t.drop_last(), separator);
        text::law_parts_hold_no_separator(t.drop_last(), separator);
        lemma_split_in_two(s, t.drop_last(), separator);
        assert(all.drop_last() =~= s.push(separator) + t.drop_last());
        assert(text::split(all, separator) =~= text::split(s, separator) + text::split(
            t,
            separator,
        ));
    }
}

/// A subnet has an address before its slash and a prefix behind it; the address is
/// looked at first, then the prefix, then whether the prefix fits into 32 or 128 bits.
pub proof fn law_subnets(a: Seq<char>, b: Seq<char>)
    requires
        !a.contains('/'),
        !b.contains('/'),
    ensures
        ({
            let found = cli::cidr_of(a.push('/') + b);
            match (text::ip(a), text::number(b, 255)) {
                (None, _) => found == Err::<(IpAddr, u8), CliError>(CliError::CidrAddress),
                (Some(_), None) => found == Err::<(IpAddr, u8), CliError>(CliError::CidrPrefix),
                (Some(IpAddr::V4(x)), Some(prefix)) => if prefix <= 32 {
                    found == Ok::<(IpAddr, u8), CliError>((IpAddr::V4(x), prefix as u8))
                } else {
                    found == Err::<(IpAddr, u8), CliError>(
                        CliError::PrefixTooLong { prefix: prefix as u8, max: 32 },
                    )
                },
                (Some(IpAddr::V6(x)), Some(prefix)) => if prefix <= 128 {
                    found == Ok::<(IpAddr, u8), CliError>((IpAddr::V6(x), prefix as u8))
                } else {
                    found == Err::<(IpAddr, u8), CliError>(
                        CliError::PrefixTooLong { prefix: prefix as u8, max: 128 },
                    )
                },
            }
        }),
{
    address_text::lemma_split_one(a, '/');
    address_text::lemma_split_more(a, b, '/');
    assert(text::split(a.push('/') + b, '/') =~= seq![a, b]);
}

/// Without a slash, or with more than one, a text is no subnet, whatever else it is.
pub proof fn law_a_subnet_has_one_slash(a: Seq<char>, b: Seq<char>, c: Seq<char>)
    ensures
        !a.contains('/') ==> cli::cidr_of(a) == Err::<(IpAddr, u8), CliError>(
            CliError::CidrFormat,
        ),
        cli::cidr_of((a.push('/') + b).push('/') + c) == Err::<(IpAddr, u8), CliError>(
            CliError::CidrFormat,
        ),
{
    if !a.contains('/') {
        address_text::lemma_split_one(a, '/');
    }
    lemma_split_in_two(a.push('/') + b, c, '/');
    lemma_split_in_two(a, b, '/');
    text::law_parts_hold_no_separator(a, '/');
    text::law_parts_hold_no_separator(b, '/');
    text::law_parts_hold_no_separator(c, '/');
}

/// A remote is all host with the port 22 where it has no colon; else the host is what
/// stands before the first colon, and what stands behind it is the port or an error.
pub proof fn law_remotes(host: Seq<char>, rest: Seq<char>)
    requires
        !host.contains(':'),
    ensures
        cli::remote_of(host) == Ok::<(Seq<char>, u16), CliError>((host, 22)),
        match text::number(rest, 65535) {
            Some(port) => cli::remote_of(host.push(':') + rest) == Ok::<
                (Seq<char>, u16),
                CliError,
            >((host, port as u16)),
            None => cli::remote_of(host.push(':') + rest) == Err::<(Seq<char>, u16), CliError>(
                CliError::Port,
            ),
        },
{
    let s = host.push(':') + rest;
    assert forall|i: int| 0 <= i < host.len() implies host[i] != ':' by {
        assert(host.contains(host[i]));
    }
    assert forall|i: int| 0 <= i < host.len() implies s[i] == host[i] by {}
    cli::lemma_first_at(s, ':', 0, host.len() as int);
    cli::lemma_first_at(host, ':', 0, host.len() as int);
    assert(s.take(host.len() as int) =~= host);
    assert(s.skip(host.len() as int + 1) =~= rest);
}

} // verus!
