//! The texts of addresses and subnets, and that they are read back.

use vstd::prelude::*;

use crate::addr;
use crate::addr::{IpAddr, Ipv4Addr, Ipv6Addr};
use crate::cli;
use crate::cli::CliError;
use crate::text;

verus! {

/// The lower-case hexadecimal digits of a number.
pub open spec fn hexadecimal(n: nat) -> Seq<char>
    decreases n,
{
    if n < 16 {
        seq![hex_digit(n)]
    } else {
        hexadecimal(n / 16).push(hex_digit(n % 16))
    }
}

/// The lower-case hexadecimal digit of a number below sixteen.
pub open spec fn hex_digit(n: nat) -> char {
    if n < 10 {
        (n + '0' as int) as char
    } else {
        (n - 10 + 'a' as int) as char
    }
}

/// Parts with a separator in between.
pub open spec fn joined(parts: Seq<Seq<char>>, separator: char) -> Seq<char>
    decreases parts.len(),
{
    if parts.len() == 0 {
        seq![]
    } else if parts.len() == 1 {
        parts[0]
    } else {
        joined(parts.drop_last(), separator).push(separator) + parts.last()
    }
}

/// Four octets in decimal with dots in between.
pub open spec fn dotted(a: u8, b: u8, c: u8, d: u8) -> Seq<char> {
    joined(
        seq![
            text::decimal(a as nat),
            text::decimal(b as nat),
            text::decimal(c as nat),
            text::decimal(d as nat),
        ],
        '.',
    )
}

/// The text of an IPv4 address: its octets in decimal with dots in between.
pub open spec fn ipv4_text(a: Ipv4Addr) -> Seq<char> {
    dotted(
        (a.bits / 0x100_0000) as u8,
        (a.bits / 0x1_0000 % 0x100) as u8,
        (a.bits / 0x100 % 0x100) as u8,
        (a.bits % 0x100) as u8,
    )
}

/// Groups of an IPv6 address in hexadecimal.
pub open spec fn group_texts(w: Seq<u16>) -> Seq<Seq<char>> {
    w.map_values(|group: u16| hexadecimal(group as nat))
}

/// How many groups from `i` on are zero, up to the first that is not.
pub open spec fn zeros_from(w: Seq<u16>, i: int) -> nat
    decreases w.len() - i,
{
    if 0 <= i < w.len() && w[i] == 0 {
        1 + zeros_from(w, i + 1)
    } else {
        0
    }
}

/// Where the longest run of zeros among the first `n` groups starts; of several, the
/// first.
pub open spec fn longest_zeros(w: Seq<u16>, n: nat) -> int
    decreases n,
{
    if n <= 1 {
        0
    } else {
        let best = longest_zeros(w, (n - 1) as nat);
        if zeros_from(w, n - 1) > zeros_from(w, best) {
            n - 1
        } else {
            best
        }
    }
}

/// Whether an IPv6 address holds an IPv4 address behind a fixed prefix.
pub open spec fn is_ipv4_mapped(a: Ipv6Addr) -> bool {
    a.bits / 0x1_0000_0000 == 0xffff
}

/// The IPv4 address in the last bits of an IPv6 address.
pub open spec fn mapped_ipv4(a: Ipv6Addr) -> Ipv4Addr {
    Ipv4Addr { bits: (a.bits % 0x1_0000_0000) as u32 }
}

/// The groups of an IPv6 address as text, with `::` in place of `n` groups of zeros
/// from `start` on.
pub open spec fn compressed(w: Seq<u16>, start: int, n: nat) -> Seq<char> {
    joined(group_texts(w.take(start)), ':') + seq![':', ':'] + joined(
        group_texts(w.skip(start + n)),
        ':',
    )
}

/// The end of the text of an IPv6 address that holds an IPv4 address.
pub open spec fn mapped_tail(a: Ipv4Addr) -> Seq<char> {
    seq!['f', 'f', 'f', 'f', ':'] + ipv4_text(a)
}

/// The text of an IPv6 address: its groups in hexadecimal with colons in between, and
/// `::` in place of the longest run of two or more groups of zeros. An address that
/// holds an IPv4 address shows it as such.
pub open spec fn ipv6_text(a: Ipv6Addr) -> Seq<char> {
    let w = a.segments();
    let start = longest_zeros(w, 8);
    if is_ipv4_mapped(a) {
        seq![':', ':'] + mapped_tail(mapped_ipv4(a))
    } else if zeros_from(w, start) > 1 {
        compressed(w, start, zeros_from(w, start))
    } else {
        joined(group_texts(w), ':')
    }
}

/// The text of an address.
pub open spec fn ip_text(ip: IpAddr) -> Seq<char> {
    match ip {
        IpAddr::V4(a) => ipv4_text(a),
        IpAddr::V6(a) => ipv6_text(a),
    }
}

/// The text of a subnet: an address, a slash and a prefix.
pub open spec fn cidr_text(ip: IpAddr, prefix: u8) -> Seq<char> {
    ip_text(ip).push('/') + text::decimal(prefix as nat)
}

/// Whether a text consists of digits, lower-case hexadecimal ones among them.
spec fn all_hex(s: Seq<char>) -> bool {
    forall|i: int| 0 <= i < s.len() ==> '0' <= #[trigger] s[i] <= '9' || 'a' <= s[i] <= 'f'
}

proof fn lemma_hexadecimal(n: nat)
    ensures
        hexadecimal(n).len() > 0,
        all_hex(hexadecimal(n)),
        text::digits_value(hexadecimal(n), 16) == Some(n),
    decreases n,
{
    let c = hex_digit(n % 16);
    assert(text::digit(c, 16) == Some(n % 16));
    assert(hexadecimal(n).last() == c);
    if n < 16 {
        assert(hexadecimal(n).drop_last() =~= Seq::<char>::empty());
        assert(text::digits_value(Seq::<char>::empty(), 16) == Some(0nat));
    } else {
        lemma_hexadecimal(n / 16);
        assert(hexadecimal(n).drop_last() =~= hexadecimal(n / 16));
    }
}

pub(crate) proof fn lemma_decimal_digits(n: nat)
    ensures
        text::decimal(n).len() > 0,
        forall|i: int| 0 <= i < text::decimal(n).len() ==> '0' <= #[trigger] text::decimal(n)[i] <= '9',
        n > 0 ==> text::decimal(n)[0] != '0',
    decreases n,
{
    if n >= 10 {
        lemma_decimal_digits(n / 10);
    }
}

/// The text of a group is read as that group.
proof fn lemma_group(w: u16)
    ensures
        text::group(hexadecimal(w as nat)) == Some(w),
{
    lemma_hexadecimal(w as nat);
    reveal_with_fuel(hexadecimal, 5);
}

/// The text of an octet is read as that octet.
pub(crate) proof fn lemma_octet(v: u8)
    ensures
        text::octet(text::decimal(v as nat)) == Some(v),
{
    text::lemma_decimal_value(v as nat);
    lemma_decimal_digits(v as nat);
    reveal_with_fuel(text::decimal, 4);
}

/// A text without the separator is one part.
pub(crate) proof fn lemma_split_one(s: Seq<char>, separator: char)
    requires
        !s.contains(separator),
    ensures
        text::split(s, separator) == seq![s],
    decreases s.len(),
{
    if s.len() == 0 {
        assert(s =~= Seq::<char>::empty());
        assert(text::split(s, separator) =~= seq![s]);
    } else {
        assert(s.contains(s.last()));
        assert forall|i: int| 0 <= i < s.drop_last().len() implies s.drop_last()[i]
            != separator by {
            assert(s.contains(s[i]));
        }
        lemma_split_one(s.drop_last(), separator);
        assert(s.drop_last().push(s.last()) =~= s);
        assert(text::split(s, separator) =~= seq![s]);
    }
}

/// A separator and a text without one add one part.
pub(crate) proof fn lemma_split_more(s: Seq<char>, t: Seq<char>, separator: char)
    requires
        !t.contains(separator),
    ensures
        text::split(s.push(separator) + t, separator) == text::split(s, separator).push(t),
    decreases t.len(),
{
    let all = s.push(separator) + t;
    if t.len() == 0 {
        assert(all =~= s.push(separator));
        assert(all.drop_last() =~= s);
        assert(t =~= Seq::<char>::empty());
    } else {
        assert(t.contains(t.last()));
        assert forall|i: int| 0 <= i < t.drop_last().len() implies t.drop_last()[i]
            != separator by {
            assert(t.contains(t[i]));
        }
        lemma_split_more(s, t.drop_last(), separator);
        assert(all.drop_last() =~= s.push(separator) + t.drop_last());
        assert(t.drop_last().push(t.last()) =~= t);
        let before = text::split(s, separator).push(t.drop_last());
        assert(before.drop_last() =~= text::split(s, separator));
    }
}

/// Parts that were joined are split again.
pub(crate) proof fn lemma_split_joined(parts: Seq<Seq<char>>, separator: char)
    requires
        parts.len() > 0,
        forall|i: int| 0 <= i < parts.len() ==> !(#[trigger] parts[i]).contains(separator),
    ensures
        text::split(joined(parts, separator), separator) == parts,
    decreases parts.len(),
{
    if parts.len() == 1 {
        lemma_split_one(parts[0], separator);
        assert(parts =~= seq![parts[0]]);
    } else {
        lemma_split_joined(parts.drop_last(), separator);
        lemma_split_more(joined(parts.drop_last(), separator), parts.last(), separator);
        assert(parts.drop_last().push(parts.last()) =~= parts);
    }
}

/// What does not occur in the parts and is not the separator does not occur in the
/// joined text.
proof fn lemma_joined_holds_no(parts: Seq<Seq<char>>, separator: char, c: char)
    requires
        c != separator,
        forall|i: int| 0 <= i < parts.len() ==> !(#[trigger] parts[i]).contains(c),
    ensures
        !joined(parts, separator).contains(c),
    decreases parts.len(),
{
    if parts.len() > 1 {
        let head = joined(parts.drop_last(), separator);
        lemma_joined_holds_no(parts.drop_last(), separator, c);
        let all = head.push(separator) + parts.last();
        assert forall|i: int| 0 <= i < all.len() implies all[i] != c by {
            if i < head.len() {
                assert(head.contains(head[i]));
            } else if i > head.len() {
                assert(parts.last().contains(parts.last()[i - head.len() - 1]));
            }
        }
    }
}

/// Hexadecimal digits are none of the signs between them.
proof fn lemma_hex_holds_no_sign(s: Seq<char>)
    requires
        all_hex(s),
    ensures
        !s.contains(':'),
        !s.contains('.'),
        !s.contains('/'),
{
}

/// Four parts that stand for octets stand for an address.
proof fn lemma_four_octets(s: Seq<char>, a: u8, b: u8, c: u8, d: u8)
    requires
        text::split(s, '.').len() == 4,
        text::octet(text::split(s, '.')[0]) == Some(a),
        text::octet(text::split(s, '.')[1]) == Some(b),
        text::octet(text::split(s, '.')[2]) == Some(c),
        text::octet(text::split(s, '.')[3]) == Some(d),
    ensures
        text::ipv4(s) == Some(
            Ipv4Addr { bits: (a * 0x100_0000 + b * 0x1_0000 + c * 0x100 + d) as u32 },
        ),
{
}

/// The text of an octet: digits, read as that octet.
proof fn lemma_octet_text(v: u8)
    ensures
        text::octet(text::decimal(v as nat)) == Some(v),
        !text::decimal(v as nat).contains('.'),
        !text::decimal(v as nat).contains(':'),
        !text::decimal(v as nat).contains('/'),
{
    lemma_octet(v);
    lemma_decimal_digits(v as nat);
    lemma_hex_holds_no_sign(text::decimal(v as nat));
}

/// Four octets with dots in between are read as an address.
pub(crate) proof fn lemma_dotted(a: u8, b: u8, c: u8, d: u8)
    ensures
        text::ipv4(dotted(a, b, c, d)) == Some(
            Ipv4Addr { bits: (a * 0x100_0000 + b * 0x1_0000 + c * 0x100 + d) as u32 },
        ),
        !dotted(a, b, c, d).contains(':'),
        !dotted(a, b, c, d).contains('/'),
{
    let parts = seq![
        text::decimal(a as nat),
        text::decimal(b as nat),
        text::decimal(c as nat),
        text::decimal(d as nat),
    ];
    lemma_octet_text(a);
    lemma_octet_text(b);
    lemma_octet_text(c);
    lemma_octet_text(d);
    lemma_split_joined(parts, '.');
    lemma_joined_holds_no(parts, '.', ':');
    lemma_joined_holds_no(parts, '.', '/');
    lemma_four_octets(joined(parts, '.'), a, b, c, d);
}

/// A number is put together again from its octets.
proof fn lemma_octets_make(v: u32)
    ensures
        v == (v / 0x100_0000) as u8 * 0x100_0000 + (v / 0x1_0000 % 0x100) as u8 * 0x1_0000 + (v
            / 0x100 % 0x100) as u8 * 0x100 + (v % 0x100) as u8,
{
}

/// The text of an IPv4 address is read as that address, and holds no colon or slash.
pub proof fn law_ipv4_text_is_read_back(a: Ipv4Addr)
    ensures
        text::ipv4(ipv4_text(a)) == Some(a),
        !ipv4_text(a).contains(':'),
        !ipv4_text(a).contains('/'),
{
    lemma_octets_make(a.bits);
    lemma_dotted(
        (a.bits / 0x100_0000) as u8,
        (a.bits / 0x1_0000 % 0x100) as u8,
        (a.bits / 0x100 % 0x100) as u8,
        (a.bits % 0x100) as u8,
    );
}

/// What the texts of groups are: hexadecimal digits, read as the groups.
proof fn lemma_group_texts(w: Seq<u16>)
    ensures
        group_texts(w).len() == w.len(),
        forall|i: int| 0 <= i < w.len() ==> (#[trigger] group_texts(w)[i]).len() > 0 && all_hex(
            group_texts(w)[i],
        ),
        text::groups(group_texts(w)) == Some(w),
    decreases w.len(),
{
    if w.len() > 0 {
        lemma_group_texts(w.drop_last());
        lemma_group(w.last());
        lemma_hexadecimal(w.last() as nat);
        assert(group_texts(w).drop_last() =~= group_texts(w.drop_last()));
        assert(w.drop_last().push(w.last()) =~= w);
        assert forall|i: int| 0 <= i < w.len() implies (#[trigger] group_texts(w)[i]).len() > 0
            && all_hex(group_texts(w)[i]) by {
            if i < w.len() - 1 {
                assert(group_texts(w)[i] == group_texts(w.drop_last())[i]);
            }
        }
    }
}

/// Whether a text has colons only one by one, and none at its ends.
spec fn single_colons(s: Seq<char>) -> bool {
    &&& s.len() > 0 ==> s[0] != ':' && s.last() != ':'
    &&& forall|i: int, j: int|
        0 <= i && j == i + 1 && j < s.len() ==> #[trigger] s[i] != ':' || #[trigger] s[j] != ':'
}

/// Whether a stretch of an IPv6 address without a slash stands for these groups.
#[verifier::opaque]
spec fn stands_for(s: Seq<char>, ipv4_allowed: bool, w: Seq<u16>) -> bool {
    text::stretch(s, ipv4_allowed) == Some(w) && !s.contains('/')
}

/// Whether a text with a colon and without a slash is an IPv6 address with these
/// groups.
#[verifier::opaque]
spec fn is_address(s: Seq<char>, w: Seq<u16>) -> bool {
    text::ipv6_groups(s) == Some(w) && s.contains(':') && !s.contains('/')
}

/// The joined texts of groups: colons only in between, no other sign, and read as the
/// groups.
proof fn lemma_stretch(w: Seq<u16>)
    ensures
        single_colons(joined(group_texts(w), ':')),
        stands_for(joined(group_texts(w), ':'), true, w),
        stands_for(joined(group_texts(w), ':'), false, w),
{
    reveal(stands_for);
    let parts = group_texts(w);
    let s = joined(parts, ':');
    lemma_group_texts(w);
    assert forall|i: int| 0 <= i < parts.len() implies !(#[trigger] parts[i]).contains(':')
        && !parts[i].contains('.') && !parts[i].contains('/') by {
        lemma_hex_holds_no_sign(parts[i]);
    }
    lemma_single_colons(parts);
    lemma_joined_holds_no(parts, ':', '.');
    lemma_joined_holds_no(parts, ':', '/');
    if w.len() > 0 {
        lemma_split_joined(parts, ':');
        lemma_split_one(parts.last(), '.');
    } else {
        assert(w =~= Seq::<u16>::empty());
    }
}

proof fn lemma_single_colons(parts: Seq<Seq<char>>)
    requires
        forall|i: int|
            0 <= i < parts.len() ==> (#[trigger] parts[i]).len() > 0 && !parts[i].contains(':'),
    ensures
        single_colons(joined(parts, ':')),
        (joined(parts, ':').len() == 0) == (parts.len() == 0),
    decreases parts.len(),
{
    if parts.len() > 0 {
        let last = parts[parts.len() - 1];
        assert forall|i: int| 0 <= i < last.len() implies last[i] != ':' by {
            assert(last.contains(last[i]));
        }
        if parts.len() > 1 {
            let head = joined(parts.drop_last(), ':');
            assert forall|i: int| 0 <= i < parts.drop_last().len() implies (
            #[trigger] parts.drop_last()[i]).len() > 0 && !parts.drop_last()[i].contains(':') by {
                assert(parts.drop_last()[i] == parts[i]);
            }
            lemma_single_colons(parts.drop_last());
            let all = head.push(':') + last;
            assert forall|i: int, j: int|
                0 <= i && j == i + 1 && j < all.len() implies #[trigger] all[i] != ':'
                || #[trigger] all[j] != ':' by {
                if i < head.len() - 1 {
                    assert(head[i] != ':' || head[j] != ':');
                } else if i == head.len() - 1 {
                    assert(all[i] == head.last());
                } else {
                    assert(all[j] == last[i - head.len()]);
                }
            }
            assert(all.last() == last[last.len() - 1]);
            assert(all[0] == head[0]);
        }
    }
}

/// The first `::` stands where none stands before.
pub(crate) proof fn lemma_double_colon(s: Seq<char>, from: int, at: int)
    requires
        0 <= from <= at <= s.len(),
        at == s.len() || (at + 1 < s.len() && s[at] == ':' && s[at + 1] == ':'),
        forall|i: int, j: int|
            from <= i < at && j == i + 1 && j < s.len() ==> #[trigger] s[i] != ':'
                || #[trigger] s[j] != ':',
    ensures
        text::double_colon(s, from) == at,
    decreases at - from,
{
    if from < at && from + 1 < s.len() {
        lemma_double_colon(s, from + 1, at);
    }
}

/// What stands in a text, other than the separator, stands in one of its parts.
proof fn lemma_part_with(s: Seq<char>, separator: char, c: char)
    requires
        s.contains(c),
        c != separator,
    ensures
        exists|i: int|
            0 <= i < text::split(s, separator).len() && (#[trigger] text::split(
                s,
                separator,
            )[i]).contains(c),
    decreases s.len(),
{
    let before = text::split(s.drop_last(), separator);
    let parts = text::split(s, separator);
    text::law_parts_hold_no_separator(s.drop_last(), separator);
    if s.drop_last().contains(c) {
        lemma_part_with(s.drop_last(), separator, c);
        let i = choose|i: int| 0 <= i < before.len() && (#[trigger] before[i]).contains(c);
        let k = choose|k: int| 0 <= k < before[i].len() && before[i][k] == c;
        assert(parts[i][k] == c);
        assert(parts[i].contains(c));
    } else {
        let j = choose|j: int| 0 <= j < s.len() && s[j] == c;
        assert(j == s.len() - 1) by {
            if j < s.len() - 1 {
                assert(s.drop_last()[j] == c);
            }
        }
        let i = parts.len() - 1;
        assert(parts[i].last() == c);
        assert(parts[i].contains(c));
    }
}

/// A text with a colon is no IPv4 address.
pub(crate) proof fn lemma_colon_is_no_ipv4(s: Seq<char>)
    requires
        s.contains(':'),
    ensures
        text::ipv4(s) is None,
{
    lemma_part_with(s, '.', ':');
    let parts = text::split(s, '.');
    let i = choose|i: int| 0 <= i < parts.len() && (#[trigger] parts[i]).contains(':');
    let k = choose|k: int| 0 <= k < parts[i].len() && parts[i][k] == ':';
    text::lemma_no_digits(parts[i], k, 10);
    assert(text::octet(parts[i]) is None);
    assert(parts.len() == 4 ==> i == 0 || i == 1 || i == 2 || i == 3);
}

/// Two texts with `::` in between, of which the first has only single colons, are
/// taken apart there.
proof fn lemma_around_double_colon(head: Seq<char>, tail: Seq<char>)
    requires
        single_colons(head),
    ensures
        ({
            let s = head + seq![':', ':'] + tail;
            let at = text::double_colon(s, 0);
            &&& at == head.len() < s.len()
            &&& s.take(at) == head
            &&& s.skip(at + 2) == tail
            &&& s.contains(':')
            &&& s.contains('/') ==> head.contains('/') || tail.contains('/')
        }),
{
    let s = head + seq![':', ':'] + tail;
    let at = head.len() as int;
    assert(s[at] == ':' && s[at + 1] == ':');
    assert forall|i: int, j: int|
        0 <= i < at && j == i + 1 && j < s.len() implies #[trigger] s[i] != ':' || #[trigger] s[j]
        != ':' by {
        assert(s[i] == head[i]);
        if i == at - 1 {
            assert(head[i] == head.last());
        } else {
            assert(s[j] == head[j]);
        }
    }
    lemma_double_colon(s, 0, at);
    assert(s.take(at) =~= head);
    assert(s.skip(at + 2) =~= tail);
    if s.contains('/') {
        let i = choose|i: int| 0 <= i < s.len() && s[i] == '/';
        if i < at {
            assert(head[i] == '/');
        } else {
            assert(tail[i - at - 2] == '/');
        }
    }
}

/// Two stretches with `::` in between stand for their groups and zeros in between.
#[verifier::spinoff_prover]
proof fn lemma_groups_around(head: Seq<char>, tail: Seq<char>, h: Seq<u16>, t: Seq<u16>)
    requires
        single_colons(head),
        stands_for(head, false, h),
        stands_for(tail, true, t),
        h.len() + t.len() <= 7,
    ensures
        is_address(
            head + seq![':', ':'] + tail,
            h + text::zeros((8 - h.len() - t.len()) as nat) + t,
        ),
{
    reveal(stands_for);
    reveal(is_address);
    lemma_around_double_colon(head, tail);
}

/// Groups with `::` in place of some zeros are read as the groups.
proof fn lemma_compressed(w: Seq<u16>, start: int, n: nat)
    requires
        w.len() == 8,
        n > 0,
        0 <= start,
        start + n <= 8,
        forall|i: int| start <= i < start + n ==> w[i] == 0,
    ensures
        is_address(compressed(w, start, n), w),
{
    let h = w.take(start);
    let t = w.skip(start + n);
    let head = joined(group_texts(h), ':');
    let tail = joined(group_texts(t), ':');
    lemma_stretch(h);
    lemma_stretch(t);
    lemma_groups_around(head, tail, h, t);
    assert(h + text::zeros((8 - h.len() - t.len()) as nat) + t =~= w);
}

/// Eight groups with colons in between are read as the groups.
proof fn lemma_uncompressed(w: Seq<u16>)
    requires
        w.len() == 8,
    ensures
        is_address(joined(group_texts(w), ':'), w),
{
    reveal(stands_for);
    reveal(is_address);
    let s = joined(group_texts(w), ':');
    lemma_stretch(w);
    lemma_double_colon(s, 0, s.len() as int);
    let head = joined(group_texts(w).drop_last(), ':');
    assert(s == head.push(':') + group_texts(w).last());
    assert(s[head.len() as int] == ':');
}

proof fn lemma_zeros_from(w: Seq<u16>, i: int)
    requires
        0 <= i <= w.len(),
    ensures
        i + zeros_from(w, i) <= w.len(),
        forall|j: int| i <= j < i + zeros_from(w, i) ==> w[j] == 0,
    decreases w.len() - i,
{
    if i < w.len() && w[i] == 0 {
        lemma_zeros_from(w, i + 1);
    }
}

proof fn lemma_longest_zeros(w: Seq<u16>, n: nat)
    requires
        n <= w.len(),
    ensures
        0 <= longest_zeros(w, n) <= n,
    decreases n,
{
    if n > 1 {
        lemma_longest_zeros(w, (n - 1) as nat);
    }
}

/// The groups of an IPv6 address that holds an IPv4 address.
proof fn lemma_mapped_segments(a: Ipv6Addr)
    requires
        is_ipv4_mapped(a),
    ensures
        a.segments() == seq![
            0u16,
            0u16,
            0u16,
            0u16,
            0u16,
            0xffffu16,
            (a.bits % 0x1_0000_0000 / 0x1_0000) as u16,
            (a.bits % 0x1_0000) as u16,
        ],
{
    let v = a.bits as nat;
    let high = v / 0x1_0000 / 0x1_0000;
    assert(high == 0xffff);
    assert(addr::segments_of(0, 5) =~= seq![0u16, 0u16, 0u16, 0u16, 0u16]) by {
        reveal_with_fuel(addr::segments_of, 6);
    }
    assert(addr::segments_of(high, 6) == addr::segments_of(0, 5).push(0xffffu16));
    assert(addr::segments_of(v / 0x1_0000, 7) == addr::segments_of(high, 6).push(
        (v / 0x1_0000 % 0x1_0000) as u16,
    ));
    assert(addr::segments_of(v, 8) == addr::segments_of(v / 0x1_0000, 7).push(
        (v % 0x1_0000) as u16,
    ));
    assert(v / 0x1_0000 % 0x1_0000 == v % 0x1_0000_0000 / 0x1_0000);
    assert(a.segments() =~= seq![
        0u16,
        0u16,
        0u16,
        0u16,
        0u16,
        0xffffu16,
        (a.bits % 0x1_0000_0000 / 0x1_0000) as u16,
        (a.bits % 0x1_0000) as u16,
    ]);
}

/// A group of ones and an IPv4 address are read as three groups.
proof fn lemma_mapped_stretch(a: Ipv4Addr)
    ensures
        stands_for(
            mapped_tail(a),
            true,
            seq![0xffffu16, (a.bits / 0x1_0000) as u16, (a.bits % 0x1_0000) as u16],
        ),
{
    reveal(stands_for);
    let v4 = ipv4_text(a);
    let prefix = seq!['f', 'f', 'f', 'f'];
    let s = prefix.push(':') + v4;
    assert(s =~= mapped_tail(a));
    assert(text::ipv4(v4) == Some(a) && !v4.contains(':') && !v4.contains('/')) by {
        law_ipv4_text_is_read_back(a);
    }
    lemma_split_one(prefix, ':');
    lemma_split_more(prefix, v4, ':');
    let parts = text::split(s, ':');
    assert(parts.drop_last() =~= seq![prefix]);
    assert(text::group(prefix) == Some(0xffffu16)) by {
        lemma_group(0xffff);
        assert(prefix =~= hexadecimal(0xffff)) by {
            reveal_with_fuel(hexadecimal, 5);
        }
    }
    assert(text::groups(seq![prefix]) == Some(seq![0xffffu16])) by {
        assert(seq![prefix].drop_last() =~= Seq::<Seq<char>>::empty());
        assert(text::groups(Seq::<Seq<char>>::empty()) == Some(Seq::<u16>::empty()));
        assert(Seq::<u16>::empty().push(0xffffu16) =~= seq![0xffffu16]);
    }
    assert(seq![0xffffu16] + seq![(a.bits / 0x1_0000) as u16, (a.bits % 0x1_0000) as u16] =~= seq![
        0xffffu16,
        (a.bits / 0x1_0000) as u16,
        (a.bits % 0x1_0000) as u16,
    ]);
    assert forall|i: int| 0 <= i < s.len() implies s[i] != '/' by {
        if i >= 5 {
            assert(v4.contains(v4[i - 5]));
        }
    }
}

/// An IPv6 address that shows the IPv4 address in it is read as that address.
proof fn lemma_mapped(a: Ipv6Addr)
    requires
        is_ipv4_mapped(a),
    ensures
        is_address(seq![':', ':'] + mapped_tail(mapped_ipv4(a)), a.segments()),
{
    let low = mapped_ipv4(a);
    let head = Seq::<char>::empty();
    let tail = mapped_tail(low);
    let h = Seq::<u16>::empty();
    let t = seq![0xffffu16, (low.bits / 0x1_0000) as u16, (low.bits % 0x1_0000) as u16];
    lemma_mapped_stretch(low);
    assert(stands_for(head, false, h)) by {
        reveal(stands_for);
    }
    lemma_groups_around(head, tail, h, t);
    assert(head + seq![':', ':'] + tail =~= seq![':', ':'] + tail);
    assert(h + text::zeros((8 - h.len() - t.len()) as nat) + t =~= a.segments()) by {
        lemma_mapped_segments(a);
        assert(low.bits % 0x1_0000 == a.bits % 0x1_0000);
    }
}

/// The text of an IPv6 address is read as that address, and holds a colon and no
/// slash.
pub proof fn law_ipv6_text_is_read_back(a: Ipv6Addr)
    ensures
        text::ipv6(ipv6_text(a)) == Some(a),
        ipv6_text(a).contains(':'),
        !ipv6_text(a).contains('/'),
{
    let w = a.segments();
    let start = longest_zeros(w, 8);
    addr::law_segments_make_the_address(a);
    if is_ipv4_mapped(a) {
        lemma_mapped(a);
    } else if zeros_from(w, start) > 1 {
        lemma_longest_zeros(w, 8);
        lemma_zeros_from(w, start);
        lemma_compressed(w, start, zeros_from(w, start));
    } else {
        lemma_uncompressed(w);
    }
    lemma_address(ipv6_text(a), w);
}

/// What an IPv6 address with known groups is read as.
proof fn lemma_address(s: Seq<char>, w: Seq<u16>)
    requires
        is_address(s, w),
    ensures
        text::ipv6(s) == Some(Ipv6Addr { bits: Ipv6Addr::of_segments(w) as u128 }),
        s.contains(':'),
        !s.contains('/'),
{
    reveal(is_address);
}

/// The text of an address is read as that address.
pub proof fn law_ip_text_is_read_back(ip: IpAddr)
    ensures
        text::ip(ip_text(ip)) == Some(ip),
        !ip_text(ip).contains('/'),
{
    match ip {
        IpAddr::V4(a) => law_ipv4_text_is_read_back(a),
        IpAddr::V6(a) => {
            law_ipv6_text_is_read_back(a);
            lemma_colon_is_no_ipv4(ipv6_text(a));
        },
    }
}

/// A subnet that is written as an address, a slash and a prefix is parsed back, with
/// all bits of the address kept, also those behind the prefix.
pub proof fn law_cidr_text_is_read_back(ip: IpAddr, prefix: u8)
    requires
        prefix <= cli::max_prefix(ip),
    ensures
        cli::cidr_of(cidr_text(ip, prefix)) == Ok::<(IpAddr, u8), CliError>((ip, prefix)),
{
    let digits = text::decimal(prefix as nat);
    law_ip_text_is_read_back(ip);
    lemma_decimal_digits(prefix as nat);
    assert(!digits.contains('/'));
    lemma_split_one(ip_text(ip), '/');
    lemma_split_more(ip_text(ip), digits, '/');
    text::law_decimal_is_read_back(prefix as nat, 0xff);
    let parts = text::split(cidr_text(ip, prefix), '/');
    assert(parts =~= seq![ip_text(ip), digits]);
}

/// Eight groups that are written out are read as the address that they make.
pub(crate) proof fn lemma_written_out(w: Seq<u16>)
    requires
        w.len() == 8,
    ensures
        text::ipv6(joined(group_texts(w), ':')) == Some(
            Ipv6Addr { bits: Ipv6Addr::of_segments(w) as u128 },
        ),
{
    lemma_uncompressed(w);
    lemma_address(joined(group_texts(w), ':'), w);
}

/// Eight groups of which some zeros are written as `::` are read as the address that
/// they make.
pub(crate) proof fn lemma_written_short(w: Seq<u16>, start: int, n: nat)
    requires
        w.len() == 8,
        n > 0,
        0 <= start,
        start + n <= 8,
        forall|i: int| start <= i < start + n ==> w[i] == 0,
    ensures
        text::ipv6(compressed(w, start, n)) == Some(
            Ipv6Addr { bits: Ipv6Addr::of_segments(w) as u128 },
        ),
{
    lemma_compressed(w, start, n);
    lemma_address(compressed(w, start, n), w);
}

/// Groups that are written out are no address if they are not eight.
pub(crate) proof fn lemma_not_eight(w: Seq<u16>)
    requires
        w.len() != 8,
    ensures
        text::ipv6(joined(group_texts(w), ':')) is None,
{
    reveal(stands_for);
    let s = joined(group_texts(w), ':');
    lemma_stretch(w);
    lemma_double_colon(s, 0, s.len() as int);
}

/// The two groups that an IPv4 address makes.
pub open spec fn ipv4_groups(a: Ipv4Addr) -> Seq<u16> {
    seq![(a.bits / 0x1_0000) as u16, (a.bits % 0x1_0000) as u16]
}

/// Groups and an IPv4 address with colons in between: read as the groups of both where
/// an IPv4 address may stand, else as nothing.
proof fn lemma_stretch_with_ipv4(w: Seq<u16>, a: Ipv4Addr)
    ensures
        ({
            let s = joined(group_texts(w).push(ipv4_text(a)), ':');
            &&& single_colons(s)
            &&& stands_for(s, true, w + ipv4_groups(a))
            &&& text::stretch(s, false) is None
        }),
{
    reveal(stands_for);
    let v4 = ipv4_text(a);
    let parts = group_texts(w).push(v4);
    let s = joined(parts, ':');
    lemma_group_texts(w);
    law_ipv4_text_is_read_back(a);
    lemma_dot_in_ipv4(a);
    assert forall|i: int| 0 <= i < parts.len() implies (#[trigger] parts[i]).len() > 0
        && !parts[i].contains(':') && !parts[i].contains('/') by {
        if i < w.len() {
            assert(parts[i] == group_texts(w)[i]);
            lemma_hex_holds_no_sign(parts[i]);
        }
    }
    lemma_single_colons(parts);
    lemma_split_joined(parts, ':');
    lemma_joined_holds_no(parts, ':', '/');
    assert(parts.drop_last() =~= group_texts(w));
    let k = choose|k: int| 0 <= k < v4.len() && v4[k] == '.';
    text::lemma_no_digits(v4, k, 16);
    assert(text::group(parts[w.len() as int]) is None);
    text::lemma_no_groups(parts, w.len() as int);
    assert(s.len() > 0);
}

proof fn lemma_dot_in_ipv4(a: Ipv4Addr)
    ensures
        ipv4_text(a).len() > 0,
        ipv4_text(a).contains('.'),
{
    let parts = seq![
        text::decimal(((a.bits / 0x100_0000) as u8) as nat),
        text::decimal(((a.bits / 0x1_0000 % 0x100) as u8) as nat),
        text::decimal(((a.bits / 0x100 % 0x100) as u8) as nat),
        text::decimal(((a.bits % 0x100) as u8) as nat),
    ];
    let head = joined(parts.drop_last(), '.');
    assert(ipv4_text(a) == head.push('.') + parts.last());
    assert(ipv4_text(a)[head.len() as int] == '.');
}

/// Groups and an IPv4 address that are written out are an address if there are six
/// groups, and none otherwise.
pub(crate) proof fn lemma_written_out_with_ipv4(w: Seq<u16>, a: Ipv4Addr)
    ensures
        ({
            let s = joined(group_texts(w).push(ipv4_text(a)), ':');
            if w.len() == 6 {
                text::ipv6(s) == Some(
                    Ipv6Addr { bits: Ipv6Addr::of_segments(w + ipv4_groups(a)) as u128 },
                )
            } else {
                text::ipv6(s) is None
            }
        }),
{
    reveal(stands_for);
    let s = joined(group_texts(w).push(ipv4_text(a)), ':');
    lemma_stretch_with_ipv4(w, a);
    lemma_double_colon(s, 0, s.len() as int);
}

/// Groups around `::` are an address if at least one is missing, and none otherwise.
pub(crate) proof fn lemma_around(h: Seq<u16>, t: Seq<u16>)
    ensures
        ({
            let s = joined(group_texts(h), ':') + seq![':', ':'] + joined(group_texts(t), ':');
            if h.len() + t.len() <= 7 {
                text::ipv6(s) == Some(
                    Ipv6Addr {
                        bits: Ipv6Addr::of_segments(
                            h + text::zeros((8 - h.len() - t.len()) as nat) + t,
                        ) as u128,
                    },
                )
            } else {
                text::ipv6(s) is None
            }
        }),
{
    let head = joined(group_texts(h), ':');
    let tail = joined(group_texts(t), ':');
    reveal(stands_for);
    lemma_stretch(h);
    lemma_stretch(t);
    lemma_around_double_colon(head, tail);
}

/// Groups around `::`, with an IPv4 address at the end, are an address if at least one
/// is missing, and none otherwise.
pub(crate) proof fn lemma_around_with_ipv4(h: Seq<u16>, t: Seq<u16>, a: Ipv4Addr)
    ensures
        ({
            let s = joined(group_texts(h), ':') + seq![':', ':'] + joined(
                group_texts(t).push(ipv4_text(a)),
                ':',
            );
            if h.len() + t.len() <= 5 {
                text::ipv6(s) == Some(
                    Ipv6Addr {
                        bits: Ipv6Addr::of_segments(
                            h + text::zeros((6 - h.len() - t.len()) as nat) + (t + ipv4_groups(a)),
                        ) as u128,
                    },
                )
            } else {
                text::ipv6(s) is None
            }
        }),
{
    let head = joined(group_texts(h), ':');
    let tail = joined(group_texts(t).push(ipv4_text(a)), ':');
    reveal(stands_for);
    lemma_stretch(h);
    lemma_stretch_with_ipv4(t, a);
    lemma_around_double_colon(head, tail);
}

/// An IPv4 address before `::` makes no address.
pub(crate) proof fn lemma_no_ipv4_in_front(h: Seq<u16>, a: Ipv4Addr, tail: Seq<char>)
    ensures
        text::ipv6(
            joined(group_texts(h).push(ipv4_text(a)), ':') + seq![':', ':'] + tail,
        ) is None,
{
    let head = joined(group_texts(h).push(ipv4_text(a)), ':');
    lemma_stretch_with_ipv4(h, a);
    lemma_around_double_colon(head, tail);
}

} // verus!
