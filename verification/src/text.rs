//! Numbers and addresses as text.

use vstd::prelude::*;
use vstd::string::*;

use crate::addr::{IpAddr, Ipv4Addr, Ipv6Addr};

verus! {

/// The parts of a text between separators: one more than there are separators.
pub open spec fn split(s: Seq<char>, separator: char) -> Seq<Seq<char>>
    decreases s.len(),
{
    if s.len() == 0 {
        seq![seq![]]
    } else {
        let before = split(s.drop_last(), separator);
        if s.last() == separator {
            before.push(seq![])
        } else {
            before.drop_last().push(before.last().push(s.last()))
        }
    }
}

/// The value of a digit of up to sixteen, in upper or lower case.
pub open spec fn digit(c: char, radix: nat) -> Option<nat> {
    let v = if '0' <= c <= '9' {
        c as int - '0' as int
    } else if 'a' <= c <= 'f' {
        c as int - 'a' as int + 10
    } else if 'A' <= c <= 'F' {
        c as int - 'A' as int + 10
    } else {
        -1
    };
    if 0 <= v < radix {
        Some(v as nat)
    } else {
        None
    }
}

/// The value of a row of digits, if it is one. The empty row has the value 0.
pub open spec fn digits_value(s: Seq<char>, radix: nat) -> Option<nat>
    decreases s.len(),
{
    if s.len() == 0 {
        Some(0)
    } else {
        match (digits_value(s.drop_last(), radix), digit(s.last(), radix)) {
            (Some(v), Some(d)) => Some(v * radix + d),
            _ => None,
        }
    }
}

/// The number that a text stands for, if it stands for one that is not above `max`:
/// decimal digits, behind a plus sign or not.
pub open spec fn number(s: Seq<char>, max: nat) -> Option<nat> {
    let digits = if s.len() > 0 && s[0] == '+' {
        s.skip(1)
    } else {
        s
    };
    if digits.len() == 0 {
        None
    } else {
        match digits_value(digits, 10) {
            Some(v) if v <= max => Some(v),
            _ => None,
        }
    }
}

/// The octet that a part of an IPv4 address stands for: one to three digits, without
/// a zero in front.
pub open spec fn octet(s: Seq<char>) -> Option<u8> {
    if 1 <= s.len() <= 3 && (s.len() > 1 ==> s[0] != '0') {
        match digits_value(s, 10) {
            Some(v) if v <= 255 => Some(v as u8),
            _ => None,
        }
    } else {
        None
    }
}

/// The IPv4 address that a text stands for: four octets with dots in between.
pub open spec fn ipv4(s: Seq<char>) -> Option<Ipv4Addr> {
    let p = split(s, '.');
    if p.len() == 4 {
        match (octet(p[0]), octet(p[1]), octet(p[2]), octet(p[3])) {
            (Some(a), Some(b), Some(c), Some(d)) => Some(
                Ipv4Addr { bits: (a * 0x100_0000 + b * 0x1_0000 + c * 0x100 + d) as u32 },
            ),
            _ => None,
        }
    } else {
        None
    }
}

/// The group that a part of an IPv6 address stands for: one to four hexadecimal
/// digits.
pub open spec fn group(s: Seq<char>) -> Option<u16> {
    if 1 <= s.len() <= 4 {
        match digits_value(s, 16) {
            Some(v) => Some(v as u16),
            None => None,
        }
    } else {
        None
    }
}

/// The groups that parts stand for, if each stands for one.
pub open spec fn groups(parts: Seq<Seq<char>>) -> Option<Seq<u16>>
    decreases parts.len(),
{
    if parts.len() == 0 {
        Some(seq![])
    } else {
        match (groups(parts.drop_last()), group(parts.last())) {
            (Some(before), Some(last)) => Some(before.push(last)),
            _ => None,
        }
    }
}

/// The groups that a stretch of an IPv6 address stands for. The last two may be
/// written as an IPv4 address where that is allowed.
pub open spec fn stretch(s: Seq<char>, ipv4_allowed: bool) -> Option<Seq<u16>> {
    if s.len() == 0 {
        Some(seq![])
    } else {
        let parts = split(s, ':');
        match ipv4(parts.last()) {
            Some(a) if ipv4_allowed => match groups(parts.drop_last()) {
                Some(before) => Some(
                    before + seq![(a.bits / 0x1_0000) as u16, (a.bits % 0x1_0000) as u16],
                ),
                None => None,
            },
            _ => groups(parts),
        }
    }
}

/// Where the first `::` at or behind `from` starts, or the length of the text if
/// there is none.
pub open spec fn double_colon(s: Seq<char>, from: int) -> int
    decreases s.len() - from,
{
    if from + 1 >= s.len() {
        s.len() as int
    } else if s[from] == ':' && s[from + 1] == ':' {
        from
    } else {
        double_colon(s, from + 1)
    }
}

/// Groups of zeros.
pub open spec fn zeros(n: nat) -> Seq<u16> {
    Seq::new(n, |j: int| 0u16)
}

/// The eight groups of an IPv6 address: `::` stands for as many groups of zeros as
/// are missing, at least one.
pub open spec fn ipv6_groups(s: Seq<char>) -> Option<Seq<u16>> {
    let i = double_colon(s, 0);
    if i == s.len() {
        match stretch(s, true) {
            Some(all) if all.len() == 8 => Some(all),
            _ => None,
        }
    } else {
        match (stretch(s.take(i), false), stretch(s.skip(i + 2), true)) {
            (Some(head), Some(tail)) if head.len() + tail.len() <= 7 => Some(
                head + zeros((8 - head.len() - tail.len()) as nat) + tail,
            ),
            _ => None,
        }
    }
}

/// The IPv6 address that a text stands for.
pub open spec fn ipv6(s: Seq<char>) -> Option<Ipv6Addr> {
    match ipv6_groups(s) {
        Some(w) => Some(Ipv6Addr { bits: Ipv6Addr::of_segments(w) as u128 }),
        None => None,
    }
}

/// The address that a text stands for.
pub open spec fn ip(s: Seq<char>) -> Option<IpAddr> {
    match ipv4(s) {
        Some(a) => Some(IpAddr::V4(a)),
        None => match ipv6(s) {
            Some(a) => Some(IpAddr::V6(a)),
            None => None,
        },
    }
}

/// The decimal digits of a number.
pub open spec fn decimal(n: nat) -> Seq<char>
    decreases n,
{
    if n < 10 {
        seq![(n + '0' as int) as char]
    } else {
        decimal(n / 10).push(((n % 10) + '0' as int) as char)
    }
}

/// The characters of a text.
pub fn chars_of(s: &str) -> (r: Vec<char>)
    ensures
        r@ == s@,
{
    let n: usize = s.unicode_len();
    let mut r: Vec<char> = Vec::new();
    let mut i: usize = 0;
    while i < n
        invariant
            n == s@.len(),
            i <= n,
            r@ =~= s@.take(i as int),
        decreases n - i,
    {
        r.push(s.get_char(i));
        i += 1;
    }
    r
}

/// The parts of a text between separators.
pub fn split_at(s: &[char], separator: char) -> (r: Vec<Vec<char>>)
    ensures
        r@.len() == split(s@, separator).len(),
        r@.len() > 0,
        forall|i: int| 0 <= i < r@.len() ==> (#[trigger] r@[i])@ == split(s@, separator)[i],
{
    let mut r: Vec<Vec<char>> = Vec::new();
    let mut part: Vec<char> = Vec::new();
    let mut i: usize = 0;
    assert(s@.take(0) =~= Seq::<char>::empty());
    while i < s.len()
        invariant
            i <= s@.len(),
            split(s@.take(i as int), separator).len() == r@.len() + 1,
            forall|j: int|
                0 <= j < r@.len() ==> (#[trigger] r@[j])@ == split(s@.take(i as int), separator)[j],
            split(s@.take(i as int), separator).last() == part@,
        decreases s@.len() - i,
    {
        assert(s@.take(i + 1).drop_last() =~= s@.take(i as int));
        let c: char = s[i];
        if c == separator {
            r.push(part);
            part = Vec::new();
        } else {
            part.push(c);
        }
        i += 1;
    }
    assert(s@.take(s@.len() as int) =~= s@);
    r.push(part);
    r
}

/// The value of a digit.
pub fn digit_of(c: char, radix: u32) -> (r: Option<u32>)
    ensures
        match digit(c, radix as nat) {
            Some(v) => r == Some(v as u32) && v < 16,
            None => r is None,
        },
{
    let code: u32 = c as u32;
    let v: u32 = if '0' <= c && c <= '9' {
        code - 48
    } else if 'a' <= c && c <= 'f' {
        code - 87
    } else if 'A' <= c && c <= 'F' {
        code - 55
    } else {
        return None;
    };
    if v < radix {
        Some(v)
    } else {
        None
    }
}

/// The value of a row of digits, if it is one and not above `max`.
fn read_digits(s: &[char], radix: u32, max: u32) -> (r: Option<u32>)
    requires
        radix == 10 || radix == 16,
    ensures
        r == (match digits_value(s@, radix as nat) {
            Some(v) if v <= max => Some(v as u32),
            _ => None,
        }),
{
    let mut value: u64 = 0;
    let mut i: usize = 0;
    assert(s@.take(0) =~= Seq::<char>::empty());
    while i < s.len()
        invariant
            radix == 10 || radix == 16,
            i <= s@.len(),
            digits_value(s@.take(i as int), radix as nat) is Some,
            ({
                let v = digits_value(s@.take(i as int), radix as nat)->0;
                if v <= max {
                    value == v
                } else {
                    value == max + 1
                }
            }),
        decreases s@.len() - i,
    {
        let ghost so_far = digits_value(s@.take(i as int), radix as nat)->0;
        assert(s@.take(i + 1).drop_last() =~= s@.take(i as int));
        match digit_of(s[i], radix) {
            Some(d) => {
                let next: u64 = value * radix as u64 + d as u64;
                proof {
                    assert(so_far * (radix as nat) >= so_far) by (nonlinear_arith)
                        requires
                            radix == 10 || radix == 16,
                    ;
                }
                value = if next <= max as u64 { next } else { max as u64 + 1 };
            },
            None => {
                proof {
                    lemma_no_digits(s@, i as int, radix as nat);
                }
                return None;
            },
        }
        i += 1;
    }
    assert(s@.take(s@.len() as int) =~= s@);
    if value <= max as u64 {
        Some(value as u32)
    } else {
        None
    }
}

/// One character that is no digit spoils a row of digits.
pub proof fn lemma_no_digits(s: Seq<char>, i: int, radix: nat)
    requires
        0 <= i < s.len(),
        digit(s[i], radix) is None,
    ensures
        digits_value(s, radix) is None,
    decreases s.len(),
{
    if i < s.len() - 1 {
        lemma_no_digits(s.drop_last(), i, radix);
    }
}

/// The number that a text stands for, if it stands for one that is not above `max`.
pub fn read_number(s: &[char], max: u32) -> (r: Option<u32>)
    ensures
        r == (match number(s@, max as nat) {
            Some(v) => Some(v as u32),
            None => None,
        }),
{
    let digits: &[char] = if s.len() > 0 && s[0] == '+' {
        vstd::slice::slice_subrange(s, 1, s.len())
    } else {
        s
    };
    proof {
        if s@.len() > 0 && s@[0] == '+' {
            assert(digits@ =~= s@.skip(1));
        }
    }
    if digits.len() == 0 {
        None
    } else {
        read_digits(digits, 10, max)
    }
}

fn read_octet(s: &[char]) -> (r: Option<u8>)
    ensures
        r == octet(s@),
{
    if s.len() == 0 || s.len() > 3 || (s.len() > 1 && s[0] == '0') {
        return None;
    }
    match read_digits(s, 10, 255) {
        Some(v) => Some(v as u8),
        None => None,
    }
}

/// The IPv4 address that a text stands for.
pub fn read_ipv4(s: &[char]) -> (r: Option<Ipv4Addr>)
    ensures
        r == ipv4(s@),
{
    let p: Vec<Vec<char>> = split_at(s, '.');
    if p.len() != 4 {
        return None;
    }
    match (
        read_octet(p[0].as_slice()),
        read_octet(p[1].as_slice()),
        read_octet(p[2].as_slice()),
        read_octet(p[3].as_slice()),
    ) {
        (Some(a), Some(b), Some(c), Some(d)) => Some(Ipv4Addr::new(a, b, c, d)),
        _ => None,
    }
}

fn read_group(s: &[char]) -> (r: Option<u16>)
    ensures
        r == group(s@),
{
    if s.len() == 0 || s.len() > 4 {
        return None;
    }
    proof {
        lemma_group_fits(s@);
    }
    match read_digits(s, 16, 0xffff) {
        Some(v) => Some(v as u16),
        None => None,
    }
}

/// Four hexadecimal digits fit into 16 bits.
pub(crate) proof fn lemma_group_fits(s: Seq<char>)
    requires
        s.len() <= 4,
    ensures
        digits_value(s, 16) matches Some(v) ==> v <= 0xffff,
{
    reveal_with_fuel(digits_value, 5);
}

/// The parts of `v`, from the first one on.
spec fn parts_of(v: Seq<Vec<char>>) -> Seq<Seq<char>> {
    v.map_values(|part: Vec<char>| part@)
}

/// The groups that the first `n` parts stand for, if each stands for one.
fn read_groups(parts: &Vec<Vec<char>>, n: usize) -> (r: Option<Vec<u16>>)
    requires
        n <= parts@.len(),
    ensures
        match groups(parts_of(parts@).take(n as int)) {
            Some(w) => r matches Some(v) && v@ == w,
            None => r is None,
        },
{
    let ghost all = parts_of(parts@);
    let mut r: Vec<u16> = Vec::new();
    let mut i: usize = 0;
    while i < n
        invariant
            n <= parts@.len(),
            all == parts_of(parts@),
            i <= n,
            groups(all.take(i as int)) == Some(r@),
        decreases n - i,
    {
        assert(all.take(i + 1).drop_last() =~= all.take(i as int));
        match read_group(parts[i].as_slice()) {
            Some(w) => {
                r.push(w);
            },
            None => {
                proof {
                    lemma_no_groups(all.take(n as int), i as int);
                }
                return None;
            },
        }
        i += 1;
    }
    Some(r)
}

/// One part that is no group spoils a row of groups.
pub(crate) proof fn lemma_no_groups(parts: Seq<Seq<char>>, i: int)
    requires
        0 <= i < parts.len(),
        group(parts[i]) is None,
    ensures
        groups(parts) is None,
    decreases parts.len(),
{
    if i < parts.len() - 1 {
        lemma_no_groups(parts.drop_last(), i);
    }
}

/// The groups that a stretch of an IPv6 address stands for.
fn read_stretch(s: &[char], ipv4_allowed: bool) -> (r: Option<Vec<u16>>)
    ensures
        match stretch(s@, ipv4_allowed) {
            Some(w) => r matches Some(v) && v@ == w,
            None => r is None,
        },
{
    if s.len() == 0 {
        return Some(Vec::new());
    }
    let parts: Vec<Vec<char>> = split_at(s, ':');
    let n: usize = parts.len();
    assert(parts_of(parts@) =~= split(s@, ':'));
    if ipv4_allowed {
        if let Some(a) = read_ipv4(parts[n - 1].as_slice()) {
            assert(split(s@, ':').take(n - 1) =~= split(s@, ':').drop_last());
            let mut w: Vec<u16> = match read_groups(&parts, n - 1) {
                Some(w) => w,
                None => return None,
            };
            let ghost before = w@;
            w.push((a.bits / 0x1_0000) as u16);
            w.push((a.bits % 0x1_0000) as u16);
            assert(w@ =~= before + seq![(a.bits / 0x1_0000) as u16, (a.bits % 0x1_0000) as u16]);
            return Some(w);
        }
    }
    assert(split(s@, ':').take(n as int) =~= split(s@, ':'));
    read_groups(&parts, n)
}

/// Where the first `::` starts, or the length of the text if there is none.
fn find_double_colon(s: &[char]) -> (r: usize)
    ensures
        r as int == double_colon(s@, 0),
        r <= s@.len(),
        r < s@.len() ==> r + 2 <= s@.len(),
{
    let mut i: usize = 0;
    while i < s.len() && s.len() - i >= 2
        invariant
            i <= s@.len(),
            double_colon(s@, 0) == double_colon(s@, i as int),
        decreases s@.len() - i,
    {
        if s[i] == ':' && s[i + 1] == ':' {
            return i;
        }
        i += 1;
    }
    s.len()
}

/// The IPv6 address that a text stands for.
pub fn read_ipv6(s: &[char]) -> (r: Option<Ipv6Addr>)
    ensures
        r == ipv6(s@),
{
    let i: usize = find_double_colon(s);
    let n: usize = s.len();
    let mut w: [u16; 8] = [0; 8];
    if i == n {
        match read_stretch(s, true) {
            Some(all) => {
                if all.len() != 8 {
                    return None;
                }
                fill(&mut w, 0, &all);
                assert(w@ =~= all@);
            },
            None => return None,
        }
    } else {
        let head_text: &[char] = vstd::slice::slice_subrange(s, 0, i);
        let tail_text: &[char] = vstd::slice::slice_subrange(s, i + 2, n);
        assert(head_text@ =~= s@.take(i as int));
        assert(tail_text@ =~= s@.skip(i + 2));
        match (read_stretch(head_text, false), read_stretch(tail_text, true)) {
            (Some(head), Some(tail)) => {
                if head.len() > 7 || tail.len() > 7 - head.len() {
                    return None;
                }
                fill(&mut w, 0, &head);
                fill(&mut w, 8 - tail.len(), &tail);
                assert(w@ =~= head@ + zeros((8 - head@.len() - tail@.len()) as nat) + tail@);
            },
            _ => return None,
        }
    }
    Some(Ipv6Addr::from_segments(w))
}

/// Copies words into an array, from index `at` on.
fn fill(w: &mut [u16; 8], at: usize, words: &Vec<u16>)
    requires
        at + words@.len() <= 8,
    ensures
        forall|j: int| 0 <= j < 8 ==> #[trigger] final(w)@[j] == (if at <= j < at + words@.len() {
            words@[j - at]
        } else {
            old(w)@[j]
        }),
{
    let mut k: usize = 0;
    while k < words.len()
        invariant
            at + words@.len() <= 8,
            k <= words@.len(),
            forall|j: int| 0 <= j < 8 ==> #[trigger] w@[j] == (if at <= j < at + k {
                words@[j - at]
            } else {
                old(w)@[j]
            }),
        decreases words@.len() - k,
    {
        w[at + k] = words[k];
        k += 1;
    }
}

/// The address that a text stands for.
pub fn read_ip(s: &[char]) -> (r: Option<IpAddr>)
    ensures
        r == ip(s@),
{
    match read_ipv4(s) {
        Some(a) => Some(IpAddr::V4(a)),
        None => match read_ipv6(s) {
            Some(a) => Some(IpAddr::V6(a)),
            None => None,
        },
    }
}

/// Writes the decimal digits of a number behind a text.
pub fn push_decimal(out: &mut String, n: u64)
    ensures
        final(out)@ == old(out)@ + decimal(n as nat),
    decreases n,
{
    if n >= 10 {
        push_decimal(out, n / 10);
    }
    push_digit(out, n % 10);
}

fn push_digit(out: &mut String, d: u64)
    requires
        d < 10,
    ensures
        final(out)@ == old(out)@.push((d + '0' as int) as char),
{
    proof {
        reveal_strlit("0");
        reveal_strlit("1");
        reveal_strlit("2");
        reveal_strlit("3");
        reveal_strlit("4");
        reveal_strlit("5");
        reveal_strlit("6");
        reveal_strlit("7");
        reveal_strlit("8");
        reveal_strlit("9");
    }
    let text: &str = match d {
        0 => "0",
        1 => "1",
        2 => "2",
        3 => "3",
        4 => "4",
        5 => "5",
        6 => "6",
        7 => "7",
        8 => "8",
        _ => "9",
    };
    out.append(text);
}

/// The decimal digits of a number are read as that number.
pub proof fn law_decimal_is_read_back(n: nat, max: nat)
    requires
        n <= max,
    ensures
        number(decimal(n), max) == Some(n),
{
    lemma_decimal_value(n);
    assert(decimal(n)[0] != '+');
}

pub proof fn lemma_decimal_value(n: nat)
    ensures
        decimal(n).len() > 0,
        digit(decimal(n)[0], 10) is Some,
        digits_value(decimal(n), 10) == Some(n),
    decreases n,
{
    let c = ((n % 10) + '0' as int) as char;
    assert(digit(c, 10) == Some(n % 10));
    assert(decimal(n).last() == c);
    if n < 10 {
        assert(decimal(n).drop_last() =~= Seq::<char>::empty());
        assert(digits_value(Seq::<char>::empty(), 10) == Some(0nat));
    } else {
        lemma_decimal_value(n / 10);
        assert(decimal(n).drop_last() =~= decimal(n / 10));
    }
}

/// The parts of a text hold no separator.
pub proof fn law_parts_hold_no_separator(s: Seq<char>, separator: char)
    ensures
        split(s, separator).len() > 0,
        forall|i: int| 0 <= i < split(s, separator).len() ==> !(#[trigger] split(s, separator)[i]).contains(
            separator,
        ),
    decreases s.len(),
{
    if s.len() > 0 {
        law_parts_hold_no_separator(s.drop_last(), separator);
        let before = split(s.drop_last(), separator);
        let parts = split(s, separator);
        assert forall|i: int| 0 <= i < parts.len() implies !(#[trigger] parts[i]).contains(
            separator,
        ) by {
            if i < before.len() - 1 || (i < before.len() && s.last() == separator) {
                assert(parts[i] == before[i]);
            } else if s.last() != separator {
                let part = before.last().push(s.last());
                assert(parts[i] == part);
                assert(!before[before.len() - 1].contains(separator));
                assert forall|j: int| 0 <= j < part.len() implies part[j] != separator by {
                    if j < before.last().len() {
                        assert(before.last().contains(before.last()[j]));
                    }
                }
            }
        }
    }
}

} // verus!
