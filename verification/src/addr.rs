//! Internet addresses, held as the numbers that they are.

use vstd::prelude::*;

use crate::bytes;
use crate::bytes::{read_be, write_be16, write_be4};

verus! {

/// An IPv4 address: its four octets as one big-endian number.
#[derive(Clone, Copy, Debug, PartialEq, Eq, Hash, Structural)]
pub struct Ipv4Addr {
    pub bits: u32,
}

/// An IPv6 address: its sixteen octets as one big-endian number.
#[derive(Clone, Copy, Debug, PartialEq, Eq, Hash, Structural)]
pub struct Ipv6Addr {
    pub bits: u128,
}

/// An IPv4 or IPv6 address.
#[derive(Clone, Copy, Debug, PartialEq, Eq, Hash, Structural)]
pub enum IpAddr {
    V4(Ipv4Addr),
    V6(Ipv6Addr),
}

/// An address and a port.
#[derive(Clone, Copy, Debug, PartialEq, Eq, Hash, Structural)]
pub struct SocketAddr {
    pub ip: IpAddr,
    pub port: u16,
}

impl Ipv4Addr {
    /// The address `a.b.c.d`.
    pub fn new(a: u8, b: u8, c: u8, d: u8) -> (r: Ipv4Addr)
        ensures
            r.octets_view() == seq![a, b, c, d],
            r.bits == a * 0x100_0000 + b * 0x1_0000 + c * 0x100 + d,
    {
        let octets: [u8; 4] = [a, b, c, d];
        let r: Ipv4Addr = Ipv4Addr::from_octets(octets);
        proof {
            assert(octets@ =~= seq![a, b, c, d]);
            reveal_with_fuel(bytes::be_value, 5);
            assert(octets@.drop_last() =~= seq![a, b, c]);
            assert(octets@.drop_last().drop_last() =~= seq![a, b]);
            assert(octets@.drop_last().drop_last().drop_last() =~= seq![a]);
        }
        r
    }

    /// The four octets, the first one first.
    pub open spec fn octets_view(self) -> Seq<u8> {
        bytes::be_bytes(self.bits as nat, 4)
    }

    /// The address with these octets.
    pub fn from_octets(octets: [u8; 4]) -> (r: Ipv4Addr)
        ensures
            r.bits as nat == bytes::be_value(octets@),
            r.octets_view() == octets@,
    {
        let octets_ref: &[u8] = &octets;
        let v: u128 = read_be(octets_ref);
        proof {
            bytes::lemma_be_value_bound(octets@);
            bytes::lemma_byte_ranges();
            bytes::lemma_written_read(octets@);
        }
        Ipv4Addr { bits: v as u32 }
    }

    /// The four octets, the first one first.
    pub fn octets(self) -> (r: [u8; 4])
        ensures
            r@ == self.octets_view(),
            bytes::be_value(r@) == self.bits as nat,
    {
        write_be4(self.bits)
    }
}

impl Ipv6Addr {
    /// The sixteen octets, the first one first.
    pub open spec fn octets_view(self) -> Seq<u8> {
        bytes::be_bytes(self.bits as nat, 16)
    }

    /// The address with these eight groups of two octets.
    pub open spec fn of_segments(s: Seq<u16>) -> nat
        decreases s.len(),
    {
        if s.len() == 0 {
            0
        } else {
            Ipv6Addr::of_segments(s.drop_last()) * 0x1_0000 + s.last() as nat
        }
    }

    /// The eight groups of two octets, the first one first.
    pub open spec fn segments(self) -> Seq<u16> {
        segments_of(self.bits as nat, 8)
    }

    /// The address with these eight groups of two octets.
    pub fn from_segments(s: [u16; 8]) -> (r: Ipv6Addr)
        ensures
            r.bits as nat == Ipv6Addr::of_segments(s@),
    {
        let mut bits: u128 = 0;
        let mut bound: Ghost<nat> = Ghost(1);
        let mut i: usize = 0;
        assert(s@.take(0) =~= Seq::<u16>::empty());
        while i < 8
            invariant
                i <= 8,
                bits as nat == Ipv6Addr::of_segments(s@.take(i as int)),
                bits < bound@,
                bound@ == segment_range(i as nat),
            decreases 8 - i,
        {
            proof {
                assert(s@.take(i + 1).drop_last() =~= s@.take(i as int));
                bound@ = segment_range(i as nat + 1);
                reveal_with_fuel(segment_range, 9);
                assert(segment_range(i as nat + 1) <= u128::MAX + 1);
            }
            bits = bits * 0x1_0000 + s[i] as u128;
            i = i + 1;
        }
        assert(s@.take(8) =~= s@);
        Ipv6Addr { bits }
    }

    /// The address `a:b:c:d:e:f:g:h`.
    pub fn new(a: u16, b: u16, c: u16, d: u16, e: u16, f: u16, g: u16, h: u16) -> (r: Ipv6Addr)
        ensures
            r.bits as nat == Ipv6Addr::of_segments(seq![a, b, c, d, e, f, g, h]),
    {
        let s: [u16; 8] = [a, b, c, d, e, f, g, h];
        assert(s@ =~= seq![a, b, c, d, e, f, g, h]);
        Ipv6Addr::from_segments(s)
    }

    /// The address with these octets.
    pub fn from_octets(octets: [u8; 16]) -> (r: Ipv6Addr)
        ensures
            r.bits as nat == bytes::be_value(octets@),
            r.octets_view() == octets@,
    {
        let octets_ref: &[u8] = &octets;
        let v: u128 = read_be(octets_ref);
        proof {
            bytes::lemma_be_value_bound(octets@);
            bytes::lemma_byte_ranges();
            bytes::lemma_written_read(octets@);
        }
        Ipv6Addr { bits: v }
    }

    /// The sixteen octets, the first one first.
    pub fn octets(self) -> (r: [u8; 16])
        ensures
            r@ == self.octets_view(),
            bytes::be_value(r@) == self.bits as nat,
    {
        write_be16(self.bits)
    }
}

/// How many numbers `n` groups of two octets hold.
pub open spec fn segment_range(n: nat) -> nat
    decreases n,
{
    if n == 0 {
        1
    } else {
        0x1_0000 * segment_range((n - 1) as nat)
    }
}

/// The last `n` groups of two octets of `v`, the first one first.
pub open spec fn segments_of(v: nat, n: nat) -> Seq<u16>
    decreases n,
{
    if n == 0 {
        Seq::empty()
    } else {
        segments_of(v / 0x1_0000, (n - 1) as nat).push((v % 0x1_0000) as u16)
    }
}

/// An address is put together again from its groups.
pub proof fn law_segments_make_the_address(a: Ipv6Addr)
    ensures
        a.segments().len() == 8,
        Ipv6Addr::of_segments(a.segments()) == a.bits as nat,
{
    reveal_with_fuel(segment_range, 9);
    lemma_segments(a.bits as nat, 8);
}

proof fn lemma_segments(v: nat, n: nat)
    requires
        v < segment_range(n),
    ensures
        segments_of(v, n).len() == n,
        Ipv6Addr::of_segments(segments_of(v, n)) == v,
    decreases n,
{
    if n > 0 {
        lemma_segments(v / 0x1_0000, (n - 1) as nat);
        assert(segments_of(v, n).drop_last() =~= segments_of(v / 0x1_0000, (n - 1) as nat));
    }
}

impl IpAddr {
    /// Whether both addresses are of one family.
    pub open spec fn same_family(self, other: IpAddr) -> bool {
        self is V4 <==> other is V4
    }
}

/// Two addresses with the same octets are the same address.
pub proof fn law_octets_identify_address(a: IpAddr, b: IpAddr)
    requires
        a.same_family(b),
        a matches IpAddr::V4(x) ==> x.octets_view() == b->V4_0.octets_view(),
        a matches IpAddr::V6(x) ==> x.octets_view() == b->V6_0.octets_view(),
    ensures
        a == b,
{
    bytes::lemma_byte_ranges();
    match (a, b) {
        (IpAddr::V4(x), IpAddr::V4(y)) => {
            bytes::lemma_read_written(x.bits as nat, 4);
            bytes::lemma_read_written(y.bits as nat, 4);
        },
        (IpAddr::V6(x), IpAddr::V6(y)) => {
            bytes::lemma_read_written(x.bits as nat, 16);
            bytes::lemma_read_written(y.bits as nat, 16);
        },
        _ => {},
    }
}

/// The octets of an IPv4 address, the first one first, each counting 256 times the next
/// one.
pub proof fn law_octets_of_ipv4(a: Ipv4Addr)
    ensures
        a.octets_view().len() == 4,
        a.octets_view()[0] * 0x100_0000 + a.octets_view()[1] * 0x1_0000 + a.octets_view()[2] * 0x100
            + a.octets_view()[3] == a.bits,
{
    bytes::lemma_byte_ranges();
    bytes::lemma_be_bytes_len(a.bits as nat, 4);
    bytes::lemma_read_written(a.bits as nat, 4);
    let s = a.octets_view();
    reveal_with_fuel(bytes::be_value, 5);
    assert(s.drop_last().drop_last().drop_last().drop_last() =~= Seq::<u8>::empty());
}

/// The groups of an IPv6 address, the first one first, each counting 65536 times the
/// next one.
pub proof fn law_groups_of_ipv6(s: Seq<u16>)
    requires
        s.len() == 8,
    ensures
        Ipv6Addr::of_segments(s) == s[0] * 0x1_0000_0000_0000_0000_0000_0000_0000 + s[1]
            * 0x1_0000_0000_0000_0000_0000_0000 + s[2] * 0x1_0000_0000_0000_0000_0000 + s[3]
            * 0x1_0000_0000_0000_0000 + s[4] * 0x1_0000_0000_0000 + s[5] * 0x1_0000_0000 + s[6]
            * 0x1_0000 + s[7],
        Ipv6Addr::of_segments(s) <= u128::MAX,
{
    reveal_with_fuel(Ipv6Addr::of_segments, 9);
    let four = s.drop_last().drop_last().drop_last().drop_last();
    assert(four.drop_last().drop_last().drop_last().drop_last() =~= Seq::<u16>::empty());
}

/// Each group of an IPv6 address is two of its octets, the first one first.
pub proof fn law_groups_are_pairs_of_octets(a: Ipv6Addr)
    ensures
        a.octets_view().len() == 16,
        a.segments().len() == 8,
        forall|i: int|
            0 <= i < 8 ==> #[trigger] a.segments()[i] == a.octets_view()[2 * i] * 256
                + a.octets_view()[2 * i + 1],
{
    lemma_pairs(a.bits as nat, 8);
}

proof fn lemma_pairs(v: nat, n: nat)
    ensures
        segments_of(v, n).len() == n,
        bytes::be_bytes(v, 2 * n).len() == 2 * n,
        forall|i: int|
            0 <= i < n ==> #[trigger] segments_of(v, n)[i] == bytes::be_bytes(v, 2 * n)[2 * i] * 256
                + bytes::be_bytes(v, 2 * n)[2 * i + 1],
    decreases n,
{
    if n > 0 {
        let m = (n - 1) as nat;
        lemma_pairs(v / 0x1_0000, m);
        assert(v / 256 / 256 == v / 0x1_0000);
        assert(bytes::be_bytes(v, 2 * n) == bytes::be_bytes(v / 256, (2 * n - 1) as nat).push(
            (v % 256) as u8,
        ));
        assert(bytes::be_bytes(v / 256, (2 * n - 1) as nat) == bytes::be_bytes(
            v / 0x1_0000,
            2 * m,
        ).push((v / 256 % 256) as u8));
        assert(v % 0x1_0000 == (v / 256 % 256) * 256 + v % 256);
        assert forall|i: int| 0 <= i < n implies #[trigger] segments_of(v, n)[i]
            == bytes::be_bytes(v, 2 * n)[2 * i] * 256 + bytes::be_bytes(v, 2 * n)[2 * i + 1] by {
            if i < m {
                assert(segments_of(v, n)[i] == segments_of(v / 0x1_0000, m)[i]);
                assert(bytes::be_bytes(v, 2 * n)[2 * i] == bytes::be_bytes(
                    v / 0x1_0000,
                    2 * m,
                )[2 * i]);
                assert(bytes::be_bytes(v, 2 * n)[2 * i + 1] == bytes::be_bytes(
                    v / 0x1_0000,
                    2 * m,
                )[2 * i + 1]);
            }
        }
    }
}

} // verus!
