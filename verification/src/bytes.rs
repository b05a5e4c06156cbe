//! Big-endian numbers as byte sequences.

use vstd::prelude::*;

verus! {

/// The number that a sequence of bytes stands for, most significant byte first.
pub open spec fn be_value(s: Seq<u8>) -> nat
    decreases s.len(),
{
    if s.len() == 0 {
        0
    } else {
        be_value(s.drop_last()) * 256 + s.last() as nat
    }
}

/// The last `n` bytes of `v`, most significant byte first.
pub open spec fn be_bytes(v: nat, n: nat) -> Seq<u8>
    decreases n,
{
    if n == 0 {
        Seq::empty()
    } else {
        be_bytes(v / 256, (n - 1) as nat).push((v % 256) as u8)
    }
}

/// How many numbers fit in `n` bytes.
pub open spec fn byte_range(n: nat) -> nat
    decreases n,
{
    if n == 0 {
        1
    } else {
        256 * byte_range((n - 1) as nat)
    }
}

/// A number of `n` bytes is below `byte_range(n)`.
pub proof fn lemma_be_value_bound(s: Seq<u8>)
    ensures
        be_value(s) < byte_range(s.len()),
    decreases s.len(),
{
    if s.len() != 0 {
        lemma_be_value_bound(s.drop_last());
    }
}

/// Writing takes exactly the bytes asked for.
pub proof fn lemma_be_bytes_len(v: nat, n: nat)
    ensures
        be_bytes(v, n).len() == n,
    decreases n,
{
    if n != 0 {
        lemma_be_bytes_len(v / 256, (n - 1) as nat);
    }
}

/// Reading gives back the number that was written, when it fits.
pub proof fn lemma_read_written(v: nat, n: nat)
    requires
        v < byte_range(n),
    ensures
        be_value(be_bytes(v, n)) == v,
    decreases n,
{
    if n != 0 {
        lemma_read_written(v / 256, (n - 1) as nat);
        assert(be_bytes(v, n).drop_last() =~= be_bytes(v / 256, (n - 1) as nat));
    }
}

/// Writing a number that was read gives back its bytes.
pub proof fn lemma_written_read(s: Seq<u8>)
    ensures
        be_bytes(be_value(s), s.len()) == s,
    decreases s.len(),
{
    if s.len() != 0 {
        lemma_written_read(s.drop_last());
        assert(be_bytes(be_value(s), s.len()) =~= s);
    } else {
        assert(be_bytes(be_value(s), s.len()) =~= s);
    }
}

/// The first byte counts most: with each further byte behind it, all before count 256
/// times as much.
pub proof fn law_bytes_count_in_order(s: Seq<u8>, last: u8)
    ensures
        be_value(s.push(last)) == be_value(s) * 256 + last,
        be_value(seq![]) == 0,
{
    assert(s.push(last).drop_last() =~= s);
}

/// The numbers that four and sixteen bytes hold are those of `u32` and `u128`.
pub proof fn lemma_byte_ranges()
    ensures
        byte_range(2) == 0x1_0000,
        byte_range(4) == 0x1_0000_0000,
        byte_range(16) == u128::MAX + 1,
{
    reveal_with_fuel(byte_range, 17);
}

/// Reads a big-endian number of at most sixteen bytes.
pub fn read_be(bytes: &[u8]) -> (v: u128)
    requires
        bytes@.len() <= 16,
    ensures
        v as nat == be_value(bytes@),
{
    let mut v: u128 = 0;
    let mut i: usize = 0;
    assert(bytes@.take(0) =~= Seq::<u8>::empty());
    while i < bytes.len()
        invariant
            i <= bytes@.len() <= 16,
            v as nat == be_value(bytes@.take(i as int)),
        decreases bytes@.len() - i,
    {
        proof {
            let next = bytes@.take(i + 1);
            assert(next.drop_last() =~= bytes@.take(i as int));
            lemma_be_value_bound(next);
            lemma_byte_range_grows(i as nat + 1, 16);
            lemma_byte_ranges();
        }
        v = v * 256 + bytes[i] as u128;
        i = i + 1;
    }
    assert(bytes@.take(i as int) =~= bytes@);
    v
}

proof fn lemma_byte_range_grows(m: nat, n: nat)
    requires
        m <= n,
    ensures
        byte_range(m) <= byte_range(n),
    decreases n - m,
{
    if m < n {
        lemma_byte_range_grows(m + 1, n);
    }
}

/// Writes the last four bytes of a number, most significant byte first.
pub fn write_be4(v: u32) -> (out: [u8; 4])
    ensures
        out@ == be_bytes(v as nat, 4),
        be_value(out@) == v as nat,
{
    let out: [u8; 4] = [
        (v / 0x100_0000) as u8,
        (v / 0x1_0000 % 256) as u8,
        (v / 0x100 % 256) as u8,
        (v % 256) as u8,
    ];
    proof {
        reveal_with_fuel(be_bytes, 5);
        assert(v as nat / 256 / 256 == v as nat / 0x1_0000);
        assert(v as nat / 256 / 256 / 256 == v as nat / 0x100_0000);
        assert(out@ =~= be_bytes(v as nat, 4));
        lemma_byte_ranges();
        lemma_read_written(v as nat, 4);
    }
    out
}

/// Writes a number in sixteen bytes, most significant byte first.
pub fn write_be16(v: u128) -> (out: [u8; 16])
    ensures
        out@ == be_bytes(v as nat, 16),
        be_value(out@) == v as nat,
{
    let mut out: [u8; 16] = [0u8; 16];
    let mut rest: u128 = v;
    let mut i: usize = 16;
    while i > 0
        invariant
            i <= 16,
            be_bytes(v as nat, 16) =~= be_bytes(rest as nat, i as nat) + out@.subrange(i as int, 16),
        decreases i,
    {
        let ghost before = out@.subrange(i as int, 16);
        i = i - 1;
        out[i] = (rest % 256) as u8;
        proof {
            lemma_be_bytes_len(rest as nat, i as nat + 1);
            assert(out@.subrange(i as int, 16) =~= seq![(rest % 256) as u8] + before);
        }
        rest = rest / 256;
    }
    proof {
        assert(out@.subrange(0, 16) =~= out@);
        lemma_byte_ranges();
        lemma_read_written(v as nat, 16);
    }
    out
}

} // verus!
