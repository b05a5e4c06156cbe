//! The TUN interface: the numbers that describe it.

use vstd::arithmetic::power2;
use vstd::prelude::*;

use crate::addr::Ipv4Addr;

verus! {

/// The largest packet that the interface takes.
pub const MTU: u16 = 1500;

/// The netmask of a prefix: ones in its length, then zeros.
pub open spec fn netmask(prefix: u8) -> int {
    0x1_0000_0000 - power2::pow2(
        if prefix >= 32 {
            0
        } else {
            (32 - prefix) as nat
        },
    )
}

/// Convert a CIDR prefix to a netmask
pub fn prefix_to_netmask(prefix: u8) -> (r: Ipv4Addr)
    ensures
        r.bits as int == netmask(prefix),
{
    proof {
        power2::lemma2_to64();
    }
    if prefix == 0 {
        Ipv4Addr { bits: 0 }
    } else if prefix >= 32 {
        Ipv4Addr { bits: 0xffff_ffff }
    } else {
        let host_bits: u64 = 32 - prefix as u64;
        proof {
            power2::lemma_pow2_strictly_increases(host_bits as nat, 32);
            power2::lemma_pow2_pos(host_bits as nat);
            vstd::bits::lemma_u64_shl_is_mul(1, host_bits);
        }
        Ipv4Addr { bits: (0x1_0000_0000u64 - (1u64 << host_bits)) as u32 }
    }
}

/// A longer prefix leaves fewer addresses: its mask is larger.
pub proof fn law_longer_prefix_has_larger_mask(a: u8, b: u8)
    requires
        a < b <= 32,
    ensures
        netmask(a) < netmask(b),
{
    if b == 32 {
        power2::lemma2_to64();
        power2::lemma_pow2_strictly_increases(0, (32 - a) as nat);
    } else {
        power2::lemma_pow2_strictly_increases((32 - b) as nat, (32 - a) as nat);
    }
}

} // verus!
