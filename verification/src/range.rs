//! Address range generation: base address and prefix length to the full,
//! ascending list of addresses of the subnet.

use vstd::prelude::*;

verus! {

use vstd::arithmetic::power2::pow2;
use vstd::bits::lemma_u32_pow2_no_overflow;
use vstd::bits::lemma_u32_shl_is_mul;

/// Mask selecting the host bits of an address under the given prefix length.
pub open spec fn host_mask(prefix: u8) -> u32
    recommends
        prefix <= 32,
{
    if prefix == 0 {
        0xFFFF_FFFFu32
    } else {
        (((1u32 << ((32 - prefix) as u32)) - 1) as u32)
    }
}

/// Network address: the base with all host bits cleared.
pub open spec fn network_addr(base: u32, prefix: u8) -> u32
    recommends
        prefix <= 32,
{
    base & !host_mask(prefix)
}

/// Broadcast address: the base with all host bits set.
pub open spec fn broadcast_addr(base: u32, prefix: u8) -> u32
    recommends
        prefix <= 32,
{
    base | host_mask(prefix)
}

/// Every address of the subnet from the network address to the broadcast
/// address inclusive, in ascending order. A base of `None` stands for a
/// non-IPv4 local address and yields the empty range, keeping the scan total.
pub fn calculate_ip_ranges(base: Option<u32>, prefix: u8) -> (r: Vec<u32>)
    requires
        prefix <= 32,
    ensures
        base is None ==> r@.len() == 0,
        base is Some ==> r@.len() == host_mask(prefix) + 1,
        base is Some ==> r@.len() == pow2((32 - prefix) as nat),
        base is Some ==> forall|k: int|
            0 <= k < r@.len() ==> r@[k] == network_addr(base->0, prefix) + k,
        base is Some ==> r@[0] == network_addr(base->0, prefix),
        base is Some ==> r@[r@.len() - 1] == broadcast_addr(base->0, prefix),
        forall|k1: int, k2: int| 0 <= k1 < k2 < r@.len() ==> r@[k1] < r@[k2],
{
    match base {
        None => Vec::new(),
        Some(b) => {
            let hb: u32 = 32 - (prefix as u32);
            let mask: u32 = if hb == 32 {
                0xFFFF_FFFFu32
            } else {
                assert(1u32 << hb >= 1) by (bit_vector)
                    requires
                        hb < 32,
                ;
                (1u32 << hb) - 1
            };
            assert(mask == host_mask(prefix));
            proof {
                lemma_mask_plus_one_is_pow2(prefix);
            }
            let network: u32 = b & !mask;
            assert((b & !mask) <= 0xFFFF_FFFFu32 - mask) by (bit_vector);
            assert(((b & !mask) + mask) as u32 == (b | mask)) by (bit_vector);
            let count: u64 = mask as u64 + 1;
            let mut out: Vec<u32> = Vec::new();
            let mut i: u64 = 0;
            while i < count
                invariant
                    i <= count,
                    count == mask as int + 1,
                    network == b & !mask,
                    network + mask <= u32::MAX,
                    out@.len() == i,
                    forall|k: int| 0 <= k < i ==> out@[k] == network + k,
                decreases count - i,
            {
                out.push(network + (i as u32));
                i = i + 1;
            }
            out
        },
    }
}

/// The size of the subnet block is the power of two given by the host bits.
proof fn lemma_mask_plus_one_is_pow2(prefix: u8)
    requires
        prefix <= 32,
    ensures
        host_mask(prefix) + 1 == pow2((32 - prefix) as nat),
{
    let hb = (32 - prefix) as nat;
    if prefix == 0 {
        vstd::arithmetic::power2::lemma2_to64();
        vstd::arithmetic::power2::lemma2_to64_rest();
    } else {
        lemma_u32_pow2_no_overflow(hb);
        lemma_u32_shl_is_mul(1u32, hb as u32);
    }
}

} // verus!
