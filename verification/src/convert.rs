//! Address conversion: from the raw binary representations stored in the
//! platform's socket-address structures to the crate's address types.
//!
//! The raw 32-bit IPv4 word is laid out in network byte order in memory.
//! When the host reads it as an integer, a little-endian CPU sees the
//! octets reversed, so the conversion takes the host's byte order as an
//! explicit input and corrects for it.  The 16-byte IPv6 array is already
//! in the natural address order and needs no correction.

use vstd::prelude::*;

use crate::addr::{Ipv4Addr, Ipv6Addr};
use crate::interface::Netmask;

verus! {

/// The octets that a raw IPv4 word denotes, given how the host reads
/// memory: on a big-endian host the most significant byte of the word is
/// the first octet; on a little-endian host the least significant one is.
pub open spec fn v4_octets(word: u32, big_endian: bool) -> Seq<u8> {
    if big_endian {
        seq![
            ((word >> 24) & 0xff) as u8,
            ((word >> 16) & 0xff) as u8,
            ((word >> 8) & 0xff) as u8,
            (word & 0xff) as u8,
        ]
    } else {
        seq![
            (word & 0xff) as u8,
            ((word >> 8) & 0xff) as u8,
            ((word >> 16) & 0xff) as u8,
            ((word >> 24) & 0xff) as u8,
        ]
    }
}

/// Creates a [`Ipv4Addr`] from the raw address word of an INET
/// socket-address structure, taking the CPU byte order into account to
/// avoid twisted IP addresses.
///
/// `word` is the 32-bit value as this host read it from the structure;
/// `big_endian` says whether the host stores the most significant byte
/// first.  The word is stored in network byte order, so on a little-endian
/// host the byte order is reversed and on a big-endian host it is used
/// as-is.  Conversion is total: every word yields an address.
pub fn ipv4_from_raw(word: u32, big_endian: bool) -> (r: Ipv4Addr)
    ensures
        r@ =~= v4_octets(word, big_endian),
{
    if big_endian {
        Ipv4Addr::new(
            ((word >> 24) & 0xff) as u8,
            ((word >> 16) & 0xff) as u8,
            ((word >> 8) & 0xff) as u8,
            (word & 0xff) as u8,
        )
    } else {
        Ipv4Addr::new(
            (word & 0xff) as u8,
            ((word >> 8) & 0xff) as u8,
            ((word >> 16) & 0xff) as u8,
            ((word >> 24) & 0xff) as u8,
        )
    }
}

/// Creates a [`Ipv6Addr`] from the raw 16-byte array of an INET6
/// socket-address structure.  The array is already laid out in the
/// natural address order, so no byte-order correction applies.
pub fn ipv6_from_raw(octets: [u8; 16]) -> (r: Ipv6Addr)
    ensures
        r@ == octets@,
{
    Ipv6Addr::from_octets(octets)
}

/// The two readings of one stored word agree: interpreting a word as a
/// big-endian host reads it gives the same octets as interpreting the
/// byte-swapped word as a little-endian host reads it.  Together with the
/// exact contract of [`ipv4_from_raw`] this says the conversion depends
/// only on the four stored bytes, not on the host architecture.
pub proof fn lemma_v4_octets_byte_order(word: u32)
    ensures
        v4_octets(word, true) =~= v4_octets(
            ((word & 0xff) << 24) | (((word >> 8) & 0xff) << 16) | (((word >> 16) & 0xff) << 8) | (
            (word >> 24) & 0xff),
            false,
        ),
{
    let swapped: u32 = ((word & 0xff) << 24) | (((word >> 8) & 0xff) << 16) | (((word >> 16)
        & 0xff) << 8) | ((word >> 24) & 0xff);
    assert(((swapped >> 24) & 0xff) == (word & 0xff)) by (bit_vector)
        requires
            swapped == ((word & 0xff) << 24) | (((word >> 8) & 0xff) << 16) | (((word >> 16) & 0xff)
                << 8) | ((word >> 24) & 0xff),
    ;
    assert(((swapped >> 16) & 0xff) == ((word >> 8) & 0xff)) by (bit_vector)
        requires
            swapped == ((word & 0xff) << 24) | (((word >> 8) & 0xff) << 16) | (((word >> 16) & 0xff)
                << 8) | ((word >> 24) & 0xff),
    ;
    assert(((swapped >> 8) & 0xff) == ((word >> 16) & 0xff)) by (bit_vector)
        requires
            swapped == ((word & 0xff) << 24) | (((word >> 8) & 0xff) << 16) | (((word >> 16) & 0xff)
                << 8) | ((word >> 24) & 0xff),
    ;
    assert((swapped & 0xff) == ((word >> 24) & 0xff)) by (bit_vector)
        requires
            swapped == ((word & 0xff) << 24) | (((word >> 8) & 0xff) << 16) | (((word >> 16) & 0xff)
                << 8) | ((word >> 24) & 0xff),
    ;
}

/// The per-octet subnet arithmetic of one IPv4 address triple.  For every
/// octet position, the address and the broadcast address agree on the
/// network part (`ip & mask == bc & mask`), and the broadcast address
/// covers every host bit (`bc | mask == 255`).
pub open spec fn octet_mask_consistent(ip: Seq<u8>, mask: Seq<u8>, bc: Seq<u8>) -> bool {
    forall|i: int|
        0 <= i < ip.len() ==> ((#[trigger] ip[i]) & mask[i]) == (bc[i] & mask[i]) && (bc[i] | (
        mask[i])) == 0xff
}

proof fn lemma_octet_bits(ip: u32, mask: u32, bc: u32, s: u32)
    requires
        s == 0 || s == 8 || s == 16 || s == 24,
        ip & mask == bc & mask,
        bc | mask == 0xffffffffu32,
    ensures
        ((((ip >> s) & 0xff) as u8) & (((mask >> s) & 0xff) as u8)) == ((((bc >> s) & 0xff) as u8)
            & (((mask >> s) & 0xff) as u8)),
        ((((bc >> s) & 0xff) as u8) | (((mask >> s) & 0xff) as u8)) == 0xffu8,
{
    assert((((((ip >> s) & 0xff) as u8) & (((mask >> s) & 0xff) as u8)) == ((((bc >> s) & 0xff)
        as u8) & (((mask >> s) & 0xff) as u8))) && (((((bc >> s) & 0xff) as u8) | (((mask >> s)
        & 0xff) as u8)) == 0xffu8)) by (bit_vector)
        requires
            s == 0 || s == 8 || s == 16 || s == 24,
            ip & mask == bc & mask,
            bc | mask == 0xffffffffu32,
    ;
}

/// Round-trip of the subnet arithmetic through address conversion: when
/// the raw address, netmask and broadcast words satisfy the word-level
/// subnet relations (`ip & mask == bc & mask` and `bc | mask` all ones),
/// the converted octets satisfy them octet by octet, under either byte
/// order.  A record whose raw broadcast word does not satisfy the
/// word-level relations (say broadcast 0 with a non-zero mask) is passed
/// through unchanged, so nothing stronger can hold of every input.
pub proof fn lemma_v4_mask_broadcast_roundtrip(ip: u32, mask: u32, bc: u32, big_endian: bool)
    requires
        ip & mask == bc & mask,
        bc | mask == 0xffffffffu32,
    ensures
        octet_mask_consistent(
            v4_octets(ip, big_endian),
            v4_octets(mask, big_endian),
            v4_octets(bc, big_endian),
        ),
{
    lemma_octet_bits(ip, mask, bc, 0);
    lemma_octet_bits(ip, mask, bc, 8);
    lemma_octet_bits(ip, mask, bc, 16);
    lemma_octet_bits(ip, mask, bc, 24);
    assert(ip >> 0 == ip && mask >> 0 == mask && bc >> 0 == bc) by (bit_vector);
    let a = v4_octets(ip, big_endian);
    let m = v4_octets(mask, big_endian);
    let b = v4_octets(bc, big_endian);
    assert forall|i: int| 0 <= i < a.len() implies ((#[trigger] a[i]) & m[i]) == (b[i] & m[i]) && (
    b[i] | (m[i])) == 0xff by {
        if big_endian {
            assert(a[0] == ((ip >> 24) & 0xff) as u8 && a[1] == ((ip >> 16) & 0xff) as u8 && a[2]
                == ((ip >> 8) & 0xff) as u8 && a[3] == ((ip >> 0) & 0xff) as u8);
            assert(m[0] == ((mask >> 24) & 0xff) as u8 && m[1] == ((mask >> 16) & 0xff) as u8
                && m[2] == ((mask >> 8) & 0xff) as u8 && m[3] == ((mask >> 0) & 0xff) as u8);
            assert(b[0] == ((bc >> 24) & 0xff) as u8 && b[1] == ((bc >> 16) & 0xff) as u8 && b[2]
                == ((bc >> 8) & 0xff) as u8 && b[3] == ((bc >> 0) & 0xff) as u8);
        } else {
            assert(a[3] == ((ip >> 24) & 0xff) as u8 && a[2] == ((ip >> 16) & 0xff) as u8 && a[1]
                == ((ip >> 8) & 0xff) as u8 && a[0] == ((ip >> 0) & 0xff) as u8);
            assert(m[3] == ((mask >> 24) & 0xff) as u8 && m[2] == ((mask >> 16) & 0xff) as u8
                && m[1] == ((mask >> 8) & 0xff) as u8 && m[0] == ((mask >> 0) & 0xff) as u8);
            assert(b[3] == ((bc >> 24) & 0xff) as u8 && b[2] == ((bc >> 16) & 0xff) as u8 && b[1]
                == ((bc >> 8) & 0xff) as u8 && b[0] == ((bc >> 0) & 0xff) as u8);
        }
    }
}

/// The netmask of an INET record: absent when the record's netmask
/// pointer was null, otherwise the raw word converted like any IPv4
/// address.
pub fn make_ipv4_netmask(raw: Option<u32>, big_endian: bool) -> (r: Netmask<Ipv4Addr>)
    ensures
        raw is None ==> r is None,
        raw matches Some(w) ==> r matches Some(m) && m@ == v4_octets(w, big_endian),
{
    match raw {
        None => None,
        Some(w) => Some(ipv4_from_raw(w, big_endian)),
    }
}

/// A link-local IPv6 netmask: one whose leading bytes are `fe80`.
pub open spec fn is_link_local_v6(octets: Seq<u8>) -> bool {
    octets.len() == 16 && octets[0] == 0xfe && octets[1] == 0x80
}

/// The netmask of an INET6 record: absent when the record's netmask
/// pointer was null, otherwise the raw octets.  When `suppress_link_local`
/// is set (the Apple/BSD policy), a link-local (`fe80::`) mask is
/// deliberately treated as absent.
pub fn make_ipv6_netmask(raw: Option<[u8; 16]>, suppress_link_local: bool) -> (r: Netmask<
    Ipv6Addr,
>)
    ensures
        raw is None ==> r is None,
        raw matches Some(o) ==> {
            if suppress_link_local && is_link_local_v6(o@) {
                r is None
            } else {
                r matches Some(m) && m@ == o@
            }
        },
{
    match raw {
        None => None,
        Some(octets) => {
            if suppress_link_local && octets[0] == 0xfe && octets[1] == 0x80 {
                None
            } else {
                Some(ipv6_from_raw(octets))
            }
        },
    }
}

} // verus!
