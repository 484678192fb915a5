//! Normalization logic for the adapter-list flavor of enumeration, where
//! the platform yields adapters with nested unicast-address lists.
//!
//! Only the computations live here: converting an on-link prefix length to
//! a dotted netmask, searching an adapter's prefix list for the subnet
//! broadcast address, formatting the physical address, and decoding the
//! UTF-16 adapter name.  Walking the platform's adapter buffer itself is
//! acquisition work that stays outside the crate.

use vstd::prelude::*;

use crate::addr::Ipv4Addr;
use crate::builder::iface_views;
use crate::convert::{ipv4_from_raw, ipv6_from_raw, v4_octets};
use crate::error::{Error, ErrorModel};
use crate::hex::{hex_colon, hex_colon_text};
use crate::interface::{
    Addr, AddrModel, IfaceModel, Netmask, NetworkInterface, V4IfAddr, V4Model, V6IfAddr, V6Model,
};

verus! {

/// The netmask byte whose leading `bits` bits are ones.
pub open spec fn mask_octet(bits: int) -> u8
    recommends
        0 <= bits <= 8,
{
    if bits <= 0 {
        0
    } else if bits == 1 {
        0x80
    } else if bits == 2 {
        0xc0
    } else if bits == 3 {
        0xe0
    } else if bits == 4 {
        0xf0
    } else if bits == 5 {
        0xf8
    } else if bits == 6 {
        0xfc
    } else if bits == 7 {
        0xfe
    } else {
        0xff
    }
}

/// How many of an IPv4 netmask's bits fall in the octet at position `i`
/// when the mask has `prefix_len` leading ones.
pub open spec fn octet_bits(prefix_len: u8, i: int) -> int {
    if prefix_len - 8 * i > 8 {
        8
    } else if prefix_len - 8 * i < 0 {
        0
    } else {
        prefix_len - 8 * i
    }
}

/// The dotted netmask with `prefix_len` leading ones, as its four octets.
pub open spec fn v4_mask_octets(prefix_len: u8) -> Seq<u8> {
    Seq::new(4, |i: int| mask_octet(octet_bits(prefix_len, i)))
}

/// The netmask byte whose leading `bits` bits are ones.
fn mask_octet_of(bits: u8) -> (r: u8)
    requires
        bits <= 8,
    ensures
        r == mask_octet(bits as int),
{
    match bits {
        0 => 0,
        1 => 0x80,
        2 => 0xc0,
        3 => 0xe0,
        4 => 0xf0,
        5 => 0xf8,
        6 => 0xfc,
        7 => 0xfe,
        _ => 0xff,
    }
}

/// The bits of the mask that fall in octet `i`.
fn octet_bits_of(prefix_len: u8, i: u8) -> (r: u8)
    requires
        i < 4,
    ensures
        r == octet_bits(prefix_len, i as int),
        r <= 8,
{
    if prefix_len >= 8 * (i as u8) + 8 {
        8
    } else if prefix_len <= 8 * (i as u8) {
        0
    } else {
        prefix_len - 8 * (i as u8)
    }
}

/// Converts an on-link prefix length to the dotted IPv4 netmask with that
/// many leading ones.  A length over 32 names no IPv4 netmask and yields
/// none.
pub fn length_to_ipv4_mask(prefix_len: u8) -> (r: Netmask<Ipv4Addr>)
    ensures
        prefix_len > 32 ==> r is None,
        prefix_len <= 32 ==> (r matches Some(m) && m@ == v4_mask_octets(prefix_len)),
{
    if prefix_len > 32 {
        return None;
    }
    let m = Ipv4Addr::new(
        mask_octet_of(octet_bits_of(prefix_len, 0)),
        mask_octet_of(octet_bits_of(prefix_len, 1)),
        mask_octet_of(octet_bits_of(prefix_len, 2)),
        mask_octet_of(octet_bits_of(prefix_len, 3)),
    );
    proof {
        assert(m@ =~= v4_mask_octets(prefix_len));
    }
    Some(m)
}

/// The IPv4 entries of a prefix list, in list order; entries of other
/// families do not count.
pub open spec fn v4_prefixes(s: Seq<Option<u32>>) -> Seq<u32>
    decreases s.len(),
{
    if s.len() == 0 {
        Seq::empty()
    } else {
        v4_prefixes(s.drop_last()) + (match s.last() {
            Some(w) => seq![w],
            None => Seq::empty(),
        })
    }
}

/// The position of the first occurrence of `w`, or -1 when there is none.
pub open spec fn first_index_of(vs: Seq<u32>, w: u32) -> int
    decreases vs.len(),
{
    if vs.len() == 0 {
        -1
    } else if vs[0] == w {
        0
    } else {
        let rest = first_index_of(vs.drop_first(), w);
        if rest == -1 {
            -1
        } else {
            rest + 1
        }
    }
}

/// The subnet broadcast address that an adapter's prefix list gives for
/// one unicast address.  For each IPv4 unicast address the list holds
/// three consecutive IPv4 entries — host, subnet, and subnet broadcast —
/// so the broadcast is the entry two IPv4 positions after the one equal to
/// the unicast address; absent when there is no match or the list is
/// truncated.
pub open spec fn spec_v4_broadcast(prefixes: Seq<Option<u32>>, unicast: u32) -> Option<u32> {
    let vs = v4_prefixes(prefixes);
    let i = first_index_of(vs, unicast);
    if i >= 0 && i + 2 < vs.len() {
        Some(vs[i + 2])
    } else {
        None
    }
}

proof fn lemma_first_index_found(vs: Seq<u32>, w: u32, j: int)
    requires
        0 <= j < vs.len(),
        vs[j] == w,
        forall|k: int| 0 <= k < j ==> vs[k] != w,
    ensures
        first_index_of(vs, w) == j,
    decreases j,
{
    if j > 0 {
        lemma_first_index_found(vs.drop_first(), w, j - 1);
    }
}

proof fn lemma_first_index_absent(vs: Seq<u32>, w: u32)
    requires
        forall|k: int| 0 <= k < vs.len() ==> vs[k] != w,
    ensures
        first_index_of(vs, w) == -1,
    decreases vs.len(),
{
    if vs.len() > 0 {
        lemma_first_index_absent(vs.drop_first(), w);
    }
}

/// Searches an adapter's prefix list for the subnet broadcast address of
/// one IPv4 unicast address, as [`spec_v4_broadcast`] says.  Each entry of
/// `prefixes` is the raw address word of one prefix when it is an IPv4
/// entry, and absent otherwise.
pub fn lookup_ipv4_broadcast_addr(prefixes: &Vec<Option<u32>>, unicast: u32) -> (r: Option<u32>)
    ensures
        r == spec_v4_broadcast(prefixes@, unicast),
{
    let mut vs: Vec<u32> = Vec::new();
    let n = prefixes.len();
    let mut i: usize = 0;
    proof {
        assert(prefixes@.take(0int) =~= Seq::<Option<u32>>::empty());
    }
    while i < n
        invariant
            n == prefixes@.len(),
            i <= n,
            vs@ == v4_prefixes(prefixes@.take(i as int)),
        decreases n - i,
    {
        proof {
            assert(prefixes@.take(i + 1).drop_last() =~= prefixes@.take(i as int));
            assert(prefixes@.take(i + 1).last() == prefixes@[i as int]);
        }
        let ghost before = vs@;
        match prefixes[i] {
            Some(w) => {
                vs.push(w);
                proof {
                    assert(vs@ =~= before + seq![w]);
                }
            },
            None => {
                proof {
                    assert(vs@ =~= before + Seq::<u32>::empty());
                }
            },
        }
        i += 1;
    }
    proof {
        assert(prefixes@.take(n as int) =~= prefixes@);
    }

    let total = vs.len();
    let mut j: usize = 0;
    while j < total
        invariant
            total == vs@.len(),
            j <= total,
            vs@ == v4_prefixes(prefixes@),
            forall|k: int| 0 <= k < j ==> vs@[k] != unicast,
        decreases total - j,
    {
        if vs[j] == unicast {
            proof {
                lemma_first_index_found(vs@, unicast, j as int);
            }
            if total - j > 2 {
                return Some(vs[j + 2]);
            } else {
                return None;
            }
        }
        j += 1;
    }
    proof {
        lemma_first_index_absent(vs@, unicast);
    }
    None
}

/// The physical-address bytes that become the adapter's MAC text: the
/// first `length` bytes, capped at the buffer's length.
pub open spec fn adapter_mac_take(bytes: Seq<u8>, length: u8) -> Seq<u8> {
    if length > bytes.len() {
        bytes
    } else {
        bytes.take(length as int)
    }
}

/// The MAC text of one adapter: absent when the platform reports a
/// physical-address length of zero, otherwise the reported bytes as
/// uppercase colon-separated hexadecimal.
pub fn make_mac_address(bytes: &Vec<u8>, length: u8) -> (r: Option<String>)
    ensures
        length == 0 ==> r is None,
        length > 0 ==> (r matches Some(s) && s@ == hex_colon(
            adapter_mac_take(bytes@, length),
            true,
        )),
{
    if length == 0 {
        return None;
    }
    let take_n: usize = if (length as usize) > bytes.len() {
        bytes.len()
    } else {
        length as usize
    };
    let head = vstd::slice::slice_subrange(bytes.as_slice(), 0, take_n);
    proof {
        assert(head@ =~= adapter_mac_take(bytes@, length));
    }
    Some(hex_colon_text(head, true))
}

/// What the adapter-listing call reported for one attempt: success, a
/// buffer too small for the adapter information (with the size the call
/// says is required and its raw code), or any other failure code.
#[derive(Debug, Clone, Copy)]
pub enum AdaptersCallStatus {
    Success,
    BufferTooSmall { required: u32, code: i32 },
    OtherFailure(i32),
}

/// What the enumeration loop does after one attempt: use the filled
/// buffer, retry with a larger one, or give up.
#[derive(Debug)]
pub enum RetryDecision {
    Done,
    RetryWith(u32),
    Fail(Error),
}

/// The decision after one call of the adapter-listing routine into a
/// caller-allocated buffer.  Success ends the loop; a too-small buffer is
/// retried with the size the call reported as required, at most
/// `max_tries` times in all; exhausting the bound, or any other failure,
/// is fatal with the call's name and raw code.
pub fn adapters_retry_decision(status: AdaptersCallStatus, attempt: u32, max_tries: u32) -> (r:
    RetryDecision)
    ensures
        status is Success ==> r is Done,
        status matches AdaptersCallStatus::BufferTooSmall { required, code } ==> {
            &&& attempt < max_tries ==> (r matches RetryDecision::RetryWith(size) && size
                == required)
            &&& attempt >= max_tries ==> (r matches RetryDecision::Fail(e) && e@ matches
                ErrorModel::GetIfAddrs(call, c) && call == "GetAdaptersAddresses"@ && c == code)
        },
        status matches AdaptersCallStatus::OtherFailure(code) ==> (r matches RetryDecision::Fail(e)
            && e@ matches ErrorModel::GetIfAddrs(call, c) && call == "GetAdaptersAddresses"@ && c
            == code),
{
    match status {
        AdaptersCallStatus::Success => RetryDecision::Done,
        AdaptersCallStatus::BufferTooSmall { required, code } => {
            if attempt < max_tries {
                RetryDecision::RetryWith(required)
            } else {
                RetryDecision::Fail(
                    Error::GetIfAddrsError("GetAdaptersAddresses".to_owned(), code),
                )
            }
        },
        AdaptersCallStatus::OtherFailure(code) => RetryDecision::Fail(
            Error::GetIfAddrsError("GetAdaptersAddresses".to_owned(), code),
        ),
    }
}

/// What `String::from_utf16` decodes a unit sequence to, when the units
/// are well-formed UTF-16; the result depends on the units alone.
pub uninterp spec fn utf16_chars(units: Seq<u16>) -> Option<Seq<char>>;

/// Relies on `String::from_utf16`: per its documentation it returns `Ok`
/// exactly when the units are well-formed UTF-16, decoding them; the
/// result is a function of the units alone.
#[verifier::external_body]
fn string_from_utf16(units: &Vec<u16>) -> (r: Option<String>)
    ensures
        r is Some <==> utf16_chars(units@) is Some,
        r matches Some(s) ==> utf16_chars(units@) == Some(s@),
{
    String::from_utf16(units.as_slice()).ok()
}

/// A copy of a unit vector with the same contents.
fn clone_units(units: &Vec<u16>) -> (r: Vec<u16>)
    ensures
        r@ == units@,
{
    let r = units.clone();
    proof {
        assert(r@ =~= units@);
    }
    r
}

/// Resolves an adapter's name: its UTF-16 units decoded.  Units that are
/// not well-formed text abort the enumeration pass, so the failure
/// carries the offending units.
pub fn make_adapter_address_name(units: &Vec<u16>) -> (r: Result<String, Error>)
    ensures
        r is Ok <==> utf16_chars(units@) is Some,
        r matches Ok(s) ==> utf16_chars(units@) == Some(s@),
        r matches Err(e) ==> e@ == ErrorModel::ParseUtf16(units@),
{
    match string_from_utf16(units) {
        Some(s) => Ok(s),
        None => Err(Error::ParseUtf16Error(clone_units(units))),
    }
}

/// One unicast address of an adapter, as read from its nested list.
#[derive(Debug, Clone, Copy)]
pub enum UnicastRecord {
    /// An INET address: the raw 32-bit word as this host read it, and the
    /// on-link prefix length that names its netmask.
    V4 { addr: u32, prefix_len: u8 },
    /// An INET6 address as its 16 octets; the adapter-list flavor leaves
    /// its broadcast and netmask absent.
    V6 { addr: [u8; 16] },
    /// An address of any other family; it contributes nothing.
    Other,
}

/// One adapter node of the platform's adapter list, as plain values.
#[derive(Debug)]
pub struct AdapterRecord {
    /// The adapter's friendly name, as UTF-16 units (without the NUL).
    pub name_units: Vec<u16>,
    /// The adapter's interface index, or the raw code of the failed
    /// identifier-to-index conversion.
    pub index: Result<u32, u32>,
    /// The physical-address buffer.
    pub physical: Vec<u8>,
    /// The physical-address length the platform reported (0 when absent).
    pub physical_len: u8,
    /// The nested unicast-address list, in list order.
    pub unicast: Vec<UnicastRecord>,
    /// The adapter's prefix list: the raw word of each IPv4 entry, in
    /// list order, with other families absent.
    pub prefixes: Vec<Option<u32>>,
}

/// The address model one unicast record contributes, against its
/// adapter's prefix list; records of other families contribute none.
pub open spec fn unicast_model(
    u: UnicastRecord,
    prefixes: Seq<Option<u32>>,
    big_endian: bool,
) -> Option<AddrModel> {
    match u {
        UnicastRecord::V4 { addr, prefix_len } => Some(
            AddrModel::V4(
                V4Model {
                    ip: v4_octets(addr, big_endian),
                    broadcast: match spec_v4_broadcast(prefixes, addr) {
                        Some(w) => Some(v4_octets(w, big_endian)),
                        None => None,
                    },
                    netmask: if prefix_len <= 32 {
                        Some(v4_mask_octets(prefix_len))
                    } else {
                        None
                    },
                },
            ),
        ),
        UnicastRecord::V6 { addr } => Some(
            AddrModel::V6(V6Model { ip: addr@, broadcast: None, netmask: None }),
        ),
        UnicastRecord::Other => None,
    }
}

/// The addresses an adapter's unicast list contributes, in list order.
pub open spec fn adapter_addrs(
    unicast: Seq<UnicastRecord>,
    prefixes: Seq<Option<u32>>,
    big_endian: bool,
) -> Seq<AddrModel>
    decreases unicast.len(),
{
    if unicast.len() == 0 {
        Seq::empty()
    } else {
        adapter_addrs(unicast.drop_last(), prefixes, big_endian) + (match unicast_model(
            unicast.last(),
            prefixes,
            big_endian,
        ) {
            Some(m) => seq![m],
            None => Seq::empty(),
        })
    }
}

/// Why one adapter aborts the pass, if it does: its name units are not
/// well-formed text, or its identifier-to-index conversion failed.  The
/// name is resolved first, as the enumeration does.
pub open spec fn adapter_error(a: AdapterRecord) -> Option<ErrorModel> {
    if utf16_chars(a.name_units@) is None {
        Some(ErrorModel::ParseUtf16(a.name_units@))
    } else {
        match a.index {
            Ok(_) => None,
            Err(code) => Some(ErrorModel::GetIfName("ConvertInterfaceLuidToIndex"@, code)),
        }
    }
}

/// The interface entry one well-named, well-indexed adapter becomes.
pub open spec fn adapter_model(a: AdapterRecord, big_endian: bool) -> IfaceModel {
    IfaceModel {
        name: match utf16_chars(a.name_units@) {
            Some(cs) => cs,
            None => Seq::empty(),
        },
        addrs: adapter_addrs(a.unicast@, a.prefixes@, big_endian),
        mac_addr: if a.physical_len == 0 {
            None
        } else {
            Some(hex_colon(adapter_mac_take(a.physical@, a.physical_len), true))
        },
        index: match a.index {
            Ok(i) => i,
            Err(_) => 0,
        },
    }
}

/// What one pass over the adapter list returns: one interface entry per
/// adapter, in list order, or the first error met.  Adapters merge
/// nothing: the platform already yields one node per adapter, with its
/// addresses nested.
pub open spec fn spec_build_adapters(adapters: Seq<AdapterRecord>, big_endian: bool) -> Result<
    Seq<IfaceModel>,
    ErrorModel,
>
    decreases adapters.len(),
{
    if adapters.len() == 0 {
        Ok(Seq::empty())
    } else {
        match spec_build_adapters(adapters.drop_last(), big_endian) {
            Err(e) => Err(e),
            Ok(s) => match adapter_error(adapters.last()) {
                Some(e) => Err(e),
                None => Ok(s.push(adapter_model(adapters.last(), big_endian))),
            },
        }
    }
}

/// Once a prefix of the adapter list has failed, the whole list fails
/// with the same error.
proof fn lemma_adapters_error_persists(adapters: Seq<AdapterRecord>, big_endian: bool, i: int)
    requires
        0 <= i <= adapters.len(),
        spec_build_adapters(adapters.take(i), big_endian) is Err,
    ensures
        spec_build_adapters(adapters, big_endian) == spec_build_adapters(
            adapters.take(i),
            big_endian,
        ),
    decreases adapters.len() - i,
{
    if i < adapters.len() {
        assert(adapters.take(i + 1).drop_last() =~= adapters.take(i));
        lemma_adapters_error_persists(adapters, big_endian, i + 1);
    } else {
        assert(adapters.take(i) =~= adapters);
    }
}

/// The models of a list of addresses, in order.
pub open spec fn addr_views(s: Seq<Addr>) -> Seq<AddrModel> {
    Seq::new(s.len(), |i: int| s[i]@)
}

/// The addresses of one adapter, as [`adapter_addrs`] says.
fn build_adapter_addrs(a: &AdapterRecord, big_endian: bool) -> (r: Vec<Addr>)
    ensures
        addr_views(r@) == adapter_addrs(a.unicast@, a.prefixes@, big_endian),
{
    let mut addrs: Vec<Addr> = Vec::new();
    let n = a.unicast.len();
    let mut k: usize = 0;
    proof {
        assert(a.unicast@.take(0int) =~= Seq::<UnicastRecord>::empty());
        assert(addr_views(addrs@) =~= adapter_addrs(
            a.unicast@.take(0int),
            a.prefixes@,
            big_endian,
        ));
    }
    while k < n
        invariant
            n == a.unicast@.len(),
            k <= n,
            addr_views(addrs@) == adapter_addrs(a.unicast@.take(k as int), a.prefixes@, big_endian),
        decreases n - k,
    {
        proof {
            assert(a.unicast@.take(k + 1).drop_last() =~= a.unicast@.take(k as int));
            assert(a.unicast@.take(k + 1).last() == a.unicast@[k as int]);
        }
        let ghost before = addr_views(addrs@);
        match &a.unicast[k] {
            UnicastRecord::V4 { addr, prefix_len } => {
                let ip = ipv4_from_raw(*addr, big_endian);
                let bc: Option<Ipv4Addr> = match lookup_ipv4_broadcast_addr(&a.prefixes, *addr) {
                    Some(w) => Some(ipv4_from_raw(w, big_endian)),
                    None => None,
                };
                let nm = length_to_ipv4_mask(*prefix_len);
                let entry = Addr::V4(V4IfAddr { ip, broadcast: bc, netmask: nm });
                proof {
                    assert(Some(entry@) == unicast_model(
                        a.unicast@[k as int],
                        a.prefixes@,
                        big_endian,
                    ));
                }
                addrs.push(entry);
                proof {
                    assert(addr_views(addrs@) =~= before + seq![entry@]);
                }
            },
            UnicastRecord::V6 { addr } => {
                let entry = Addr::V6(
                    V6IfAddr { ip: ipv6_from_raw(*addr), broadcast: None, netmask: None },
                );
                proof {
                    assert(Some(entry@) == unicast_model(
                        a.unicast@[k as int],
                        a.prefixes@,
                        big_endian,
                    ));
                }
                addrs.push(entry);
                proof {
                    assert(addr_views(addrs@) =~= before + seq![entry@]);
                }
            },
            UnicastRecord::Other => {
                proof {
                    assert(addr_views(addrs@) =~= before + Seq::<AddrModel>::empty());
                }
            },
        }
        k += 1;
    }
    proof {
        assert(a.unicast@.take(n as int) =~= a.unicast@);
    }
    addrs
}

/// Builds the interface list that the adapter list describes, as
/// [`spec_build_adapters`] says: one entry per adapter carrying its
/// decoded name, resolved index, MAC text and normalized addresses, with
/// the first ill-named or ill-indexed adapter aborting the pass.
pub fn build_adapter_interfaces(adapters: &Vec<AdapterRecord>, big_endian: bool) -> (r: Result<
    Vec<NetworkInterface>,
    Error,
>)
    ensures
        spec_build_adapters(adapters@, big_endian) matches Ok(m) ==> (r matches Ok(v)
            && iface_views(v@) == m),
        spec_build_adapters(adapters@, big_endian) matches Err(em) ==> (r matches Err(e) && e@
            == em),
{
    let mut out: Vec<NetworkInterface> = Vec::new();
    let n = adapters.len();
    let mut i: usize = 0;
    proof {
        assert(adapters@.take(0int) =~= Seq::<AdapterRecord>::empty());
        assert(iface_views(out@) =~= Seq::<IfaceModel>::empty());
    }
    while i < n
        invariant
            n == adapters@.len(),
            i <= n,
            spec_build_adapters(adapters@.take(i as int), big_endian) matches Ok(m) && m
                == iface_views(out@),
        decreases n - i,
    {
        proof {
            assert(adapters@.take(i + 1).drop_last() =~= adapters@.take(i as int));
            assert(adapters@.take(i + 1).last() == adapters@[i as int]);
        }
        let a = &adapters[i];
        let name = match make_adapter_address_name(&a.name_units) {
            Ok(s) => s,
            Err(e) => {
                proof {
                    lemma_adapters_error_persists(adapters@, big_endian, i + 1);
                }
                return Err(e);
            },
        };
        let index = match a.index {
            Ok(ix) => ix,
            Err(code) => {
                proof {
                    lemma_adapters_error_persists(adapters@, big_endian, i + 1);
                }
                return Err(
                    Error::GetIfNameError("ConvertInterfaceLuidToIndex".to_owned(), code),
                );
            },
        };
        let mac_addr = make_mac_address(&a.physical, a.physical_len);
        let addr = build_adapter_addrs(a, big_endian);
        let entry = NetworkInterface { name, addr, mac_addr, index };
        proof {
            assert(entry@.addrs =~= adapter_addrs(a.unicast@, a.prefixes@, big_endian));
            assert(entry@ == adapter_model(adapters@[i as int], big_endian));
        }
        out.push(entry);
        proof {
            assert(iface_views(out@) =~= spec_build_adapters(
                adapters@.take(i + 1),
                big_endian,
            )->Ok_0);
        }
        i += 1;
    }
    proof {
        assert(adapters@.take(n as int) =~= adapters@);
    }
    Ok(out)
}

} // verus!
