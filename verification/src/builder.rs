//! The interface builder: the dispatch and merge pass over a raw record
//! stream.
//!
//! Each record is classified by address family.  INET and INET6 records
//! contribute one address each, merged into an accumulating list keyed by
//! interface name; link-family records contribute a `name -> MAC` binding
//! to a side mapping that a second pass merges in, since link-family
//! records may be interleaved with address records in any order.  A record
//! whose primary address pointer was null contributes nothing.
//!
//! The whole pass is specified by [`spec_build`], a function from the raw
//! record sequence to the resulting interface models, and
//! [`build_interfaces`] is proved to return exactly that.

use vstd::prelude::*;

use vstd::utf8::{decode_utf8, valid_utf8};

use crate::addr::Ipv4Addr;
use crate::convert::{
    ipv4_from_raw, ipv6_from_raw, is_link_local_v6, make_ipv4_netmask, make_ipv6_netmask,
    v4_octets,
};
use crate::error::{Error, ErrorModel};
use crate::hex::{hex_colon, hex_colon_text};
use crate::interface::{
    opt_view, Addr, AddrModel, IfaceModel, NetworkInterface, V4IfAddr, V4Model, V6IfAddr, V6Model,
};
use crate::record::{make_netifa_name, Platform, RawData, RawRecord};

verus! {

/// The models of a list of interface entries, in order.
pub open spec fn iface_views(s: Seq<NetworkInterface>) -> Seq<IfaceModel> {
    Seq::new(s.len(), |i: int| s[i]@)
}

/// The side mapping that a list of `name -> MAC` bindings denotes; a later
/// binding for the same name wins.
pub open spec fn assoc_map(pairs: Seq<(String, String)>) -> Map<Seq<char>, Seq<char>>
    decreases pairs.len(),
{
    if pairs.len() == 0 {
        Map::empty()
    } else {
        assoc_map(pairs.drop_last()).insert(pairs.last().0@, pairs.last().1@)
    }
}

/// The accumulating state of one enumeration pass: the interfaces built so
/// far, in first-seen order, and the side mapping of MAC bindings.
pub struct BuildState {
    pub ifaces: Seq<IfaceModel>,
    pub macs: Map<Seq<char>, Seq<char>>,
}

/// The state before any record is processed.
pub open spec fn initial_state() -> BuildState {
    BuildState { ifaces: Seq::empty(), macs: Map::empty() }
}

/// The position of the entry named `name`, or -1 when there is none.
pub open spec fn index_of_name(s: Seq<IfaceModel>, name: Seq<char>) -> int
    decreases s.len(),
{
    if s.len() == 0 {
        -1
    } else if s[0].name == name {
        0
    } else {
        let rest = index_of_name(s.drop_first(), name);
        if rest == -1 {
            -1
        } else {
            rest + 1
        }
    }
}

/// The bytes of a link-layer record that become the MAC text: the first
/// `addr_len` bytes, capped at six and at the buffer's length.
pub open spec fn link_mac_take(bytes: Seq<u8>, addr_len: u8) -> Seq<u8> {
    let limit: int = if addr_len < 6 {
        addr_len as int
    } else {
        6
    };
    let n: int = if limit > bytes.len() {
        bytes.len() as int
    } else {
        limit
    };
    bytes.take(n)
}

/// The MAC text of a link-layer record: lowercase colon-separated
/// hexadecimal of the taken bytes.
pub open spec fn link_mac_text(bytes: Seq<u8>, addr_len: u8) -> Seq<char> {
    hex_colon(link_mac_take(bytes, addr_len), false)
}

/// The address model an INET record contributes.
pub open spec fn v4_model_of(
    addr: u32,
    netmask: Option<u32>,
    broadcast: Option<u32>,
    big_endian: bool,
) -> AddrModel {
    AddrModel::V4(
        V4Model {
            ip: v4_octets(addr, big_endian),
            broadcast: match broadcast {
                Some(w) => Some(v4_octets(w, big_endian)),
                None => None,
            },
            netmask: match netmask {
                Some(w) => Some(v4_octets(w, big_endian)),
                None => None,
            },
        },
    )
}

/// The address model an INET6 record contributes.  Under the Apple/BSD
/// policy a link-local (`fe80::`) netmask is suppressed.
pub open spec fn v6_model_of(
    addr: Seq<u8>,
    netmask: Option<Seq<u8>>,
    broadcast: Option<Seq<u8>>,
    suppress_link_local: bool,
) -> AddrModel {
    AddrModel::V6(
        V6Model {
            ip: addr,
            broadcast,
            netmask: match netmask {
                Some(m) => if suppress_link_local && is_link_local_v6(m) {
                    None
                } else {
                    Some(m)
                },
                None => None,
            },
        },
    )
}

/// Merges one address into the accumulating list: a new name is appended
/// as a fresh entry, an existing name has the address appended to its
/// list.  An existing entry keeps its original index.
pub open spec fn merge_addr(
    ifaces: Seq<IfaceModel>,
    name: Seq<char>,
    a: AddrModel,
    index: u32,
) -> Seq<IfaceModel> {
    let j = index_of_name(ifaces, name);
    if j == -1 {
        ifaces.push(IfaceModel { name, addrs: seq![a], mac_addr: None, index })
    } else {
        ifaces.update(
            j,
            IfaceModel {
                name: ifaces[j].name,
                addrs: ifaces[j].addrs.push(a),
                mac_addr: ifaces[j].mac_addr,
                index: ifaces[j].index,
            },
        )
    }
}

/// What one raw record does to the accumulating state.
///
/// A record with a null primary address pointer, or of an unrecognized
/// family, changes nothing.  Any other record has its name resolved first;
/// name bytes that are not valid UTF-8 abort the pass.  A link-family
/// record binds its name to the formatted MAC text; INET and INET6
/// records merge one address.
pub open spec fn build_step(
    st: BuildState,
    r: RawRecord,
    platform: Platform,
    big_endian: bool,
) -> Result<BuildState, ErrorModel> {
    match r.data {
        None => Ok(st),
        Some(RawData::Other) => Ok(st),
        Some(RawData::Link { bytes, addr_len }) => if !valid_utf8(r.name@) {
            Err(ErrorModel::ParseUtf8(r.name@))
        } else {
            Ok(
                BuildState {
                    ifaces: st.ifaces,
                    macs: st.macs.insert(decode_utf8(r.name@), link_mac_text(bytes@, addr_len)),
                },
            )
        },
        Some(RawData::Inet { addr, netmask, broadcast }) => if !valid_utf8(r.name@) {
            Err(ErrorModel::ParseUtf8(r.name@))
        } else {
            Ok(
                BuildState {
                    ifaces: merge_addr(
                        st.ifaces,
                        decode_utf8(r.name@),
                        v4_model_of(addr, netmask, broadcast, big_endian),
                        r.index,
                    ),
                    macs: st.macs,
                },
            )
        },
        Some(RawData::Inet6 { addr, netmask, broadcast }) => if !valid_utf8(r.name@) {
            Err(ErrorModel::ParseUtf8(r.name@))
        } else {
            Ok(
                BuildState {
                    ifaces: merge_addr(
                        st.ifaces,
                        decode_utf8(r.name@),
                        v6_model_of(addr@, opt_view(netmask), opt_view(broadcast), platform is Bsd),
                        r.index,
                    ),
                    macs: st.macs,
                },
            )
        },
    }
}

/// The state after processing a record sequence in order, or the first
/// error met.
pub open spec fn build_fold(
    records: Seq<RawRecord>,
    platform: Platform,
    big_endian: bool,
) -> Result<BuildState, ErrorModel>
    decreases records.len(),
{
    if records.len() == 0 {
        Ok(initial_state())
    } else {
        match build_fold(records.drop_last(), platform, big_endian) {
            Ok(st) => build_step(st, records.last(), platform, big_endian),
            Err(e) => Err(e),
        }
    }
}

/// The second pass: every interface whose name has a binding in the side
/// mapping gets that MAC text; the others keep none.
pub open spec fn apply_macs(
    ifaces: Seq<IfaceModel>,
    macs: Map<Seq<char>, Seq<char>>,
) -> Seq<IfaceModel> {
    Seq::new(
        ifaces.len(),
        |i: int|
            IfaceModel {
                name: ifaces[i].name,
                addrs: ifaces[i].addrs,
                mac_addr: if macs.contains_key(ifaces[i].name) {
                    Some(macs[ifaces[i].name])
                } else {
                    None
                },
                index: ifaces[i].index,
            },
    )
}

/// What one enumeration pass over `records` returns: the interfaces in
/// first-seen order with their MAC bindings applied, or the first error.
pub open spec fn spec_build(
    records: Seq<RawRecord>,
    platform: Platform,
    big_endian: bool,
) -> Result<Seq<IfaceModel>, ErrorModel> {
    match build_fold(records, platform, big_endian) {
        Ok(st) => Ok(apply_macs(st.ifaces, st.macs)),
        Err(e) => Err(e),
    }
}

/// What [`index_of_name`] returns: -1 exactly when no entry has the name,
/// otherwise the position of the first entry that does.
pub(crate) proof fn lemma_index_of_name_spec(s: Seq<IfaceModel>, name: Seq<char>)
    ensures
        index_of_name(s, name) == -1 ==> (forall|k: int| 0 <= k < s.len() ==> s[k].name != name),
        index_of_name(s, name) != -1 ==> {
            let j = index_of_name(s, name);
            &&& 0 <= j < s.len()
            &&& s[j].name == name
            &&& forall|k: int| 0 <= k < j ==> s[k].name != name
        },
    decreases s.len(),
{
    if s.len() > 0 && s[0].name != name {
        lemma_index_of_name_spec(s.drop_first(), name);
        let rest = index_of_name(s.drop_first(), name);
        if rest != -1 {
            assert(s[rest + 1].name == name);
            assert forall|k: int| 0 <= k < rest + 1 implies s[k].name != name by {
                if k > 0 {
                    assert(s.drop_first()[k - 1].name != name);
                }
            }
        } else {
            assert forall|k: int| 0 <= k < s.len() implies s[k].name != name by {
                if k > 0 {
                    assert(s.drop_first()[k - 1].name != name);
                }
            }
        }
    }
}

proof fn lemma_index_of_name_found(s: Seq<IfaceModel>, name: Seq<char>, j: int)
    requires
        0 <= j < s.len(),
        s[j].name == name,
        forall|k: int| 0 <= k < j ==> s[k].name != name,
    ensures
        index_of_name(s, name) == j,
    decreases j,
{
    if j > 0 {
        lemma_index_of_name_found(s.drop_first(), name, j - 1);
    }
}

proof fn lemma_index_of_name_absent(s: Seq<IfaceModel>, name: Seq<char>)
    requires
        forall|k: int| 0 <= k < s.len() ==> s[k].name != name,
    ensures
        index_of_name(s, name) == -1,
    decreases s.len(),
{
    if s.len() > 0 {
        lemma_index_of_name_absent(s.drop_first(), name);
    }
}

/// Once a prefix of the record stream has failed, the whole stream fails
/// with the same error.
proof fn lemma_fold_error_persists(
    records: Seq<RawRecord>,
    platform: Platform,
    big_endian: bool,
    i: int,
)
    requires
        0 <= i <= records.len(),
        build_fold(records.take(i), platform, big_endian) is Err,
    ensures
        build_fold(records, platform, big_endian) == build_fold(
            records.take(i),
            platform,
            big_endian,
        ),
    decreases records.len() - i,
{
    if i < records.len() {
        assert(records.take(i + 1).drop_last() =~= records.take(i));
        lemma_fold_error_persists(records, platform, big_endian, i + 1);
    } else {
        assert(records.take(i) =~= records);
    }
}

/// Appends `a` to the entry named `name`, or appends a fresh entry when no
/// entry has that name.
#[verifier::rlimit(30)]
fn merge_push(ifaces: &mut Vec<NetworkInterface>, name: String, a: Addr, index: u32)
    ensures
        iface_views(final(ifaces)@) == merge_addr(iface_views(old(ifaces)@), name@, a@, index),
{
    let n = ifaces.len();
    let mut j: usize = 0;
    while j < n
        invariant
            n == ifaces@.len(),
            j <= n,
            ifaces@ == old(ifaces)@,
            forall|k: int| 0 <= k < j ==> iface_views(ifaces@)[k].name != name@,
        decreases n - j,
    {
        if ifaces[j].name == name {
            let ghost snap = ifaces@;
            let ghost views0 = iface_views(snap);
            proof {
                assert(views0.len() == n);
                assert(views0[j as int] == snap[j as int]@);
                lemma_index_of_name_found(views0, name@, j as int);
            }
            let mut entry = ifaces.remove(j);
            let ghost entry_view = entry@;
            entry.addr.push(a);
            ifaces.insert(j, entry);
            proof {
                snap.remove_ensures(j as int);
                snap.remove(j as int).insert_ensures(j as int, entry);
                assert(ifaces@ == snap.remove(j as int).insert(j as int, entry));
                assert(entry_view == views0[j as int]);
                assert(entry@.addrs =~= entry_view.addrs.push(a@));
                assert(entry@ == (IfaceModel {
                    name: views0[j as int].name,
                    addrs: views0[j as int].addrs.push(a@),
                    mac_addr: views0[j as int].mac_addr,
                    index: views0[j as int].index,
                }));
                assert(iface_views(ifaces@) =~= merge_addr(views0, name@, a@, index));
                assert(views0 == iface_views(old(ifaces)@));
            }
            return ;
        }
        j += 1;
    }
    let ghost views0 = iface_views(ifaces@);
    proof {
        lemma_index_of_name_absent(views0, name@);
    }
    ifaces.push(NetworkInterface { name, addr: vec![a], mac_addr: None, index });
    proof {
        assert(ifaces@.last()@.addrs =~= seq![a@]);
        assert(iface_views(ifaces@) =~= merge_addr(views0, name@, a@, index));
    }
}

/// The MAC text bound to `name`, when the side mapping has one; a later
/// binding wins, as the mapping's model says.
fn lookup_mac(macs: &Vec<(String, String)>, name: &String) -> (r: Option<String>)
    ensures
        assoc_map(macs@).contains_key(name@) ==> (r matches Some(m) && m@ == assoc_map(
            macs@,
        )[name@]),
        !assoc_map(macs@).contains_key(name@) ==> r is None,
{
    let mut j: usize = macs.len();
    proof {
        assert(macs@.take(macs@.len() as int) =~= macs@);
    }
    while j > 0
        invariant
            j <= macs@.len(),
            assoc_map(macs@).contains_key(name@) <==> assoc_map(macs@.take(j as int)).contains_key(
                name@,
            ),
            assoc_map(macs@).contains_key(name@) ==> assoc_map(macs@)[name@] == assoc_map(
                macs@.take(j as int),
            )[name@],
        decreases j,
    {
        proof {
            assert(macs@.take(j as int).drop_last() =~= macs@.take(j - 1));
            assert(macs@.take(j as int).last() == macs@[j - 1]);
        }
        j = j - 1;
        if macs[j].0 == *name {
            return Some(macs[j].1.clone());
        }
    }
    proof {
        assert(macs@.take(0int) =~= Seq::<(String, String)>::empty());
    }
    None
}

/// Builds the interface list that the raw record stream `records`
/// describes, as [`spec_build`] says: one entry per distinct interface
/// name carrying all that name's addresses in record order, MAC bindings
/// from link-family records applied regardless of record order, and the
/// first invalid interface name aborting the pass with its error.
///
/// `platform` picks the netmask normalization policy and `big_endian`
/// says how this host reads the stored IPv4 words (see
/// [`ipv4_from_raw`]).
pub fn build_interfaces(records: &Vec<RawRecord>, platform: Platform, big_endian: bool) -> (r:
    Result<Vec<NetworkInterface>, Error>)
    ensures
        spec_build(records@, platform, big_endian) matches Ok(m) ==> (r matches Ok(v)
            && iface_views(v@) == m),
        spec_build(records@, platform, big_endian) matches Err(em) ==> (r matches Err(e) && e@
            == em),
{
    let mut ifaces: Vec<NetworkInterface> = Vec::new();
    let mut macs: Vec<(String, String)> = Vec::new();
    let n = records.len();
    let mut i: usize = 0;

    proof {
        assert(records@.take(0int) =~= Seq::<RawRecord>::empty());
        assert(iface_views(ifaces@) =~= Seq::<IfaceModel>::empty());
    }
    while i < n
        invariant
            n == records@.len(),
            i <= n,
            build_fold(records@.take(i as int), platform, big_endian) matches Ok(st) && st.ifaces
                == iface_views(ifaces@) && st.macs == assoc_map(macs@),
        decreases n - i,
    {
        let ghost prefix = records@.take(i as int);
        let ghost st = build_fold(prefix, platform, big_endian)->Ok_0;
        proof {
            assert(records@.take(i + 1).drop_last() =~= prefix);
            assert(records@.take(i + 1).last() == records@[i as int]);
        }
        let rec = &records[i];
        match &rec.data {
            None => {},
            Some(RawData::Other) => {},
            Some(RawData::Link { bytes, addr_len }) => {
                let name = match make_netifa_name(rec) {
                    Ok(s) => s,
                    Err(e) => {
                        proof {
                            lemma_fold_error_persists(records@, platform, big_endian, i + 1);
                        }
                        return Err(e);
                    },
                };
                let al = *addr_len;
                let cap: usize = if al < 6 {
                    al as usize
                } else {
                    6
                };
                let take_n: usize = if cap > bytes.len() {
                    bytes.len()
                } else {
                    cap
                };
                let head = vstd::slice::slice_subrange(bytes.as_slice(), 0, take_n);
                proof {
                    assert(head@ =~= link_mac_take(bytes@, al));
                }
                let mac = hex_colon_text(head, false);
                let ghost macs_before = macs@;
                macs.push((name, mac));
                proof {
                    assert(macs@.drop_last() =~= macs_before);
                    assert(assoc_map(macs@) == st.macs.insert(
                        decode_utf8(rec.name@),
                        link_mac_text(bytes@, al),
                    ));
                }
            },
            Some(RawData::Inet { addr, netmask, broadcast }) => {
                let name = match make_netifa_name(rec) {
                    Ok(s) => s,
                    Err(e) => {
                        proof {
                            lemma_fold_error_persists(records@, platform, big_endian, i + 1);
                        }
                        return Err(e);
                    },
                };
                let ip = ipv4_from_raw(*addr, big_endian);
                let nm = make_ipv4_netmask(*netmask, big_endian);
                let bc: Option<Ipv4Addr> = match *broadcast {
                    Some(w) => Some(ipv4_from_raw(w, big_endian)),
                    None => None,
                };
                let entry = Addr::V4(V4IfAddr { ip, broadcast: bc, netmask: nm });
                proof {
                    assert(entry@ == v4_model_of(*addr, *netmask, *broadcast, big_endian));
                }
                merge_push(&mut ifaces, name, entry, rec.index);
            },
            Some(RawData::Inet6 { addr, netmask, broadcast }) => {
                let name = match make_netifa_name(rec) {
                    Ok(s) => s,
                    Err(e) => {
                        proof {
                            lemma_fold_error_persists(records@, platform, big_endian, i + 1);
                        }
                        return Err(e);
                    },
                };
                let suppress = matches!(platform, Platform::Bsd);
                let ip = ipv6_from_raw(*addr);
                let nm = make_ipv6_netmask(*netmask, suppress);
                let bc = match *broadcast {
                    Some(o) => Some(ipv6_from_raw(o)),
                    None => None,
                };
                let entry = Addr::V6(V6IfAddr { ip, broadcast: bc, netmask: nm });
                proof {
                    assert(entry@ == v6_model_of(
                        addr@,
                        opt_view(*netmask),
                        opt_view(*broadcast),
                        platform is Bsd,
                    ));
                }
                merge_push(&mut ifaces, name, entry, rec.index);
            },
        }
        i += 1;
    }
    proof {
        assert(records@.take(n as int) =~= records@);
    }

    let ghost final_ifaces = iface_views(ifaces@);
    let ghost mac_map = assoc_map(macs@);
    let mut result: Vec<NetworkInterface> = Vec::new();
    let total = ifaces.len();
    let mut k: usize = 0;
    while k < total
        invariant
            total == final_ifaces.len(),
            k <= total,
            ifaces@.len() == total - k,
            forall|m: int| 0 <= m < total - k ==> #[trigger] ifaces@[m]@ == final_ifaces[k + m],
            result@.len() == k,
            forall|m: int|
                0 <= m < k ==> #[trigger] result@[m]@ == apply_macs(final_ifaces, mac_map)[m],
            assoc_map(macs@) == mac_map,
        decreases total - k,
    {
        let ghost remaining = ifaces@;
        let entry = ifaces.remove(0);
        proof {
            remaining.remove_ensures(0int);
            assert(entry@ == final_ifaces[k as int]);
            assert forall|m: int| 0 <= m < total - (k + 1) implies #[trigger] ifaces@[m]@
                == final_ifaces[k + 1 + m] by {
                assert(ifaces@[m] == remaining[m + 1]);
            }
        }
        let mac = lookup_mac(&macs, &entry.name);
        let ghost entry_view = entry@;
        let entry = entry.with_mac_addr(mac);
        proof {
            assert(entry@.addrs =~= entry_view.addrs);
            assert(entry@ == apply_macs(final_ifaces, mac_map)[k as int]);
        }
        result.push(entry);
        k += 1;
    }
    proof {
        assert(iface_views(result@) =~= apply_macs(final_ifaces, mac_map));
    }
    Ok(result)
}

} // verus!
