//! Guarantees of the interface builder, stated over its specification and
//! proved once and for all.

use vstd::prelude::*;

use vstd::utf8::{decode_utf8, valid_utf8};

use crate::builder::{
    apply_macs, build_fold, build_step, index_of_name, initial_state, lemma_index_of_name_spec,
    link_mac_text, merge_addr, spec_build, v4_model_of, v6_model_of, BuildState,
};
use crate::error::ErrorModel;
use crate::interface::{opt_view, AddrModel, IfaceModel};
use crate::record::{Platform, RawData, RawRecord};

verus! {

/// A record that contributes an address: one whose primary address
/// pointer was non-null and whose family is INET or INET6.
pub open spec fn is_address_record(r: RawRecord) -> bool {
    match r.data {
        Some(RawData::Inet { .. }) => true,
        Some(RawData::Inet6 { .. }) => true,
        _ => false,
    }
}

/// The MAC text a link-family record contributes (empty for any other).
pub open spec fn record_mac_text(r: RawRecord) -> Seq<char> {
    match r.data {
        Some(RawData::Link { bytes, addr_len }) => link_mac_text(bytes@, addr_len),
        _ => Seq::empty(),
    }
}

/// An address model is well-typed: a V4 entry carries four octets in
/// every field it has, a V6 entry sixteen.
pub open spec fn addr_model_wf(a: AddrModel) -> bool {
    match a {
        AddrModel::V4(m) => {
            &&& m.ip.len() == 4
            &&& (m.broadcast matches Some(b) ==> b.len() == 4)
            &&& (m.netmask matches Some(x) ==> x.len() == 4)
        },
        AddrModel::V6(m) => {
            &&& m.ip.len() == 16
            &&& (m.broadcast matches Some(b) ==> b.len() == 16)
            &&& (m.netmask matches Some(x) ==> x.len() == 16)
        },
    }
}

/// No two entries share a name.
pub open spec fn names_distinct(s: Seq<IfaceModel>) -> bool {
    forall|j: int, k: int| 0 <= j < k < s.len() ==> s[j].name != s[k].name
}

/// `name` is the decoding of some record's name bytes.
pub open spec fn name_from_records(name: Seq<char>, records: Seq<RawRecord>) -> bool {
    exists|i: int|
        0 <= i < records.len() && valid_utf8((#[trigger] records[i]).name@) && name == decode_utf8(
            records[i].name@,
        )
}

/// Decoding nonempty valid UTF-8 yields at least one character.
proof fn lemma_decode_utf8_nonempty(bytes: Seq<u8>)
    requires
        valid_utf8(bytes),
        bytes.len() > 0,
    ensures
        decode_utf8(bytes).len() > 0,
{
}

/// Merging one well-typed address into a well-formed accumulator keeps it
/// well-formed, adds no second entry for an existing name, and introduces
/// at most the merged name.
proof fn lemma_merge_wf(ifaces: Seq<IfaceModel>, name: Seq<char>, a: AddrModel, index: u32)
    requires
        names_distinct(ifaces),
        addr_model_wf(a),
        forall|j: int| 0 <= j < ifaces.len() ==> (#[trigger] ifaces[j]).addrs.len() > 0,
        forall|j: int, m: int|
            0 <= j < ifaces.len() && 0 <= m < ifaces[j].addrs.len() ==> addr_model_wf(
                #[trigger] ifaces[j].addrs[m],
            ),
        forall|j: int| 0 <= j < ifaces.len() ==> (#[trigger] ifaces[j]).mac_addr is None,
    ensures
        ({
            let out = merge_addr(ifaces, name, a, index);
            &&& ifaces.len() <= out.len() <= ifaces.len() + 1
            &&& out.len() >= 1
            &&& names_distinct(out)
            &&& forall|j: int| 0 <= j < out.len() ==> (#[trigger] out[j]).addrs.len() > 0
            &&& forall|j: int, m: int|
                0 <= j < out.len() && 0 <= m < out[j].addrs.len() ==> addr_model_wf(
                    #[trigger] out[j].addrs[m],
                )
            &&& forall|j: int| 0 <= j < out.len() ==> (#[trigger] out[j]).mac_addr is None
            &&& forall|j: int|
                0 <= j < out.len() ==> (#[trigger] out[j]).name == name || exists|k: int|
                    0 <= k < ifaces.len() && (#[trigger] ifaces[k]).name == out[j].name
        }),
{
    lemma_index_of_name_spec(ifaces, name);
    let out = merge_addr(ifaces, name, a, index);
    let j = index_of_name(ifaces, name);
    if j == -1 {
        assert(out.len() == ifaces.len() + 1);
        assert(out.last().name == name);
        assert(forall|k: int| 0 <= k < ifaces.len() ==> out[k] == ifaces[k]);
    } else {
        assert(forall|k: int| 0 <= k < out.len() && k != j ==> out[k] == ifaces[k]);
        assert(out[j].name == ifaces[j].name);
        assert(out[j].addrs == ifaces[j].addrs.push(a));
    }
}

/// The accumulating state of a successful pass is well-formed throughout:
/// distinct names, nonempty well-typed address lists, no MAC attached yet,
/// and every name decoded from some record.
proof fn lemma_fold_wf(records: Seq<RawRecord>, platform: Platform, big_endian: bool)
    requires
        build_fold(records, platform, big_endian) is Ok,
    ensures
        ({
            let st = build_fold(records, platform, big_endian)->Ok_0;
            &&& names_distinct(st.ifaces)
            &&& forall|j: int| 0 <= j < st.ifaces.len() ==> (#[trigger] st.ifaces[j]).addrs.len() > 0
            &&& forall|j: int, m: int|
                0 <= j < st.ifaces.len() && 0 <= m < st.ifaces[j].addrs.len() ==> addr_model_wf(
                    #[trigger] st.ifaces[j].addrs[m],
                )
            &&& forall|j: int| 0 <= j < st.ifaces.len() ==> (#[trigger] st.ifaces[j]).mac_addr is None
            &&& forall|j: int|
                0 <= j < st.ifaces.len() ==> name_from_records(
                    (#[trigger] st.ifaces[j]).name,
                    records,
                )
        }),
    decreases records.len(),
{
    if records.len() > 0 {
        let prev = records.drop_last();
        let r = records.last();
        lemma_fold_wf(prev, platform, big_endian);
        let st0 = build_fold(prev, platform, big_endian)->Ok_0;
        let st = build_fold(records, platform, big_endian)->Ok_0;
        assert forall|nm: Seq<char>| #[trigger]
            name_from_records(nm, prev) implies name_from_records(nm, records) by {
            let i = choose|i: int|
                0 <= i < prev.len() && valid_utf8((#[trigger] prev[i]).name@) && nm == decode_utf8(
                    prev[i].name@,
                );
            assert(records[i] == prev[i]);
            assert(valid_utf8(records[i].name@) && nm == decode_utf8(records[i].name@));
        }
        match r.data {
            None => {},
            Some(RawData::Other) => {},
            Some(RawData::Link { .. }) => {},
            Some(RawData::Inet { addr, netmask, broadcast }) => {
                lemma_merge_wf(
                    st0.ifaces,
                    decode_utf8(r.name@),
                    v4_model_of(addr, netmask, broadcast, big_endian),
                    r.index,
                );
                assert(valid_utf8(records[records.len() - 1].name@));
                assert forall|j: int| 0 <= j < st.ifaces.len() implies name_from_records(
                    (#[trigger] st.ifaces[j]).name,
                    records,
                ) by {
                    if st.ifaces[j].name == decode_utf8(r.name@) {
                        assert(valid_utf8((records[records.len() - 1]).name@) && st.ifaces[j].name
                            == decode_utf8(records[records.len() - 1].name@));
                    }
                }
            },
            Some(RawData::Inet6 { addr, netmask, broadcast }) => {
                lemma_merge_wf(
                    st0.ifaces,
                    decode_utf8(r.name@),
                    v6_model_of(addr@, opt_view(netmask), opt_view(broadcast), platform is Bsd),
                    r.index,
                );
                assert(valid_utf8(records[records.len() - 1].name@));
                assert forall|j: int| 0 <= j < st.ifaces.len() implies name_from_records(
                    (#[trigger] st.ifaces[j]).name,
                    records,
                ) by {
                    if st.ifaces[j].name == decode_utf8(r.name@) {
                        assert(valid_utf8((records[records.len() - 1]).name@) && st.ifaces[j].name
                            == decode_utf8(records[records.len() - 1].name@));
                    }
                }
            },
        }
    }
}

/// Every entry of a successful pass is well-formed: no two entries share
/// a name, every entry carries at least one address, every V4 address has
/// four octets in each field and every V6 address sixteen, and — when
/// every record's raw name is nonempty, as a platform's records are —
/// every entry's name is nonempty.
pub proof fn lemma_build_wellformed(records: Seq<RawRecord>, platform: Platform, big_endian: bool)
    requires
        spec_build(records, platform, big_endian) is Ok,
    ensures
        ({
            let out = spec_build(records, platform, big_endian)->Ok_0;
            &&& names_distinct(out)
            &&& forall|j: int| 0 <= j < out.len() ==> (#[trigger] out[j]).addrs.len() > 0
            &&& forall|j: int, m: int|
                0 <= j < out.len() && 0 <= m < out[j].addrs.len() ==> addr_model_wf(
                    #[trigger] out[j].addrs[m],
                )
            &&& (forall|i: int| 0 <= i < records.len() ==> (#[trigger] records[i]).name@.len() > 0)
                ==> (forall|j: int| 0 <= j < out.len() ==> (#[trigger] out[j]).name.len() > 0)
        }),
{
    lemma_fold_wf(records, platform, big_endian);
    let st = build_fold(records, platform, big_endian)->Ok_0;
    let out = spec_build(records, platform, big_endian)->Ok_0;
    assert(out == apply_macs(st.ifaces, st.macs));
    assert(out.len() == st.ifaces.len());
    assert(forall|j: int|
        0 <= j < out.len() ==> (#[trigger] out[j]).name == st.ifaces[j].name && out[j].addrs
            == st.ifaces[j].addrs);
    if forall|i: int| 0 <= i < records.len() ==> (#[trigger] records[i]).name@.len() > 0 {
        assert forall|j: int| 0 <= j < out.len() implies (#[trigger] out[j]).name.len() > 0 by {
            let i = choose|i: int|
                0 <= i < records.len() && valid_utf8((#[trigger] records[i]).name@)
                    && st.ifaces[j].name == decode_utf8(records[i].name@);
            lemma_decode_utf8_nonempty(records[i].name@);
        }
    }
}

/// Some record contributes an address, so the accumulator is nonempty.
proof fn lemma_fold_address_gives_iface(records: Seq<RawRecord>, platform: Platform, big_endian: bool)
    requires
        build_fold(records, platform, big_endian) is Ok,
        exists|i: int| 0 <= i < records.len() && is_address_record(#[trigger] records[i]),
    ensures
        build_fold(records, platform, big_endian)->Ok_0.ifaces.len() > 0,
    decreases records.len(),
{
    let i = choose|i: int| 0 <= i < records.len() && is_address_record(#[trigger] records[i]);
    let prev = records.drop_last();
    let r = records.last();
    let st0 = build_fold(prev, platform, big_endian)->Ok_0;
    if is_address_record(r) {
        match r.data {
            Some(RawData::Inet { addr, netmask, broadcast }) => {
                lemma_index_of_name_spec(st0.ifaces, decode_utf8(r.name@));
            },
            Some(RawData::Inet6 { addr, netmask, broadcast }) => {
                lemma_index_of_name_spec(st0.ifaces, decode_utf8(r.name@));
            },
            _ => {},
        }
    } else {
        assert(i < records.len() - 1);
        assert(prev[i] == records[i]);
        lemma_fold_address_gives_iface(prev, platform, big_endian);
    }
}

/// On a host whose record stream carries at least one INET or INET6
/// record — any host with a configured loopback interface does — a
/// successful pass returns a nonempty list.
pub proof fn lemma_build_nonempty(records: Seq<RawRecord>, platform: Platform, big_endian: bool)
    requires
        spec_build(records, platform, big_endian) is Ok,
        exists|i: int| 0 <= i < records.len() && is_address_record(#[trigger] records[i]),
    ensures
        spec_build(records, platform, big_endian)->Ok_0.len() > 0,
{
    lemma_fold_address_gives_iface(records, platform, big_endian);
}

/// Two records with the same name, one INET and one INET6, merge into
/// exactly one interface that carries both addresses, in record order.
pub proof fn lemma_merge_two_families(
    r4: RawRecord,
    r6: RawRecord,
    platform: Platform,
    big_endian: bool,
)
    requires
        valid_utf8(r4.name@),
        r6.name@ == r4.name@,
        r4.data matches Some(RawData::Inet { .. }),
        r6.data matches Some(RawData::Inet6 { .. }),
    ensures
        ({
            let out = spec_build(seq![r4, r6], platform, big_endian);
            &&& out is Ok
            &&& out->Ok_0.len() == 1
            &&& out->Ok_0[0].name == decode_utf8(r4.name@)
            &&& out->Ok_0[0].addrs.len() == 2
            &&& out->Ok_0[0].addrs[0] is V4
            &&& out->Ok_0[0].addrs[1] is V6
        }),
{
    let s = seq![r4, r6];
    let name = decode_utf8(r4.name@);
    assert(s.drop_last() =~= seq![r4]);
    assert(s.last() == r6);
    assert(seq![r4].drop_last() =~= Seq::<RawRecord>::empty());
    assert(seq![r4].last() == r4);
    let step1 = build_step(initial_state(), r4, platform, big_endian);
    assert(build_fold(Seq::<RawRecord>::empty(), platform, big_endian) == Ok::<
        BuildState,
        ErrorModel,
    >(initial_state()));
    assert(build_fold(seq![r4], platform, big_endian) == step1);
    assert(step1 is Ok);
    let st1 = step1->Ok_0;
    assert(st1.ifaces.len() == 1 && st1.ifaces[0].name == name && st1.ifaces[0].addrs.len() == 1
        && st1.ifaces[0].addrs[0] is V4 && st1.ifaces[0].mac_addr is None);
    assert(st1.macs == Map::<Seq<char>, Seq<char>>::empty());
    let step2 = build_step(st1, r6, platform, big_endian);
    assert(index_of_name(st1.ifaces, name) == 0);
    assert(step2 is Ok);
    let st2 = step2->Ok_0;
    assert(st2.ifaces.len() == 1 && st2.ifaces[0].name == name && st2.ifaces[0].addrs.len() == 2
        && st2.ifaces[0].addrs[0] is V4 && st2.ifaces[0].addrs[1] is V6);
    assert(build_fold(s, platform, big_endian) == step2);
    let out = spec_build(s, platform, big_endian)->Ok_0;
    assert(!st2.macs.contains_key(name));
    assert(out[0].name == name && out[0].addrs == st2.ifaces[0].addrs);
}

/// A link-family record and an INET record for the same name yield, in
/// either order, the same single interface: one V4 address and the MAC
/// text the link record carries.
pub proof fn lemma_mac_association(
    l: RawRecord,
    a: RawRecord,
    platform: Platform,
    big_endian: bool,
)
    requires
        valid_utf8(l.name@),
        a.name@ == l.name@,
        l.data matches Some(RawData::Link { .. }),
        a.data matches Some(RawData::Inet { .. }),
    ensures
        ({
            let out_la = spec_build(seq![l, a], platform, big_endian);
            let out_al = spec_build(seq![a, l], platform, big_endian);
            &&& out_la is Ok
            &&& out_la == out_al
            &&& out_la->Ok_0.len() == 1
            &&& out_la->Ok_0[0].name == decode_utf8(l.name@)
            &&& out_la->Ok_0[0].addrs.len() == 1
            &&& out_la->Ok_0[0].addrs[0] is V4
            &&& out_la->Ok_0[0].mac_addr == Some(record_mac_text(l))
        }),
{
    let name = decode_utf8(l.name@);
    let mac = record_mac_text(l);

    let s1 = seq![l, a];
    assert(s1.drop_last() =~= seq![l]);
    assert(s1.last() == a);
    assert(seq![l].drop_last() =~= Seq::<RawRecord>::empty());
    assert(seq![l].last() == l);
    let p1 = build_step(initial_state(), l, platform, big_endian);
    assert(build_fold(Seq::<RawRecord>::empty(), platform, big_endian) == Ok::<
        BuildState,
        ErrorModel,
    >(initial_state()));
    assert(build_fold(seq![l], platform, big_endian) == p1);
    assert(p1 is Ok);
    let st1 = p1->Ok_0;
    assert(st1.ifaces.len() == 0 && st1.macs == Map::<Seq<char>, Seq<char>>::empty().insert(
        name,
        mac,
    ));
    let p2 = build_step(st1, a, platform, big_endian);
    assert(index_of_name(st1.ifaces, name) == -1);
    assert(p2 is Ok);
    let st2 = p2->Ok_0;
    assert(st2.ifaces.len() == 1 && st2.ifaces[0].name == name && st2.ifaces[0].addrs.len() == 1
        && st2.ifaces[0].addrs[0] is V4);
    assert(st2.macs == st1.macs);
    assert(build_fold(s1, platform, big_endian) == p2);
    let out1 = spec_build(s1, platform, big_endian)->Ok_0;
    assert(st2.macs.contains_key(name) && st2.macs[name] == mac);
    assert(out1.len() == 1 && out1[0].name == name && out1[0].addrs == st2.ifaces[0].addrs
        && out1[0].mac_addr == Some(mac));

    let s2 = seq![a, l];
    assert(s2.drop_last() =~= seq![a]);
    assert(s2.last() == l);
    assert(seq![a].drop_last() =~= Seq::<RawRecord>::empty());
    assert(seq![a].last() == a);
    let q1 = build_step(initial_state(), a, platform, big_endian);
    assert(build_fold(seq![a], platform, big_endian) == q1);
    assert(q1 is Ok);
    let ta = q1->Ok_0;
    assert(index_of_name(Seq::<IfaceModel>::empty(), decode_utf8(a.name@)) == -1);
    assert(ta.ifaces.len() == 1 && ta.ifaces[0].name == name && ta.ifaces[0].addrs.len() == 1
        && ta.ifaces[0].addrs[0] is V4 && ta.ifaces[0].mac_addr is None);
    assert(ta.macs == Map::<Seq<char>, Seq<char>>::empty());
    let q2 = build_step(ta, l, platform, big_endian);
    assert(q2 is Ok);
    let tb = q2->Ok_0;
    assert(tb.ifaces == ta.ifaces);
    assert(tb.macs == Map::<Seq<char>, Seq<char>>::empty().insert(name, mac));
    assert(build_fold(s2, platform, big_endian) == q2);
    let out2 = spec_build(s2, platform, big_endian)->Ok_0;
    assert(tb.macs.contains_key(name) && tb.macs[name] == mac);
    assert(out2.len() == 1 && out2[0].name == name && out2[0].addrs == tb.ifaces[0].addrs && out2[0].mac_addr
        == Some(mac));

    assert(st2.ifaces[0].addrs == tb.ifaces[0].addrs);
    assert(out1 =~= out2);
}

/// The MAC text of the last link-family record that bears `name`, when
/// one does.
pub open spec fn last_link_mac(records: Seq<RawRecord>, name: Seq<char>) -> Option<Seq<char>>
    decreases records.len(),
{
    if records.len() == 0 {
        None
    } else {
        match records.last().data {
            Some(RawData::Link { bytes, addr_len }) => {
                if valid_utf8(records.last().name@) && decode_utf8(records.last().name@) == name {
                    Some(link_mac_text(bytes@, addr_len))
                } else {
                    last_link_mac(records.drop_last(), name)
                }
            },
            _ => last_link_mac(records.drop_last(), name),
        }
    }
}

/// The side mapping of a successful pass binds exactly the names that
/// link-family records carry, each to the text of the last such record.
proof fn lemma_fold_macs(records: Seq<RawRecord>, platform: Platform, big_endian: bool)
    requires
        build_fold(records, platform, big_endian) is Ok,
    ensures
        ({
            let st = build_fold(records, platform, big_endian)->Ok_0;
            forall|name: Seq<char>|
                #![trigger st.macs.contains_key(name)]
                #![trigger last_link_mac(records, name)]
                (st.macs.contains_key(name) <==> last_link_mac(records, name) is Some)
                    && (st.macs.contains_key(name) ==> Some(st.macs[name]) == last_link_mac(
                    records,
                    name,
                ))
        }),
    decreases records.len(),
{
    if records.len() > 0 {
        let prev = records.drop_last();
        let r = records.last();
        lemma_fold_macs(prev, platform, big_endian);
        let st0 = build_fold(prev, platform, big_endian)->Ok_0;
        let st = build_fold(records, platform, big_endian)->Ok_0;
        match r.data {
            Some(RawData::Link { bytes, addr_len }) => {
                let nm = decode_utf8(r.name@);
                assert(st.macs == st0.macs.insert(nm, link_mac_text(bytes@, addr_len)));
            },
            _ => {
                assert(st.macs == st0.macs);
            },
        }
    }
}

/// MAC association in general: in a successful pass every interface
/// carries the MAC text of the last link-family record that bears its
/// name, and carries none when no link-family record does — whatever
/// order the records came in.
pub proof fn lemma_mac_binding(records: Seq<RawRecord>, platform: Platform, big_endian: bool)
    requires
        spec_build(records, platform, big_endian) is Ok,
    ensures
        ({
            let out = spec_build(records, platform, big_endian)->Ok_0;
            forall|j: int|
                0 <= j < out.len() ==> (#[trigger] out[j]).mac_addr == last_link_mac(
                    records,
                    out[j].name,
                )
        }),
{
    lemma_fold_macs(records, platform, big_endian);
    let st = build_fold(records, platform, big_endian)->Ok_0;
    let out = spec_build(records, platform, big_endian)->Ok_0;
    assert forall|j: int| 0 <= j < out.len() implies (#[trigger] out[j]).mac_addr == last_link_mac(
        records,
        out[j].name,
    ) by {
        let name = st.ifaces[j].name;
        assert(out[j] == apply_macs(st.ifaces, st.macs)[j]);
        assert(st.macs.contains_key(name) <==> last_link_mac(records, name) is Some);
    }
}

proof fn lemma_null_fold_inert(
    records: Seq<RawRecord>,
    r: RawRecord,
    i: int,
    platform: Platform,
    big_endian: bool,
)
    requires
        0 <= i <= records.len(),
        r.data is None,
    ensures
        build_fold(records.insert(i, r), platform, big_endian) == build_fold(
            records,
            platform,
            big_endian,
        ),
    decreases records.len(),
{
    let ins = records.insert(i, r);
    records.insert_ensures(i, r);
    if i == records.len() {
        assert(ins.drop_last() =~= records);
        assert(ins.last() == r);
    } else {
        assert(ins.drop_last() =~= records.drop_last().insert(i, r)) by {
            records.drop_last().insert_ensures(i, r);
        }
        assert(ins.last() == records.last());
        lemma_null_fold_inert(records.drop_last(), r, i, platform, big_endian);
    }
}

/// A record whose primary address pointer was null contributes nothing:
/// inserting one anywhere in the stream leaves the result unchanged.
pub proof fn lemma_null_record_inert(
    records: Seq<RawRecord>,
    r: RawRecord,
    i: int,
    platform: Platform,
    big_endian: bool,
)
    requires
        0 <= i <= records.len(),
        r.data is None,
    ensures
        spec_build(records.insert(i, r), platform, big_endian) == spec_build(
            records,
            platform,
            big_endian,
        ),
{
    lemma_null_fold_inert(records, r, i, platform, big_endian);
}

} // verus!
