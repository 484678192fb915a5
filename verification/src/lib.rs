//! Enumeration of a host's network interfaces.
//!
//! The crate normalizes the raw interface records that a platform's native
//! interface-listing call produces (name, address family, binary address
//! fields, link-layer bytes) into a uniform list of `NetworkInterface`
//! values.  Everything with design content is verified: address conversion
//! with byte-order correction, link-layer address formatting, and the
//! dispatch/merge pass that folds many raw records into one entry per
//! interface name.  The platform-specific acquisition of the raw records
//! (a linked list owned by the operating system) cannot be verified and is
//! left to an embedding program, which hands the records over as plain
//! values.

use vstd::prelude::*;

mod adapters;
mod addr;
mod builder;
mod convert;
mod error;
mod hex;
mod interface;
mod laws;
mod mac;
mod record;

pub use adapters::{
    adapter_addrs, adapter_error, adapter_mac_take, adapter_model, adapters_retry_decision,
    addr_views, build_adapter_interfaces, first_index_of, length_to_ipv4_mask,
    lookup_ipv4_broadcast_addr, make_adapter_address_name, make_mac_address, mask_octet,
    octet_bits, spec_build_adapters, spec_v4_broadcast, unicast_model, utf16_chars,
    v4_mask_octets, v4_prefixes, AdapterRecord, AdaptersCallStatus, RetryDecision, UnicastRecord,
};
pub use addr::{IpAddr, Ipv4Addr, Ipv6Addr};
pub use builder::{
    apply_macs, assoc_map, build_fold, build_interfaces, build_step, iface_views, index_of_name,
    initial_state, link_mac_take, link_mac_text, merge_addr, spec_build, v4_model_of, v6_model_of,
    BuildState,
};
pub use convert::{
    ipv4_from_raw, ipv6_from_raw, is_link_local_v6, lemma_v4_mask_broadcast_roundtrip,
    lemma_v4_octets_byte_order, make_ipv4_netmask, make_ipv6_netmask, octet_mask_consistent,
    v4_octets,
};
pub use error::{Error, ErrorModel};
pub use hex::{byte_hex, hex_char, hex_colon, hex_colon_text};
pub use interface::{
    opt_view, Addr, AddrModel, IfaceModel, NetworkInterface, Netmask, V4IfAddr, V4Model, V6IfAddr,
    V6Model,
};
pub use laws::{
    addr_model_wf, is_address_record, last_link_mac, lemma_build_nonempty,
    lemma_build_wellformed, lemma_mac_association, lemma_mac_binding,
    lemma_merge_two_families, lemma_null_record_inert, name_from_records, names_distinct,
    record_mac_text,
};
pub use mac::{Address, MacAddress};
pub use record::{make_netifa_name, Platform, RawData, RawRecord};

verus! {

/// The single operation consumed by callers: list all current network
/// interfaces in one snapshot.
///
/// The acquisition of raw records is platform work that an embedding
/// program performs; such a program implements this trait by collecting
/// the host's raw record list and handing it to the interface builder.
pub trait NetworkInterfaceConfig {
    /// List the system's network interface configuration.
    fn show() -> Result<Vec<NetworkInterface>, Error>;
}

} // verus!
