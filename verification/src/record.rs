//! The portable model of one raw interface record.
//!
//! A platform's interface-listing call yields a linked list of raw
//! records.  Walking that list means chasing foreign-owned pointers, which
//! stays in a thin per-platform adapter outside this crate; the adapter
//! reads each node's fields and hands them over as one plain [`RawRecord`]
//! value per node, in list order.

use vstd::prelude::*;

use crate::error::{Error, ErrorModel};

verus! {

/// Which getifaddrs flavor produced the records, where the two differ in
/// normalization policy: the Apple/BSD flavor suppresses link-local
/// (`fe80::`) IPv6 netmasks, the Linux flavor keeps them.
#[derive(Debug, Clone, Copy)]
pub enum Platform {
    Linux,
    Bsd,
}

/// The family-specific payload of a raw record, as read from the record's
/// primary socket-address structure.
#[derive(Debug, Clone)]
pub enum RawData {
    /// A link-layer record: the raw address bytes and the address length
    /// the platform reported.  On Linux these come from the packet-family
    /// structure's address buffer; on Apple/BSD from the native helper
    /// that resolves the record's link-layer storage.
    Link { bytes: Vec<u8>, addr_len: u8 },
    /// An INET record: the 32-bit address word as this host read it from
    /// memory (stored in network byte order), and the netmask and
    /// broadcast words when their socket-address pointers were non-null.
    Inet { addr: u32, netmask: Option<u32>, broadcast: Option<u32> },
    /// An INET6 record: the 16-byte address, and the netmask and
    /// broadcast bytes when their socket-address pointers were non-null.
    Inet6 { addr: [u8; 16], netmask: Option<[u8; 16]>, broadcast: Option<[u8; 16]> },
    /// A record of any other address family; it contributes nothing.
    Other,
}

/// One raw interface record, as one node of the platform's list.
#[derive(Debug, Clone)]
pub struct RawRecord {
    /// The interface name bytes (without the terminating NUL).
    pub name: Vec<u8>,
    /// The platform-assigned interface index (0 if unavailable).
    pub index: u32,
    /// The family-specific payload; `None` when the record's primary
    /// address pointer was null.
    pub data: Option<RawData>,
}

/// Relies on `String::from_utf8`: per its documentation it returns `Ok`
/// exactly when the bytes are valid UTF-8, and then the string consists
/// of those bytes, i.e. its characters are their decoding.
#[verifier::external_body]
fn string_from_utf8(bytes: &Vec<u8>) -> (r: Option<String>)
    ensures
        r is Some <==> vstd::utf8::valid_utf8(bytes@),
        r matches Some(s) ==> s@ == vstd::utf8::decode_utf8(bytes@),
{
    String::from_utf8(bytes.clone()).ok()
}

/// Resolves a record's interface name: its name bytes decoded as UTF-8.
/// Name bytes that are not valid text abort the enumeration pass, so the
/// failure carries the offending bytes.
pub fn make_netifa_name(record: &RawRecord) -> (r: Result<String, Error>)
    ensures
        r is Ok <==> vstd::utf8::valid_utf8(record.name@),
        r matches Ok(s) ==> s@ == vstd::utf8::decode_utf8(record.name@),
        r matches Err(e) ==> e@ == ErrorModel::ParseUtf8(record.name@),
{
    match string_from_utf8(&record.name) {
        Some(s) => Ok(s),
        None => Err(Error::ParseUtf8Error(clone_bytes(&record.name))),
    }
}

/// A copy of a byte vector with the same contents.
fn clone_bytes(bytes: &Vec<u8>) -> (r: Vec<u8>)
    ensures
        r@ == bytes@,
{
    let r = bytes.clone();
    proof {
        assert(r@ =~= bytes@);
    }
    r
}

} // verus!
