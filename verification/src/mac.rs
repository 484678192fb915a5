//! Link-layer (MAC) addresses as raw bytes.

use vstd::prelude::*;

verus! {

/// A link-layer address: six bytes for ordinary interfaces, eight for
/// EUI-64 style identifiers.
#[derive(Debug, Clone)]
pub enum Address {
    V6(Box<[u8; 6]>),
    V8(Box<[u8; 8]>),
}

/// A link-layer (hardware) address.
#[derive(Debug, Clone)]
pub struct MacAddress(pub Address);

impl MacAddress {
    /// Wraps an already-built [`Address`].
    pub fn new(addr: Address) -> (r: Self)
        ensures
            r.0 == addr,
    {
        MacAddress(addr)
    }

    /// Builds a six-byte link-layer address from its bytes.
    pub fn new_v6(a: u8, b: u8, c: u8, d: u8, e: u8, f: u8) -> (r: Self)
        ensures
            r.0 matches Address::V6(bytes) && bytes@ =~= seq![a, b, c, d, e, f],
    {
        MacAddress(Address::V6(Box::new([a, b, c, d, e, f])))
    }

    /// Builds an eight-byte link-layer address from its bytes.
    pub fn new_v8(a: u8, b: u8, c: u8, d: u8, e: u8, f: u8, g: u8, h: u8) -> (r: Self)
        ensures
            r.0 matches Address::V8(bytes) && bytes@ =~= seq![a, b, c, d, e, f, g, h],
    {
        MacAddress(Address::V8(Box::new([a, b, c, d, e, f, g, h])))
    }
}

} // verus!
