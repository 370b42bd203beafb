//! Quazal PRUDP / RMC protocol library: packet framing, checksums, stream
//! encodings and result codes, with their contracts.

pub mod capture;
pub mod client;
pub mod config;
pub mod ddl;
pub mod dll;
pub mod kerberos;
pub mod launcher;
pub mod prudp;
pub mod rmc;
pub mod text;
pub mod version;

use vstd::prelude::*;

verus! {

/// Why a service or value was refused.
#[derive(Debug, Clone, PartialEq, Eq)]
pub enum Error {
    /// The named service is not configured.
    ServiceNotFound(String),
    /// A value could not be read.
    InvalidValue,
}

/// The identifier that a connection is given when it logs in.
#[derive(Debug, Clone, Copy, PartialEq, Eq, Hash, Structural)]
pub struct ConnectionID(pub u32);

impl ConnectionID {
    /// The identifier's number.
    pub fn value(self) -> (r: u32)
        ensures
            r == self.0,
    {
        self.0
    }

    /// The identifier that the text writes in decimal, or `None`.
    pub fn parse_str(s: &str) -> (r: Option<ConnectionID>)
        ensures
            match crate::text::spec_parse_unsigned(s@, u32::MAX as nat) {
                Some(v) => r == Some(ConnectionID(v as u32)),
                None => r is None,
            },
    {
        let cs = crate::text::chars_of(s);
        match crate::text::parse_unsigned(cs.as_slice(), u32::MAX as u64) {
            Some(v) => Some(ConnectionID(v as u32)),
            None => None,
        }
    }
}

impl From<ConnectionID> for u32 {
    fn from(value: ConnectionID) -> (r: u32) {
        value.0
    }
}

impl vstd::std_specs::convert::FromSpecImpl<ConnectionID> for u32 {
    open spec fn obeys_from_spec() -> bool {
        true
    }

    open spec fn from_spec(v: ConnectionID) -> u32 {
        v.0
    }
}

} // verus!
