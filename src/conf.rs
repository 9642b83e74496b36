//! Sections of a configuration file, as the caller's reader hands them over.
use vstd::prelude::*;

verus! {

/// One section of a configuration file: the local interface, or a peer.
#[allow(non_snake_case)]
#[derive(Debug, PartialEq, Eq)]
pub enum Section {
    Interface { Name: String, Address: String, ListenPort: Option<u16> },
    Peer { Name: String, Endpoint: Option<String>, AllowedIPs: Option<String> },
}

} // verus!
