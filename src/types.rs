//! Plain data carried between an ownable and its host.
use std::collections::HashMap;
use vstd::prelude::*;

verus! {

/// Token metadata, after the on-chain metadata of CosmWasm NFT contracts.
#[derive(Clone, PartialEq, Debug, Default)]
pub struct Metadata {
    pub image: Option<String>,
    pub image_data: Option<String>,
    pub external_url: Option<String>,
    pub description: Option<String>,
    pub name: Option<String>,
    pub background_color: Option<String>,
    pub animation_url: Option<String>,
    pub youtube_url: Option<String>,
}

/// An event raised outside the ownable, on some network.
#[derive(Clone, PartialEq, Debug)]
pub struct ExternalEventMsg {
    /// CAIP-2 network identifier: `<namespace>:<reference>`, e.g. `eip155:1`.
    pub network: Option<String>,
    pub event_type: String,
    pub attributes: HashMap<String, String>,
}

/// A querier that answers nothing; it exists so that a host environment is
/// structurally complete.
#[derive(Clone, Copy, Debug)]
pub struct EmptyQuerier {}

impl Default for EmptyQuerier {
    fn default() -> (r: Self)
        ensures
            r == (EmptyQuerier {}),
    {
        EmptyQuerier {}
    }
}

} // verus!
