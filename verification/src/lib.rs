//! Client library for the BluOS network-audio control protocol: building
//! command URLs, encoding and decoding the XML response records, and the
//! state machine of the mDNS discovery bridge.
//!
//! Network transport (HTTP, mDNS polling) is left to the surrounding
//! application; everything here computes on plain values and is verified.

use vstd::prelude::*;

pub mod device;
pub mod discover;
pub mod error;
pub mod numerals;

verus! {

} // verus!
