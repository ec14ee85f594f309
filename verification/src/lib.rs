//! The Knowdly book contract: book registration, purchases that mint
//! ownership tokens, resales with enforced creator royalties, and the
//! ownership checks that gate access to the encrypted content.
use vstd::prelude::*;

pub mod types;
pub mod fees;
pub mod assoc;
pub mod model;
pub mod contract;
pub mod consistency;
pub mod laws;
pub mod locality;
pub mod guarantees;

verus! {
} // verus!
