//! An asset ledger of "kitties": unique 16-byte identifiers, per-owner bounded
//! indices, breeding by bytewise derivation, and a price-gated marketplace
//! paid through a fund ledger. Beside it: a registry of bounded claims, a
//! checked sum, traffic lights, and the decisions of an echo session.

pub mod balances;
pub mod claims;
pub mod dna;
pub mod echo;
pub mod genesis;
pub mod laws;
pub mod ledger;
pub mod sum;
pub mod table;
pub mod traffic;
