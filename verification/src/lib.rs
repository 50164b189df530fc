//! The encrypted slate-relay subsystem of a Mimblewimble wallet: the address
//! scheme that names endpoints, the authenticated envelope that protects a
//! slate in transit, the long-poll relay broker that moves envelopes between
//! wallets, and the transaction-proof pipeline that verifies what arrives.
//!
//! Every rule of the wire protocol lives here with a contract; the network
//! calls themselves, and the external wallet engine, stay outside and hand
//! this library plain values.

pub mod address;
pub mod base58;
pub mod broker;
pub mod crypto;
pub mod error;
pub mod handlers;
pub mod message;
pub mod protocol;
pub mod slate;
pub mod strutil;
pub mod txproof;
pub mod wallet;
