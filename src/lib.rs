//! Synchronisation and transaction-planning core of a light wallet that tracks
//! shielded notes and transparent outputs, with every contract proved by Verus.
pub mod error;
pub mod network;
pub mod bytes;
pub mod codec;
pub mod keys;
pub mod transparent;
pub mod chain;
pub mod wallet;
pub mod scan;
pub mod trial;
pub mod balance;
pub mod rewind;
pub mod transaction;
pub mod tables;
