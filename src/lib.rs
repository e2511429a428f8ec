//! Curation-and-staking pipeline of a gallery platform: galleries and their
//! tickets, NFT submission and curation, bid-ranked leaderboards, the vote
//! façade in front of them, and reward claims once voting has closed.
//!
//! Every component is a plain state value; the host that runs a transaction
//! hands each entry point the caller's address and the block time, and carries
//! out the token transfers and mints that an entry point returns.
pub mod types;
pub mod access;
pub mod gallery;
pub mod curation;
pub mod ticketing;
pub mod safe_vote;
pub mod storage;
pub mod minter;
pub mod leaderboard;
pub mod staking;
