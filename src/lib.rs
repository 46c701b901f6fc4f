//! Sign-in with a Solana wallet: challenge messages, the replay-protected
//! challenge store, and the two-way binding between principals and wallet keys.

pub mod pubkey;
pub mod settings;
pub mod message;
pub mod store;
pub mod identity;
pub mod login;
