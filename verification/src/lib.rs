//! A user-account authentication core: issuance and verification of signed,
//! time-boxed, purpose-tagged bearer tokens; password hashing and checking;
//! per-request session resolution; route guards; and the account flows
//! (signup, login, logout, email verification, password reset) built on them.

pub mod claims;
pub mod codec;
pub mod payload;
pub mod crypto;
pub mod token;
pub mod password;
pub mod cookie;
pub mod store;
pub mod session;
pub mod flows;
