//! A token-permissioning gateway: a manager holds delegated freeze/thaw
//! authority over a mint and consults a pluggable, untrusted gate to decide
//! permissionless requests, while the issuer keeps unconditional control
//! through its own signature. Every capability is stripped from the account
//! list before untrusted decision logic sees it.

pub mod accounts;
pub mod addr;
pub mod codec;
pub mod config;
pub mod derive;
pub mod error;
pub mod gate;
pub mod manager;
pub mod records;
pub mod tags;
