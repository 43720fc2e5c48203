//! Governance for decentralised organisations: members file spending
//! proposals, vote on them inside a fixed window, and discuss them in
//! comments. All state lives in one owned [`store::Store`]; the caller's
//! identity and the current time are handed in by the host for each request.

pub mod table;
pub mod identity;
pub mod error;
pub mod records;
pub mod store;
pub mod laws;
