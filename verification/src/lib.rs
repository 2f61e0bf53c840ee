//! A small social-posting core: accounts, tweets, sessions.
//!
//! The library is layered: entities carry the domain invariants,
//! repository traits state what persistence must do, in-memory
//! repositories implement those contracts, and services combine the
//! two to perform the use cases a web front end needs.

pub mod constants;
pub mod cookie;
pub mod entities;
pub mod errors;
pub mod hashing;
pub mod memory;
pub mod repositories;
pub mod request;
pub mod services;
pub mod text;
pub mod time;
pub mod views;
