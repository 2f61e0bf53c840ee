//! Service layer: the use cases the controllers invoke.

pub mod accounts;
pub mod tweets;
