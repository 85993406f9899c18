//! Country-based request filtering.
//!
//! A request is let through or turned away by the country that its origin
//! address resolves to. The [`policy`] reads a set of countries as a
//! whitelist or a blacklist and has a rule for origins of unknown country.
//! The [`cache`] keeps what a resolver answered, for a bounded number of
//! addresses and a bounded time. The [`filter`] joins the two: its first step
//! judges a request from the cache or calls for the resolver, its second step
//! caches the resolver's answer and judges by it. The resolver itself, the
//! clock and the lock around the filter belong to the caller. The [`config`]
//! holds the checks on a configuration and the settings it comes to.

pub mod address;
pub mod cache;
pub mod config;
pub mod country;
pub mod error;
pub mod filter;
pub mod mode;
pub mod policy;
pub mod text;
