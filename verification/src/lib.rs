//! Single sign-on federation: from one identity-provider session per
//! organization to temporary cloud credentials for every selected profile.
//!
//! The crate holds the decisions of that pipeline: which profiles a
//! selection pattern picks, which application link and which role a profile
//! resolves to, how per-profile outcomes combine into one result per
//! organization, and how results enter the credential store. Network and
//! disk work is left to the caller, which feeds its results back as events.

pub mod model;
pub mod error;
pub mod selector;
pub mod credential_map;
pub mod resolver;
pub mod pipeline;
pub mod aggregator;
pub mod store;
pub mod orchestrator;
pub mod args;
