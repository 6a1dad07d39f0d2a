//! The names that a user of the chain notation needs.

pub use crate::{ChainNode, CircmarkChain, Element};
