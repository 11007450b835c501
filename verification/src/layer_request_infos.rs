//! A request for one layer: its activation and how many units it holds.
use vstd::prelude::*;

use crate::activation::Activation;

verus! {

/// What the caller asks of one layer of a network.
#[derive(Debug, Clone, Copy, PartialEq, Eq, Structural)]
pub struct LayerRequestInfo {
    pub activation: Activation,
    pub unit_count: usize,
}

impl LayerRequestInfo {
    /// A request for `unit_count` units that apply `activation`.
    pub fn new(activation: Activation, unit_count: usize) -> (r: Self)
        ensures
            r.activation == activation,
            r.unit_count == unit_count,
    {
        Self { activation, unit_count }
    }
}

} // verus!
