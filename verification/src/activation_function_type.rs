//! The name under which layer requests and units refer to their activation.
use vstd::prelude::*;

verus! {

/// The activation a layer request or a unit asks for.
pub type ActivationFunctionType = crate::activation::Activation;

} // verus!
