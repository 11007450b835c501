//! The shape of one layer of a sequential model.
use vstd::prelude::*;
use vstd::string::*;

use crate::activation::Activation;
use crate::text::{decimal, decimal_chars};

verus! {

/// One layer of a sequential model as its weight matrix is laid out: `rows`
/// is the number of inputs plus one bias row, `cols` the number of units plus
/// one bias column handed on to the next layer.
#[derive(Debug, Clone, Copy, PartialEq, Eq, Structural)]
pub struct LayerShape {
    pub rows: usize,
    pub cols: usize,
    pub activation: Activation,
}

impl LayerShape {
    /// The number of units the layer holds: its columns but the bias column
    /// (zero for a matrix without any column).
    pub open spec fn unit_count(self) -> nat {
        if self.cols > 0 {
            (self.cols - 1) as nat
        } else {
            0
        }
    }

    /// The number of weights of each unit: the rows but the bias row (zero
    /// for a matrix without any row).
    pub open spec fn weight_count(self) -> nat {
        if self.rows > 0 {
            (self.rows - 1) as nat
        } else {
            0
        }
    }

    /// The one-line report of a layer: its unit count and the weight count
    /// of each unit, neither counting the bias column or the bias row.
    pub open spec fn summary_chars(self) -> Seq<char> {
        "Unit_Count: "@ + decimal_chars(self.unit_count()) + ", weight_count: "@ + decimal_chars(
            self.weight_count(),
        )
    }

    /// `"Unit_Count: <cols - 1>, weight_count: <rows - 1>"`; a count that has
    /// no bias row or column to leave out is printed as zero.
    pub fn summary(&self) -> (s: String)
        ensures
            s@ == self.summary_chars(),
    {
        let unit_count = if self.cols > 0 {
            self.cols - 1
        } else {
            0
        };
        let weight_count = if self.rows > 0 {
            self.rows - 1
        } else {
            0
        };
        let mut s = String::from_str("Unit_Count: ");
        let units = decimal(unit_count);
        s.append(units.as_str());
        s.append(", weight_count: ");
        let weights = decimal(weight_count);
        s.append(weights.as_str());
        s
    }
}

} // verus!
