use vstd::prelude::*;

verus! {

/// The update rule applied to local predictive-coding parameter derivatives.
#[derive(Debug, Clone, Copy, PartialEq, Eq, Structural)]
pub enum PcParameterOptimizerKind {
    Sgd,
    Momentum,
    Adamw,
}

impl Default for PcParameterOptimizerKind {
    fn default() -> (r: Self)
        ensures
            r == PcParameterOptimizerKind::Adamw,
    {
        PcParameterOptimizerKind::Adamw
    }
}

} // verus!
