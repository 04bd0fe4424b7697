//! Reasons for which an engine configuration is refused.

use vstd::prelude::*;

verus! {

/// Why a configuration could not be built or used.
#[derive(Eq, PartialEq, Structural, Clone, Copy, Debug)]
pub enum CfgError {
    /// The cylinder count is not supported, or does not divide the cycle evenly.
    InvalidCylinderCount,
    /// A top-dead-center marker would fall outside the cycle.
    TdcOutOfRange,
    /// More camshaft edges were given than a camshaft wheel can hold.
    UnsupportedCamEdgeCount,
    /// The camshaft edges are not strictly ascending angles of the cycle.
    NonMonotonicCamEdges,
}

} // verus!
