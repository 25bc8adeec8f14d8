//! Errors reported by the virtio network driver.

use vstd::prelude::*;
use crate::features::FeatureSet;

verus! {

/// Failures of the network driver. Each value carries what identifies the
/// device or the feature sets involved.
#[derive(Debug, Copy, Clone, PartialEq, Eq, Structural)]
pub enum VirtioNetError {
    /// The device configuration region of the device with this id was not found.
    NoDevCfg(u16),
    /// The common configuration region of the device with this id was not found.
    NoComCfg(u16),
    /// The interrupt status region of the device with this id was not found.
    NoIsrCfg(u16),
    /// The notification region of the device with this id was not found.
    NoNotifCfg(u16),
    /// Feature negotiation with the device with this id did not converge.
    FailFeatureNeg(u16),
    /// The set of features does not satisfy the dependencies between features.
    FeatureRequirementsNotMet(FeatureSet),
    /// The first set holds the features wanted by the driver, which the
    /// device, offering the second set, does not cover.
    IncompatibleFeatureSets(FeatureSet, FeatureSet),
}

} // verus!
