//! Bitwise operators and conversions between features, feature sets and
//! plain 64-bit values.

use vstd::prelude::*;
use vstd::std_specs::convert::FromSpecImpl;
use vstd::std_specs::ops::{BitAndSpecImpl, BitOrSpecImpl};
use core::ops::{BitAnd, BitAndAssign, BitOr, BitOrAssign};
use crate::features::{FeatureSet, Features};

verus! {

impl From<Features> for u64 {
    /// The feature as a 64-bit value with only its own bit set.
    fn from(val: Features) -> (r: u64) {
        val.bits()
    }
}

impl FromSpecImpl<Features> for u64 {
    open spec fn obeys_from_spec() -> bool {
        true
    }

    open spec fn from_spec(val: Features) -> u64 {
        val.mask()
    }
}

impl From<FeatureSet> for u64 {
    /// The 64 bits of the set.
    fn from(feature_set: FeatureSet) -> (r: u64) {
        feature_set.0
    }
}

impl FromSpecImpl<FeatureSet> for u64 {
    open spec fn obeys_from_spec() -> bool {
        true
    }

    open spec fn from_spec(feature_set: FeatureSet) -> u64 {
        feature_set@
    }
}

impl BitOr for Features {
    type Output = u64;

    /// The bits that either of the two features has.
    fn bitor(self, rhs: Features) -> (r: u64) {
        self.bits() | rhs.bits()
    }
}

impl BitOrSpecImpl for Features {
    open spec fn obeys_bitor_spec() -> bool {
        true
    }

    open spec fn bitor_req(self, rhs: Features) -> bool {
        true
    }

    open spec fn bitor_spec(self, rhs: Features) -> u64 {
        self.mask() | rhs.mask()
    }
}

impl BitOr<Features> for u64 {
    type Output = u64;

    /// The bits that either the value or the feature has.
    fn bitor(self, rhs: Features) -> (r: u64) {
        self | rhs.bits()
    }
}

impl BitOrSpecImpl<Features> for u64 {
    open spec fn obeys_bitor_spec() -> bool {
        true
    }

    open spec fn bitor_req(self, rhs: Features) -> bool {
        true
    }

    open spec fn bitor_spec(self, rhs: Features) -> u64 {
        self | rhs.mask()
    }
}

impl BitOrAssign<Features> for u64 {
    /// Sets the feature's bit in the value.
    fn bitor_assign(&mut self, rhs: Features)
        ensures
            *final(self) == *old(self) | rhs.mask(),
    {
        *self = *self | rhs.bits();
    }
}

impl BitOr for FeatureSet {
    type Output = FeatureSet;

    /// The union of the two sets.
    fn bitor(self, rhs: FeatureSet) -> (r: FeatureSet) {
        FeatureSet(self.0 | rhs.0)
    }
}

impl BitOrSpecImpl for FeatureSet {
    open spec fn obeys_bitor_spec() -> bool {
        true
    }

    open spec fn bitor_req(self, rhs: FeatureSet) -> bool {
        true
    }

    open spec fn bitor_spec(self, rhs: FeatureSet) -> FeatureSet {
        FeatureSet(self@ | rhs@)
    }
}

impl BitOr<FeatureSet> for u64 {
    type Output = u64;

    /// The bits of the value together with those of the set.
    fn bitor(self, rhs: FeatureSet) -> (r: u64) {
        self | rhs.0
    }
}

impl BitOrSpecImpl<FeatureSet> for u64 {
    open spec fn obeys_bitor_spec() -> bool {
        true
    }

    open spec fn bitor_req(self, rhs: FeatureSet) -> bool {
        true
    }

    open spec fn bitor_spec(self, rhs: FeatureSet) -> u64 {
        self | rhs@
    }
}

impl BitOrAssign<FeatureSet> for u64 {
    /// Adds the bits of the set to the value.
    fn bitor_assign(&mut self, rhs: FeatureSet)
        ensures
            *final(self) == *old(self) | rhs@,
    {
        *self = *self | rhs.0;
    }
}

impl BitAnd for Features {
    type Output = u64;

    /// The bits that both of the two features has.
    fn bitand(self, rhs: Features) -> (r: u64) {
        self.bits() & rhs.bits()
    }
}

impl BitAndSpecImpl for Features {
    open spec fn obeys_bitand_spec() -> bool {
        true
    }

    open spec fn bitand_req(self, rhs: Features) -> bool {
        true
    }

    open spec fn bitand_spec(self, rhs: Features) -> u64 {
        self.mask() & rhs.mask()
    }
}

impl BitAnd<Features> for u64 {
    type Output = u64;

    /// The bits that both the value and the feature have.
    fn bitand(self, rhs: Features) -> (r: u64) {
        self & rhs.bits()
    }
}

impl BitAndSpecImpl<Features> for u64 {
    open spec fn obeys_bitand_spec() -> bool {
        true
    }

    open spec fn bitand_req(self, rhs: Features) -> bool {
        true
    }

    open spec fn bitand_spec(self, rhs: Features) -> u64 {
        self & rhs.mask()
    }
}

impl BitAndAssign<Features> for u64 {
    /// Keeps of the value only the feature's bit.
    fn bitand_assign(&mut self, rhs: Features)
        ensures
            *final(self) == *old(self) & rhs.mask(),
    {
        *self = *self & rhs.bits();
    }
}

impl BitAnd for FeatureSet {
    type Output = FeatureSet;

    /// The intersection of the two sets.
    fn bitand(self, rhs: FeatureSet) -> (r: FeatureSet) {
        FeatureSet(self.0 & rhs.0)
    }
}

impl BitAndSpecImpl for FeatureSet {
    open spec fn obeys_bitand_spec() -> bool {
        true
    }

    open spec fn bitand_req(self, rhs: FeatureSet) -> bool {
        true
    }

    open spec fn bitand_spec(self, rhs: FeatureSet) -> FeatureSet {
        FeatureSet(self@ & rhs@)
    }
}

impl BitAnd<FeatureSet> for u64 {
    type Output = u64;

    /// The bits of the value that the set has too.
    fn bitand(self, rhs: FeatureSet) -> (r: u64) {
        self & rhs.0
    }
}

impl BitAndSpecImpl<FeatureSet> for u64 {
    open spec fn obeys_bitand_spec() -> bool {
        true
    }

    open spec fn bitand_req(self, rhs: FeatureSet) -> bool {
        true
    }

    open spec fn bitand_spec(self, rhs: FeatureSet) -> u64 {
        self & rhs@
    }
}

impl BitAndAssign<FeatureSet> for u64 {
    /// Keeps of the value only the bits that the set has.
    fn bitand_assign(&mut self, rhs: FeatureSet)
        ensures
            *final(self) == *old(self) & rhs@,
    {
        *self = *self & rhs.0;
    }
}

impl BitOrAssign<Features> for FeatureSet {
    /// Adds the feature to the set.
    fn bitor_assign(&mut self, rhs: Features)
        ensures
            final(self)@ == old(self)@ | rhs.mask(),
    {
        self.0 = self.0 | rhs.bits();
    }
}

} // verus!
