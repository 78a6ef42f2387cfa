use vstd::prelude::*;
use vstd::std_specs::ops::{BitAndSpecImpl, NotSpecImpl};

verus! {

/// The camera settings that are kept the same across the viewers.
#[derive(Debug, Clone, Copy, PartialEq, Eq, Structural)]
pub struct SyncFeatures {
    pub shift_x: bool,
    pub shift_y: bool,
    pub scale_x: bool,
    pub scale_y: bool,
}

impl SyncFeatures {
    /// All settings enabled.
    pub fn new() -> (r: Self)
        ensures
            r.shift_x,
            r.shift_y,
            r.scale_x,
            r.scale_y,
    {
        Self { shift_x: true, shift_y: true, scale_x: true, scale_y: true }
    }

    /// True when at least one setting is enabled.
    pub open spec fn spec_any(&self) -> bool {
        self.shift_x || self.shift_y || self.scale_x || self.scale_y
    }

    /// The settings that are disabled in `self`.
    pub open spec fn spec_not(self) -> Self {
        Self {
            shift_x: !self.shift_x,
            shift_y: !self.shift_y,
            scale_x: !self.scale_x,
            scale_y: !self.scale_y,
        }
    }

    /// The settings that are enabled in both.
    pub open spec fn spec_and(self, rhs: Self) -> Self {
        Self {
            shift_x: self.shift_x && rhs.shift_x,
            shift_y: self.shift_y && rhs.shift_y,
            scale_x: self.scale_x && rhs.scale_x,
            scale_y: self.scale_y && rhs.scale_y,
        }
    }

    /// Returns `true` if at least one setting is enabled.
    pub fn any(&self) -> (b: bool)
        ensures
            b == self.spec_any(),
    {
        self.shift_x || self.shift_y || self.scale_x || self.scale_y
    }

    /// Sets all settings to `value`.
    pub fn set_all(&mut self, value: bool)
        ensures
            final(self).shift_x == value,
            final(self).shift_y == value,
            final(self).scale_x == value,
            final(self).scale_y == value,
    {
        self.shift_x = value;
        self.shift_y = value;
        self.scale_x = value;
        self.scale_y = value;
    }

    /// True when `self` enables a setting that `before` did not enable.
    pub fn newly_enabled(&self, before: SyncFeatures) -> (b: bool)
        ensures
            b == before.spec_not().spec_and(*self).spec_any(),
    {
        (!before.shift_x && self.shift_x) || (!before.shift_y && self.shift_y) || (!before.scale_x
            && self.scale_x) || (!before.scale_y && self.scale_y)
    }
}

impl core::ops::Not for SyncFeatures {
    type Output = Self;

    fn not(self) -> (r: Self) {
        Self {
            shift_x: !self.shift_x,
            shift_y: !self.shift_y,
            scale_x: !self.scale_x,
            scale_y: !self.scale_y,
        }
    }
}

impl NotSpecImpl for SyncFeatures {
    open spec fn obeys_not_spec() -> bool {
        true
    }

    open spec fn not_req(self) -> bool {
        true
    }

    open spec fn not_spec(self) -> Self {
        self.spec_not()
    }
}

impl core::ops::BitAnd for SyncFeatures {
    type Output = Self;

    fn bitand(self, rhs: Self) -> (r: Self) {
        Self {
            shift_x: self.shift_x && rhs.shift_x,
            shift_y: self.shift_y && rhs.shift_y,
            scale_x: self.scale_x && rhs.scale_x,
            scale_y: self.scale_y && rhs.scale_y,
        }
    }
}

impl BitAndSpecImpl for SyncFeatures {
    open spec fn obeys_bitand_spec() -> bool {
        true
    }

    open spec fn bitand_req(self, rhs: Self) -> bool {
        true
    }

    open spec fn bitand_spec(self, rhs: Self) -> Self {
        self.spec_and(rhs)
    }
}

} // verus!
