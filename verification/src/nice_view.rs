use crate::pose::Pose;
use vstd::prelude::*;

verus! {

/// A two-frame animation widget: it carries one parity state and
/// shows the resting frame for even parity, the raised frame for odd.
pub trait AnimationWidget: Sized {
    /// The parity the widget's current frame shows.
    spec fn parity(&self) -> bool;

    fn new() -> (r: Self)
        ensures
            !r.parity(),
    ;

    /// Select the frame: an even value selects the resting frame, an
    /// odd value the raised one.
    fn set(self, value: u8) -> (r: Self)
        ensures
            r.parity() == (value % 2 == 1),
    ;
}

/// The bongo-cat animation widget: alternates between the resting
/// pose and the both-paws-raised pose.
pub struct BongoCat {
    pub up: u8,
}

impl AnimationWidget for BongoCat {
    open spec fn parity(&self) -> bool {
        self.up % 2 == 1
    }

    fn new() -> (r: Self) {
        BongoCat { up: 0 }
    }

    fn set(self, value: u8) -> (r: Self) {
        BongoCat { up: value % 2 }
    }
}

impl BongoCat {
    /// The pose this widget's current frame shows.
    pub fn frame_pose(&self) -> (r: Pose)
        ensures
            r == (if self.parity() {
                Pose::BothUp
            } else {
                Pose::Default
            }),
    {
        if self.up % 2 == 1 {
            Pose::BothUp
        } else {
            Pose::Default
        }
    }
}

/// Fixed geometry of the target memory-in-pixel LCD module: the
/// panel the display transport drives.
pub struct NiceViewDisplaySpec;

impl NiceViewDisplaySpec {
    /// Panel width in pixels.
    pub const WIDTH: u16 = 160;

    /// Panel height in pixels.
    pub const HEIGHT: u16 = 68;

    /// Frame buffer size in bytes: one bit per pixel plus the
    /// transport's per-line overhead, as the panel's driver lays it
    /// out.
    pub const SIZE: usize = 160 * 68 / 2;
}

} // verus!
