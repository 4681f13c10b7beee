use vstd::prelude::*;

verus! {

/// The closed set of animation poses: which paws are raised.
#[derive(Clone, Copy, PartialEq, Eq, Structural, Debug)]
pub enum Pose {
    /// Both paws down: the resting pose.
    Default,
    /// Only the left paw raised.
    LeftUp,
    /// Only the right paw raised.
    RightUp,
    /// Both paws raised.
    BothUp,
}

impl Pose {
    /// Whether the left paw is raised in this pose.
    pub open spec fn spec_left_up(self) -> bool {
        self == Pose::LeftUp || self == Pose::BothUp
    }

    /// Whether the right paw is raised in this pose.
    pub open spec fn spec_right_up(self) -> bool {
        self == Pose::RightUp || self == Pose::BothUp
    }

    pub fn left_up(self) -> (r: bool)
        ensures
            r == self.spec_left_up(),
    {
        matches!(self, Pose::LeftUp | Pose::BothUp)
    }

    pub fn right_up(self) -> (r: bool)
        ensures
            r == self.spec_right_up(),
    {
        matches!(self, Pose::RightUp | Pose::BothUp)
    }
}

} // verus!
