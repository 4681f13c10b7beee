use crate::pose::Pose;
use vstd::prelude::*;

verus! {

/// Output dimension (pixels) below which the decorative background
/// layer is hidden for legibility.
pub const LEGIBILITY_THRESHOLD: u32 = 128;

/// The independently addressable named layers of the illustration
/// that the variant selector controls.
#[derive(Clone, Copy, PartialEq, Eq, Structural, Debug)]
pub enum LayerId {
    LeftPawUp,
    LeftPawDown,
    RightPawUp,
    RightPawDown,
    /// The decorative background detail.
    Decor,
}

/// Per-layer visibility for one compiled pose at one output size.
#[derive(Clone, Copy, PartialEq, Eq, Structural, Debug)]
pub struct StyleOverride {
    pub left_up_visible: bool,
    pub left_down_visible: bool,
    pub right_up_visible: bool,
    pub right_down_visible: bool,
    pub decor_visible: bool,
}

impl StyleOverride {
    pub open spec fn spec_visible(self, layer: LayerId) -> bool {
        match layer {
            LayerId::LeftPawUp => self.left_up_visible,
            LayerId::LeftPawDown => self.left_down_visible,
            LayerId::RightPawUp => self.right_up_visible,
            LayerId::RightPawDown => self.right_down_visible,
            LayerId::Decor => self.decor_visible,
        }
    }
}

/// The style override owed for target size `(w, h)` and `pose`: of
/// each paw's layer pair exactly the one matching the pose is shown,
/// and the decorative layer is hidden when either dimension falls
/// below the legibility threshold.
pub open spec fn spec_style(w: u32, h: u32, pose: Pose) -> StyleOverride {
    StyleOverride {
        left_up_visible: pose.spec_left_up(),
        left_down_visible: !pose.spec_left_up(),
        right_up_visible: pose.spec_right_up(),
        right_down_visible: !pose.spec_right_up(),
        decor_visible: w >= LEGIBILITY_THRESHOLD && h >= LEGIBILITY_THRESHOLD,
    }
}

/// Build the style override for one pose at one target size. The
/// accompanying raster transform is the anisotropic scale pair
/// `(w / natural_width, h / natural_height)`, applied by the
/// rasterizing caller; it preserves no aspect ratio.
pub fn style_for(w: u32, h: u32, pose: Pose) -> (s: StyleOverride)
    ensures
        s == spec_style(w, h, pose),
{
    StyleOverride {
        left_up_visible: pose.left_up(),
        left_down_visible: !pose.left_up(),
        right_up_visible: pose.right_up(),
        right_down_visible: !pose.right_up(),
        decor_visible: w >= LEGIBILITY_THRESHOLD && h >= LEGIBILITY_THRESHOLD,
    }
}

/// The layers a renderer must hide for `(w, h, pose)`: exactly those
/// the style override marks invisible, each listed once.
pub fn hidden_layers(w: u32, h: u32, pose: Pose) -> (r: Vec<LayerId>)
    ensures
        forall|i: int|
            0 <= i < r@.len() ==> !spec_style(w, h, pose).spec_visible(#[trigger] r@[i]),
        forall|l: LayerId| !spec_style(w, h, pose).spec_visible(l) ==> r@.contains(l),
        forall|i: int, j: int| 0 <= i < j < r@.len() ==> r@[i] != r@[j],
{
    let mut r: Vec<LayerId> = Vec::new();
    if w < LEGIBILITY_THRESHOLD || h < LEGIBILITY_THRESHOLD {
        r.push(LayerId::Decor);
    }
    if pose.left_up() {
        r.push(LayerId::LeftPawDown);
    } else {
        r.push(LayerId::LeftPawUp);
    }
    if pose.right_up() {
        r.push(LayerId::RightPawDown);
    } else {
        r.push(LayerId::RightPawUp);
    }
    proof {
        assert forall|l: LayerId| !spec_style(w, h, pose).spec_visible(l) implies r@.contains(
            l,
        ) by {
            if l == LayerId::Decor {
                assert(r@[0] == LayerId::Decor);
            } else if l == LayerId::LeftPawUp || l == LayerId::LeftPawDown {
                assert(r@[r@.len() - 2] == l);
            } else {
                assert(r@[r@.len() - 1] == l);
            }
        }
    }
    r
}

/// For every compiled pose, at every output size, exactly one of the
/// paired left-paw layers and exactly one of the paired right-paw
/// layers is visible.
pub proof fn lemma_variant_exclusivity(w: u32, h: u32, pose: Pose)
    ensures
        spec_style(w, h, pose).spec_visible(LayerId::LeftPawUp) != spec_style(
            w,
            h,
            pose,
        ).spec_visible(LayerId::LeftPawDown),
        spec_style(w, h, pose).spec_visible(LayerId::RightPawUp) != spec_style(
            w,
            h,
            pose,
        ).spec_visible(LayerId::RightPawDown),
{
}

} // verus!
