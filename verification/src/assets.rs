use crate::canvas::Canvas;
use crate::packer::{pack, packs, PackedBitmap};
use crate::pose::Pose;
use vstd::prelude::*;

verus! {

/// Build-time choice of which optional poses to compile. The default
/// pose is always compiled.
#[derive(Clone, Copy, PartialEq, Eq, Structural, Debug)]
pub struct PoseConfig {
    pub left: bool,
    pub right: bool,
    pub both: bool,
}

/// The poses compiled for a configuration: the default pose first,
/// then each requested optional pose in left, right, both order.
pub open spec fn spec_configured_poses(cfg: PoseConfig) -> Seq<Pose> {
    seq![Pose::Default] + (if cfg.left {
        seq![Pose::LeftUp]
    } else {
        Seq::empty()
    }) + (if cfg.right {
        seq![Pose::RightUp]
    } else {
        Seq::empty()
    }) + (if cfg.both {
        seq![Pose::BothUp]
    } else {
        Seq::empty()
    })
}

/// List the poses to compile for a configuration.
pub fn poses_for(cfg: &PoseConfig) -> (r: Vec<Pose>)
    ensures
        r@ == spec_configured_poses(*cfg),
{
    let mut r: Vec<Pose> = Vec::new();
    r.push(Pose::Default);
    if cfg.left {
        r.push(Pose::LeftUp);
    }
    if cfg.right {
        r.push(Pose::RightUp);
    }
    if cfg.both {
        r.push(Pose::BothUp);
    }
    proof {
        assert(r@ =~= spec_configured_poses(*cfg));
    }
    r
}

/// The immutable output of one asset compilation: a packed bitmap per
/// compiled pose, all sharing one width and height.
pub struct CompiledAssets {
    pub width: u32,
    pub height: u32,
    pub default_bitmap: PackedBitmap,
    pub left_up: Option<PackedBitmap>,
    pub right_up: Option<PackedBitmap>,
    pub both_up: Option<PackedBitmap>,
}

impl CompiledAssets {
    /// Every bound bitmap is well-formed and has the shared size.
    pub open spec fn wf(self) -> bool {
        &&& self.default_bitmap.wf()
        &&& self.default_bitmap.width == self.width
        &&& self.default_bitmap.height == self.height
        &&& (self.left_up matches Some(b) ==> b.wf() && b.width == self.width && b.height
            == self.height)
        &&& (self.right_up matches Some(b) ==> b.wf() && b.width == self.width && b.height
            == self.height)
        &&& (self.both_up matches Some(b) ==> b.wf() && b.width == self.width && b.height
            == self.height)
    }

    /// The compiled bitmap bound to a pose, if that pose was compiled.
    pub fn bitmap_for(&self, pose: Pose) -> (r: Option<&PackedBitmap>)
        ensures
            r is Some <==> self.bitmap_for_spec(pose) is Some,
            r matches Some(b) ==> *b == self.bitmap_for_spec(pose)->Some_0,
    {
        match pose {
            Pose::Default => Some(&self.default_bitmap),
            Pose::LeftUp => self.left_up.as_ref(),
            Pose::RightUp => self.right_up.as_ref(),
            Pose::BothUp => self.both_up.as_ref(),
        }
    }

    /// The bitmap the animation blits for a frame pose: the compiled
    /// bitmap for it, or the default bitmap when that pose was not
    /// compiled.
    pub fn frame_bitmap(&self, pose: Pose) -> (r: &PackedBitmap)
        ensures
            r == (match self.bitmap_for_spec(pose) {
                Some(b) => b,
                None => self.default_bitmap,
            }),
    {
        match self.bitmap_for(pose) {
            Some(b) => b,
            None => &self.default_bitmap,
        }
    }

    /// The bitmap bound to a pose, as a value.
    pub open spec fn bitmap_for_spec(self, pose: Pose) -> Option<PackedBitmap> {
        match pose {
            Pose::Default => Some(self.default_bitmap),
            Pose::LeftUp => self.left_up,
            Pose::RightUp => self.right_up,
            Pose::BothUp => self.both_up,
        }
    }
}

/// Pack one rendered canvas and bind each result under its pose: the
/// build-time emitter step that turns the rasterizer's output into
/// the immutable constants the runtime consumes. Every canvas must
/// have been rendered at the same target size.
pub fn emit_assets(
    default_canvas: &Canvas,
    left: Option<&Canvas>,
    right: Option<&Canvas>,
    both: Option<&Canvas>,
) -> (r: CompiledAssets)
    requires
        default_canvas.wf(),
        left matches Some(c) ==> c.wf() && c.width == default_canvas.width && c.height
            == default_canvas.height,
        right matches Some(c) ==> c.wf() && c.width == default_canvas.width && c.height
            == default_canvas.height,
        both matches Some(c) ==> c.wf() && c.width == default_canvas.width && c.height
            == default_canvas.height,
    ensures
        r.wf(),
        r.width == default_canvas.width,
        r.height == default_canvas.height,
        packs(*default_canvas, r.default_bitmap),
        r.left_up is Some <==> left is Some,
        r.right_up is Some <==> right is Some,
        r.both_up is Some <==> both is Some,
        left matches Some(c) ==> packs(*c, r.left_up->Some_0),
        right matches Some(c) ==> packs(*c, r.right_up->Some_0),
        both matches Some(c) ==> packs(*c, r.both_up->Some_0),
{
    let default_bitmap = pack(default_canvas);
    let left_up = match left {
        Some(c) => Some(pack(c)),
        None => None,
    };
    let right_up = match right {
        Some(c) => Some(pack(c)),
        None => None,
    };
    let both_up = match both {
        Some(c) => Some(pack(c)),
        None => None,
    };
    CompiledAssets {
        width: default_canvas.width,
        height: default_canvas.height,
        default_bitmap,
        left_up,
        right_up,
        both_up,
    }
}

} // verus!
