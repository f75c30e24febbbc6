//! Camera state: the committed and the pending pose of one camera.
use vstd::prelude::*;

use crate::fixed::{Vec3, ONE};

verus! {

/// Largest magnitude of a world position's coordinate (ten million units).
pub const WORLD_MAX: i64 = 100_000_000_000;

/// Whether `v` may stand as a world position.
pub open spec fn pos_ok(v: Vec3) -> bool {
    -WORLD_MAX <= v.x <= WORLD_MAX && -WORLD_MAX <= v.y <= WORLD_MAX && -WORLD_MAX <= v.z
        <= WORLD_MAX
}

/// Whether each coordinate of `v` lies in `[-ONE, ONE]`, as those of a
/// direction at most `ONE` long do.
pub open spec fn dir_ok(v: Vec3) -> bool {
    -ONE <= v.x <= ONE && -ONE <= v.y <= ONE && -ONE <= v.z <= ONE
}

/// Whether `v` may stand as a world position.
pub fn in_world(v: Vec3) -> (r: bool)
    ensures
        r == pos_ok(v),
{
    -WORLD_MAX <= v.x && v.x <= WORLD_MAX && -WORLD_MAX <= v.y && v.y <= WORLD_MAX && -WORLD_MAX
        <= v.z && v.z <= WORLD_MAX
}

/// Position and viewing direction of a camera. `forward` stands for the
/// orientation; where the rig itself set it, it is at most `ONE` long.
#[derive(Clone, Copy, Debug, PartialEq, Eq, Structural)]
pub struct Transform {
    pub translation: Vec3,
    pub forward: Vec3,
}

impl Transform {
    pub open spec fn wf(self) -> bool {
        pos_ok(self.translation) && dir_ok(self.forward)
    }

    /// The identity transform: at the origin, looking along -Z.
    pub fn identity() -> (r: Transform)
        ensures
            r == (Transform {
                translation: Vec3 { x: 0, y: 0, z: 0 },
                forward: Vec3 { x: 0, y: 0, z: -ONE as i64 },
            }),
            r.wf(),
    {
        Transform { translation: Vec3::zero(), forward: Vec3::new(0, 0, -ONE) }
    }
}

/// One full camera placement: the eye and the point it looks at.
#[derive(Clone, Copy, Debug, PartialEq, Eq, Structural)]
pub struct CameraPosition {
    pub eye: Transform,
    pub target: Vec3,
}

impl CameraPosition {
    pub open spec fn wf(self) -> bool {
        self.eye.wf() && pos_ok(self.target)
    }

    /// The default placement: identity eye, target at the origin.
    pub fn initial() -> (r: CameraPosition)
        ensures
            r.eye == (Transform {
                translation: Vec3 { x: 0, y: 0, z: 0 },
                forward: Vec3 { x: 0, y: 0, z: -ONE as i64 },
            }),
            r.target == (Vec3 { x: 0, y: 0, z: 0 }),
            r.wf(),
    {
        CameraPosition { eye: Transform::identity(), target: Vec3::zero() }
    }
}

/// The rig of one controllable camera: `current` is the pose committed at
/// the end of the last frame, `pending` the pose being computed this frame.
#[derive(Clone, Copy, Debug, PartialEq, Eq, Structural)]
pub struct MainCamera {
    pub current: CameraPosition,
    pub pending: CameraPosition,
    pub up: Vec3,
}

impl Default for MainCamera {
    /// Same as `MainCamera::new`.
    fn default() -> (r: MainCamera)
        ensures
            r.current == r.pending,
            r.current.eye.translation == (Vec3 { x: 0, y: 0, z: 0 }),
            r.current.eye.forward == (Vec3 { x: 0, y: 0, z: -ONE as i64 }),
            r.current.target == (Vec3 { x: 0, y: 0, z: 0 }),
            r.up == (Vec3 { x: 0, y: ONE, z: 0 }),
            r.wf(),
    {
        MainCamera::new()
    }
}

impl MainCamera {
    pub open spec fn wf(self) -> bool {
        self.current.wf() && self.pending.wf() && self.up.wf()
    }

    /// Both poses at their default, world up (+Y).
    pub fn new() -> (r: MainCamera)
        ensures
            r.current == r.pending,
            r.current.eye.translation == (Vec3 { x: 0, y: 0, z: 0 }),
            r.current.eye.forward == (Vec3 { x: 0, y: 0, z: -ONE as i64 }),
            r.current.target == (Vec3 { x: 0, y: 0, z: 0 }),
            r.up == (Vec3 { x: 0, y: ONE, z: 0 }),
            r.wf(),
    {
        MainCamera {
            current: CameraPosition::initial(),
            pending: CameraPosition::initial(),
            up: Vec3::new(0, ONE, 0),
        }
    }

    /// Sets the point the camera is to follow this frame.
    pub fn set_target(&mut self, target: Vec3) -> (r: &mut Self)
        ensures
            *final(r) == *final(self),
            (*r == MainCamera {
                pending: CameraPosition { target, ..old(self).pending },
                ..*old(self)
            }),
    {
        self.pending.target = target;
        self
    }

    /// Sets the up axis; keeping it of length `ONE` is the caller's part.
    pub fn set_up(&mut self, up: Vec3) -> (r: &mut Self)
        ensures
            *final(r) == *final(self),
            (*r == MainCamera { up, ..*old(self) }),
    {
        self.up = up;
        self
    }

    /// Viewing direction of the pending eye.
    pub fn forward(&self) -> (r: Vec3)
        ensures
            r == self.pending.eye.forward,
    {
        self.pending.eye.forward
    }

    /// Starts the committed eye where the camera entity already stands, so
    /// that the camera does not jump when it appears.
    pub fn init_eye(&mut self, eye: Transform)
        ensures
            (*final(self) == MainCamera {
                current: CameraPosition { eye, ..old(self).current },
                ..*old(self)
            }),
    {
        self.current.eye = eye;
    }
}

} // verus!
