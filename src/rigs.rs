//! The camera rigs of a scene, one per camera entity.
use vstd::prelude::*;

use std::collections::HashMap;

use crate::fixed::{Vec3, ONE};
use crate::rig::{CameraPosition, MainCamera, Transform};

verus! {

broadcast use vstd::std_specs::hash::group_hash_axioms;

/// A new rig for an entity that stands at `eye`: the committed eye starts
/// there, everything else at its default.
pub open spec fn spawned(eye: Transform) -> MainCamera {
    let fresh = CameraPosition {
        eye: Transform {
            translation: Vec3 { x: 0, y: 0, z: 0 },
            forward: Vec3 { x: 0, y: 0, z: -ONE as i64 },
        },
        target: Vec3 { x: 0, y: 0, z: 0 },
    };
    MainCamera {
        current: CameraPosition { eye, ..fresh },
        pending: fresh,
        up: Vec3 { x: 0, y: ONE, z: 0 },
    }
}

/// Owns one `MainCamera` per camera entity, by entity identifier.
pub struct CameraRigs {
    rigs: HashMap<u64, MainCamera>,
}

impl View for CameraRigs {
    type V = Map<u64, MainCamera>;

    closed spec fn view(&self) -> Map<u64, MainCamera> {
        self.rigs@
    }
}

impl CameraRigs {
    /// No rigs.
    pub fn new() -> (r: CameraRigs)
        ensures
            r@ == Map::<u64, MainCamera>::empty(),
    {
        CameraRigs { rigs: HashMap::new() }
    }

    /// Gives `entity`, which stands at `eye`, a new rig, replacing any it had.
    pub fn spawn(&mut self, entity: u64, eye: Transform)
        ensures
            final(self)@ == old(self)@.insert(entity, spawned(eye)),
    {
        let mut camera = MainCamera::new();
        camera.init_eye(eye);
        self.rigs.insert(entity, camera);
    }

    /// Drops the rig of `entity`; whether it had one.
    pub fn despawn(&mut self, entity: u64) -> (r: bool)
        ensures
            r == old(self)@.contains_key(entity),
            final(self)@ == old(self)@.remove(entity),
    {
        self.rigs.remove(&entity).is_some()
    }

    /// The rig of `entity`, if it has one.
    pub fn get(&self, entity: u64) -> (r: Option<MainCamera>)
        ensures
            r == (if self@.contains_key(entity) {
                Some(self@[entity])
            } else {
                None
            }),
    {
        match self.rigs.get(&entity) {
            Some(camera) => Some(*camera),
            None => None,
        }
    }

    /// Stores `camera` as the rig of `entity` where it has one; whether it had.
    pub fn put(&mut self, entity: u64, camera: MainCamera) -> (r: bool)
        ensures
            r == old(self)@.contains_key(entity),
            final(self)@ == (if r {
                old(self)@.insert(entity, camera)
            } else {
                old(self)@
            }),
    {
        if self.rigs.contains_key(&entity) {
            self.rigs.insert(entity, camera);
            true
        } else {
            false
        }
    }

    /// Sets the point that the rig of `entity` follows; whether it has a rig.
    pub fn set_target(&mut self, entity: u64, target: Vec3) -> (r: bool)
        ensures
            r == old(self)@.contains_key(entity),
            final(self)@ == (if r {
                old(self)@.insert(
                    entity,
                    MainCamera {
                        pending: CameraPosition { target, ..old(self)@[entity].pending },
                        ..old(self)@[entity]
                    },
                )
            } else {
                old(self)@
            }),
    {
        match self.get(entity) {
            Some(mut camera) => {
                camera.set_target(target);
                self.put(entity, camera)
            },
            None => false,
        }
    }
}

} // verus!
