//! The scene: what is seen, and what lights it.
use vstd::prelude::*;
use crate::geometry::bounds::Bounds3;
use crate::geometry::interaction::Interaction;
use crate::scene::light::LightInstance;
use crate::scene::primitive::PrimitiveInstance;

verus! {

pub struct Scene {
    pub lights: Vec<LightInstance>,
    pub root: PrimitiveInstance,
    pub world_bounds: Bounds3,
}

impl Scene {
    /// A scene of a root primitive, whose box in world space is
    /// `world_bounds`, and lights.
    pub fn new(root: PrimitiveInstance, lights: Vec<LightInstance>, world_bounds: Bounds3) -> (r: Scene)
        ensures
            r.root == root,
            r.lights@ == lights@,
            r.world_bounds == world_bounds,
    {
        let mut scene = Scene { lights: Vec::new(), root, world_bounds };
        let mut i: usize = 0;
        while i < lights.len()
            invariant
                i <= lights@.len(),
                scene.root == root,
                scene.world_bounds == world_bounds,
                scene.lights@ == lights@.subrange(0, i as int),
            decreases lights@.len() - i,
        {
            let mut light = lights[i];
            light.preprocess(&scene.world_bounds);
            scene.lights.push(light);
            assert(scene.lights@ =~= lights@.subrange(0, i + 1));
            i += 1;
        }
        assert(scene.lights@ =~= lights@);
        scene
    }

    /// Whether anything is in the way of a ray: its nearest hit, as the
    /// root primitive found it, exists.
    pub fn any_intersect(nearest: &Option<Interaction>) -> (r: bool)
        ensures
            r == (*nearest is Some),
    {
        nearest.is_some()
    }
}

} // verus!
