use crate::animation::KeyframeAnimationComponent;
use vstd::prelude::*;

verus! {

// The entity/component container, reframed as a fixed, closed set of typed
// slots: the component kinds are fixed and small, so each known kind has a
// place of its own rather than an entry in a type-erased map. The
// render-side kinds (transform, mesh, material) wrap GPU resources and
// live with the renderer outside this library; the slot the library owns
// carries the core's animation state.

/// The known component kinds.
#[derive(Clone, Copy, Debug, PartialEq, Eq, Structural)]
pub enum ComponentType {
    Transform,
    Mesh,
    Material,
    KeyframeAnimation,
}

impl ComponentType {
    /// The stable tag of each kind.
    pub open spec fn type_id_spec(self) -> u64 {
        match self {
            ComponentType::Transform => 1,
            ComponentType::Mesh => 2,
            ComponentType::Material => 3,
            ComponentType::KeyframeAnimation => 4,
        }
    }

    /// A small stable tag identifying this kind.
    pub fn get_type_id(&self) -> (r: u64)
        ensures
            r == self.type_id_spec(),
    {
        match *self {
            ComponentType::Transform => 1,
            ComponentType::Mesh => 2,
            ComponentType::Material => 3,
            ComponentType::KeyframeAnimation => 4,
        }
    }
}

/// Implemented by component types to name their kind.
pub trait Component {
    fn get_type() -> ComponentType;
}

impl Component for KeyframeAnimationComponent {
    fn get_type() -> (r: ComponentType) {
        ComponentType::KeyframeAnimation
    }
}

/// An entity: one optional slot per component kind the library owns.
pub struct Entity {
    pub keyframe_animation: Option<KeyframeAnimationComponent>,
}

impl Entity {
    /// An entity with every slot empty.
    pub fn new() -> (r: Entity)
        ensures
            r.keyframe_animation is None,
    {
        Entity { keyframe_animation: None }
    }

    /// Fills the animation slot, replacing what it held.
    pub fn add_component(&mut self, component: KeyframeAnimationComponent)
        ensures
            final(self).keyframe_animation matches Some(c) && c == component,
    {
        self.keyframe_animation = Some(component);
    }

    /// The animation component, when the slot is filled.
    pub fn get_component(&self) -> (r: Option<&KeyframeAnimationComponent>)
        ensures
            (r is Some) == (self.keyframe_animation is Some),
            r matches Some(c) ==> *c == self.keyframe_animation.unwrap(),
    {
        match &self.keyframe_animation {
            Some(c) => Some(c),
            None => None,
        }
    }
}

} // verus!
