//! Shading: how deep a ray is followed, and what each light adds.
use vstd::prelude::*;
use crate::scalar::Scalar;

verus! {

/// Number of rays that a camera ray is followed through: itself and its
/// reflections.
pub const MAX_DEPTH: u32 = 5;

/// What has become of a ray.
#[derive(Debug, Clone, Copy, PartialEq, Eq, Structural)]
pub enum Event {
    /// The ray is about to be traced.
    Cast,
    /// No entity lies on the ray.
    Missed,
    /// The nearest entity on the ray has been shaded; its material reflects
    /// this share of what comes in.
    Shaded { reflectance: Scalar },
}

/// What the tracer does next about a ray.
#[derive(Debug, Clone, Copy, PartialEq, Eq, Structural)]
pub enum Action {
    /// The ray's colour is the background's.
    Background,
    /// Look for the nearest entity on the ray, and shade it.
    Search,
    /// The ray's colour is the local colour of the point hit.
    Local,
    /// Trace the mirrored ray with `depth` rays left, and blend its colour
    /// with the local one by the reflectance.
    Reflect { depth: u32 },
}

/// One step of tracing a ray that has `depth` rays left to spend. A ray with
/// none left, or with nothing on it, sees the background. A ray that hit a
/// material which reflects nothing sees the point's local colour; any other
/// goes on with the mirrored ray, one ray poorer.
pub open spec fn spec_step(depth: u32, event: Event) -> Action {
    if depth == 0 {
        Action::Background
    } else {
        match event {
            Event::Cast => Action::Search,
            Event::Missed => Action::Background,
            Event::Shaded { reflectance } => if reflectance.spec_same(Scalar::spec_zero()) {
                Action::Local
            } else {
                Action::Reflect { depth: (depth - 1) as u32 }
            },
        }
    }
}

/// Decides the next step for a ray.
#[verifier::when_used_as_spec(spec_step)]
pub fn step(depth: u32, event: Event) -> (action: Action)
    ensures
        action == spec_step(depth, event),
        action matches Action::Reflect { depth: rest } ==> rest < depth,
{
    if depth == 0 {
        return Action::Background;
    }
    match event {
        Event::Cast => Action::Search,
        Event::Missed => Action::Background,
        Event::Shaded { reflectance } => {
            if reflectance.same(Scalar::zero()) {
                Action::Local
            } else {
                Action::Reflect { depth: depth - 1 }
            }
        },
    }
}

/// The terms of the reflection model that one light adds at a point. The
/// ambient term is always there.
#[derive(Debug, Clone, Copy, PartialEq, Eq, Structural)]
pub struct Lighting {
    pub diffuse: bool,
    pub specular: bool,
}

/// The point lies in shadow of a light: the shadow ray, cast from the point
/// at the light, hits something at a parameter smaller than the light's
/// distance.
pub open spec fn occluded(shadow: Option<Scalar>, light_distance: Scalar) -> bool {
    shadow matches Some(t) && light_distance.spec_gt(t)
}

/// A light in shadow adds neither term. Else it adds the diffuse term where
/// the surface faces it (`facing`, the light's direction dotted with the
/// normal, is positive), and the specular term where its mirror image is
/// seen (`glint`, the mirrored direction dotted with the view's, is positive).
pub open spec fn spec_lighting(
    shadow: Option<Scalar>,
    light_distance: Scalar,
    facing: Scalar,
    glint: Scalar,
) -> Lighting {
    Lighting {
        diffuse: !occluded(shadow, light_distance) && facing.spec_gt(Scalar::spec_zero()),
        specular: !occluded(shadow, light_distance) && glint.spec_gt(Scalar::spec_zero()),
    }
}

/// Decides which terms a light adds at a point. `shadow` is the parameter of
/// the nearest hit on the shadow ray, if there is one.
#[verifier::when_used_as_spec(spec_lighting)]
pub fn lighting(shadow: Option<Scalar>, light_distance: Scalar, facing: Scalar, glint: Scalar) -> (l:
    Lighting)
    ensures
        l == spec_lighting(shadow, light_distance, facing, glint),
{
    let lit = match shadow {
        Some(t) => !light_distance.gt(t),
        None => true,
    };
    Lighting { diffuse: lit && facing.gt(Scalar::zero()), specular: lit && glint.gt(Scalar::zero()) }
}

/// The action on which a trace ends that starts with `depth` rays left and
/// whose rays hit materials of the given reflectances in turn, the ray after
/// the last of them hitting nothing.
pub open spec fn last_action(depth: u32, reflectances: Seq<Scalar>) -> Action
    decreases reflectances.len(),
{
    if reflectances.len() == 0 {
        spec_step(depth, Event::Missed)
    } else {
        match spec_step(depth, Event::Shaded { reflectance: reflectances[0] }) {
            Action::Reflect { depth: rest } => last_action(rest, reflectances.drop_first()),
            action => action,
        }
    }
}

/// Between mirrors a trace ends in the background: where every material hit
/// reflects, the last ray followed sees the background, be it because it
/// hits nothing or because the depth is spent.
pub proof fn lemma_mirrors_end_in_background(depth: u32, reflectances: Seq<Scalar>)
    requires
        forall|i: int|
            0 <= i < reflectances.len() ==> !(#[trigger] reflectances[i]).spec_same(
                Scalar::spec_zero(),
            ),
    ensures
        last_action(depth, reflectances) == Action::Background,
    decreases reflectances.len(),
{
    if reflectances.len() > 0 && depth > 0 {
        let rest = reflectances.drop_first();
        assert forall|i: int| 0 <= i < rest.len() implies !(#[trigger] rest[i]).spec_same(
            Scalar::spec_zero(),
        ) by {
            assert(rest[i] == reflectances[i + 1]);
        }
        lemma_mirrors_end_in_background((depth - 1) as u32, rest);
    }
}

} // verus!
