use raytox::scalar::Scalar;
use raytox::tracer::{lighting, step, Action, Event, Lighting, MAX_DEPTH};

fn scalar(x: f64) -> Scalar {
    Scalar::from_bits(x.to_bits())
}

#[test]
fn camera_rays_are_followed_five_deep() {
    assert_eq!(MAX_DEPTH, 5);
}

#[test]
fn spent_ray_sees_background() {
    assert_eq!(step(0, Event::Cast), Action::Background);
    assert_eq!(step(0, Event::Missed), Action::Background);
    assert_eq!(step(0, Event::Shaded { reflectance: scalar(1.0) }), Action::Background);
}

#[test]
fn ray_that_hits_nothing_sees_background() {
    assert_eq!(step(5, Event::Cast), Action::Search);
    assert_eq!(step(5, Event::Missed), Action::Background);
    assert_eq!(step(1, Event::Missed), Action::Background);
}

#[test]
fn matte_material_shows_local_colour() {
    assert_eq!(step(5, Event::Shaded { reflectance: scalar(0.0) }), Action::Local);
    assert_eq!(step(1, Event::Shaded { reflectance: scalar(-0.0) }), Action::Local);
}

#[test]
fn reflecting_material_spends_a_ray() {
    assert_eq!(step(5, Event::Shaded { reflectance: scalar(0.1) }), Action::Reflect { depth: 4 });
    assert_eq!(step(1, Event::Shaded { reflectance: scalar(1.0) }), Action::Reflect { depth: 0 });
    assert_eq!(
        step(u32::MAX, Event::Shaded { reflectance: scalar(f64::NAN) }),
        Action::Reflect { depth: u32::MAX - 1 }
    );
}

type Colour = [f64; 3];

fn clamped(c: Colour) -> Colour {
    [c[0].clamp(0.0, 1.0), c[1].clamp(0.0, 1.0), c[2].clamp(0.0, 1.0)]
}

fn scaled(c: Colour, by: f64) -> Colour {
    let by = by.clamp(0.0, 1.0);
    clamped([c[0] * by, c[1] * by, c[2] * by])
}

fn blended(reflected: Colour, local: Colour, reflectance: f64) -> Colour {
    let a = scaled(reflected, reflectance);
    let b = scaled(local, 1.0 - reflectance);
    clamped([a[0] + b[0], a[1] + b[1], a[2] + b[2]])
}

/// Traces a ray between mirrors that face each other, with no light
/// around: every ray hits a mirror, whose local colour is black.
fn trace_between_mirrors(depth: u32, background: Colour, rays: &mut u32) -> Colour {
    let reflectance = 1.0;
    let local = [0.0, 0.0, 0.0];
    match step(depth, Event::Cast) {
        Action::Search => {
            *rays += 1;
            match step(depth, Event::Shaded { reflectance: scalar(reflectance) }) {
                Action::Reflect { depth } => {
                    blended(trace_between_mirrors(depth, background, rays), local, reflectance)
                },
                Action::Local => local,
                _ => background,
            }
        },
        _ => background,
    }
}

#[test]
fn mirrors_bottom_out_in_background() {
    let background = [0.0, 0.03, 0.03];
    let mut rays = 0;
    assert_eq!(trace_between_mirrors(MAX_DEPTH, background, &mut rays), background);
    assert_eq!(rays, 5);
}

#[test]
fn light_adds_both_terms_where_seen() {
    assert_eq!(
        lighting(None, scalar(10.0), scalar(0.5), scalar(0.25)),
        Lighting { diffuse: true, specular: true }
    );
    assert_eq!(
        lighting(None, scalar(10.0), scalar(0.5), scalar(-0.25)),
        Lighting { diffuse: true, specular: false }
    );
    assert_eq!(
        lighting(None, scalar(10.0), scalar(-0.5), scalar(0.25)),
        Lighting { diffuse: false, specular: true }
    );
    assert_eq!(
        lighting(None, scalar(10.0), scalar(0.0), scalar(0.0)),
        Lighting { diffuse: false, specular: false }
    );
}

#[test]
fn light_behind_an_obstacle_adds_nothing() {
    assert_eq!(
        lighting(Some(scalar(4.0)), scalar(10.0), scalar(0.5), scalar(0.25)),
        Lighting { diffuse: false, specular: false }
    );
}

#[test]
fn obstacle_beyond_the_light_casts_no_shadow() {
    assert_eq!(
        lighting(Some(scalar(12.0)), scalar(10.0), scalar(0.5), scalar(0.25)),
        Lighting { diffuse: true, specular: true }
    );
    assert_eq!(
        lighting(Some(scalar(10.0)), scalar(10.0), scalar(0.5), scalar(-1.0)),
        Lighting { diffuse: true, specular: false }
    );
    assert_eq!(
        lighting(Some(scalar(f64::NAN)), scalar(10.0), scalar(0.5), scalar(0.5)),
        Lighting { diffuse: true, specular: true }
    );
}
