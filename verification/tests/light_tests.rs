use freelook::light::{LightKinematics, PointLight};
use freelook::vector::Vector3;

const S: i64 = 65536;

fn demo_light() -> LightKinematics {
    // Center of oscillation three units out on x, oscillation radius 0.4,
    // radial speed 0.5 per second, orbiting about the (0, 1, 1) direction
    // at roughly pi radians per second.
    LightKinematics::new(
        Vector3::new(0, 0, 0),
        S / 2,
        Vector3::new(3 * S, 0, 0),
        2 * S / 5,
        Vector3::new(0, S, S),
        205887,
    )
}

#[test]
fn point_light_holds_colors() {
    let ambient = Vector3::new(S / 5, S / 5, S / 5);
    let diffuse = Vector3::new(S / 2, S / 2, S / 2);
    let specular = Vector3::new(S, S, S);
    let light = PointLight::new(ambient, diffuse, specular);
    assert_eq!(light.ambient, ambient);
    assert_eq!(light.diffuse, diffuse);
    assert_eq!(light.specular, specular);
}

#[test]
fn light_starts_at_center_of_oscillation() {
    let l = demo_light();
    assert_eq!(l.position(), Vector3::new(3 * S, 0, 0));
    assert_eq!(l.radial_unit_velocity, 1);
    assert_eq!(l.distance, 3 * S);
    // The orbital axis is normalized: (0, 1, 1) becomes half sqrt(2) in
    // each nonzero component.
    let ax = l.orbital_axis;
    assert_eq!(ax.x, 0);
    assert_eq!(ax.y, ax.z);
    let len = ((ax.y as f64).powi(2) + (ax.z as f64).powi(2)).sqrt() / S as f64;
    assert!((len - 1.0).abs() < 1e-4, "axis length {}", len);
}

#[test]
fn radial_distance_stays_in_band() {
    // The oscillation law: for all elapsed times, the scalar distance
    // stays within [d - r, d + r] around the center distance d = 3.
    let mut l = demo_light();
    let d = 3 * S;
    let r = 2 * S / 5;
    for i in 0..10_000u32 {
        let dt = 328 + (i % 11) as i64;
        l.update(dt);
        assert!(d - r <= l.distance && l.distance <= d + r, "distance {}", l.distance);
        // The Euclidean distance of the actual position tracks the scalar
        // state to within the fixed-point quantization.
        let p = l.position();
        let euclid = ((p.x as f64).powi(2) + (p.y as f64).powi(2) + (p.z as f64).powi(2)).sqrt()
            / S as f64;
        let lo = (d - r) as f64 / S as f64 - 0.02;
        let hi = (d + r) as f64 / S as f64 + 0.02;
        assert!(lo <= euclid && euclid <= hi, "euclidean distance {}", euclid);
    }
}

#[test]
fn radial_velocity_flips_at_band_edges() {
    let mut l = demo_light();
    let mut seen_out = false;
    let mut seen_in = false;
    for _ in 0..10_000u32 {
        l.update(655);
        if l.radial_unit_velocity == 1 {
            seen_out = true;
        }
        if l.radial_unit_velocity == -1 {
            seen_in = true;
        }
    }
    assert!(seen_out && seen_in, "the radial oscillation never turned around");
}

#[test]
fn light_position_orbits() {
    // With a nonzero orbital speed the light leaves the x axis.
    let mut l = demo_light();
    for _ in 0..100 {
        l.update(655);
    }
    let p = l.position();
    assert!(p.y != 0 || p.z != 0, "light never orbited: {:?}", p);
}

#[test]
fn model_mat_is_translation_to_position() {
    let mut l = demo_light();
    l.update(655);
    let m = l.model_mat();
    let p = l.position();
    assert_eq!((m.c3.x, m.c3.y, m.c3.z, m.c3.w), (p.x, p.y, p.z, S));
    assert_eq!((m.c0.x, m.c1.y, m.c2.z), (S, S, S));
    assert_eq!((m.c0.y, m.c0.z, m.c0.w), (0, 0, 0));
}

#[test]
fn zero_elapsed_keeps_distance() {
    let mut l = demo_light();
    l.update(0);
    assert_eq!(l.distance, 3 * S);
    let p = l.position();
    // The position is re-derived from the unit radial direction, so it can
    // move by at most the quantization of that direction.
    let euclid = ((p.x as f64).powi(2) + (p.y as f64).powi(2) + (p.z as f64).powi(2)).sqrt()
        / S as f64;
    assert!((euclid - 3.0).abs() < 0.01, "distance after idle frame {}", euclid);
}
