//! Orbiting point lights: static colors and the orbital kinematics of a
//! light that oscillates radially about a center of oscillation while
//! rotating about a fixed axis through the scene center.

use crate::fixed::{
    lemma_mul_bounds, sat, sat_i128, sqrt_floor, tdiv, tdiv_i128, SAT_LIMIT, SCALE,
};
use crate::matrix::{translation_mat, translation_of, Matrix4};
use crate::quaternion::{axis_quat, axis_quat_val, lemma_qnormsq_pos, rotate3, rotate3_val};
use crate::trig::{cos_rad, sin_rad};
use crate::vector::{
    bounded3, lemma_normsq3_cases, normsq3, normsq3_exec, sub3, sub3_sat, unit3, unit3_exec, v3,
    Vector3,
};
use vstd::prelude::*;

verus! {

/// The color triple of one point light.
#[derive(Clone, Copy, Debug, PartialEq, Eq, Structural)]
#[verifier::ext_equal]
pub struct PointLight {
    pub ambient: Vector3,
    pub diffuse: Vector3,
    pub specular: Vector3,
}

impl PointLight {
    /// Gather the color components of a point light.
    pub fn new(ambient: Vector3, diffuse: Vector3, specular: Vector3) -> (r: PointLight)
        ensures
            r == (PointLight { ambient, diffuse, specular }),
    {
        PointLight { ambient, diffuse, specular }
    }
}

/// Positions fed to the light kinematics stay below this bound, so that
/// the derived radial distances fit comfortably in `i64`.
pub const LIGHT_POS_LIMIT: i64 = 0x1000_0000_0000_0000;

/// The distance from the scene center to the center of oscillation.
pub open spec fn center_distance(scene_center: Vector3, center_of_oscillation: Vector3) -> int {
    sqrt_floor(normsq3(sub3(v3(center_of_oscillation), v3(scene_center))) as nat) as int
}

/// The orbital state of one point light.
#[derive(Clone, Copy, Debug, PartialEq, Eq, Structural)]
#[verifier::ext_equal]
pub struct LightKinematics {
    pub scene_center: Vector3,
    pub radial_speed: i64,
    pub center_of_oscillation: Vector3,
    pub radius_of_oscillation: i64,
    pub position: Vector3,
    pub radial_unit_velocity: i64,
    pub orbital_axis: Vector3,
    pub orbital_speed: i64,
    pub distance: i64,
    pub radial_dir: Vector3,
}

/// Well-formedness of a light's orbital state: the scalar distance from the
/// scene center always lies in the oscillation band around the center of
/// oscillation's own distance, and the radial velocity is a pure sign.
pub open spec fn light_wf(l: LightKinematics) -> bool {
    let d = center_distance(l.scene_center, l.center_of_oscillation);
    &&& 1 <= d
    &&& 0 <= l.radius_of_oscillation <= d
    &&& d - l.radius_of_oscillation <= l.distance as int <= d + l.radius_of_oscillation
    &&& l.radial_unit_velocity == 1 || l.radial_unit_velocity == -1
    &&& bounded3(v3(l.scene_center), LIGHT_POS_LIMIT as int)
    &&& bounded3(v3(l.center_of_oscillation), LIGHT_POS_LIMIT as int)
    &&& bounded3(v3(l.position), SAT_LIMIT as int)
    &&& bounded3(v3(l.orbital_axis), SCALE as int)
    &&& bounded3(v3(l.radial_dir), SCALE as int)
}

/// The light's state at construction: it sits at the center of
/// oscillation, moving radially outward, with a normalized orbital axis.
pub open spec fn light_new_val(
    scene_center: Vector3,
    radial_speed: i64,
    center_of_oscillation: Vector3,
    radius_of_oscillation: i64,
    orbital_axis: Vector3,
    orbital_speed: i64,
) -> LightKinematics {
    let axis_unit = unit3(v3(orbital_axis));
    let dir = unit3(sub3(v3(center_of_oscillation), v3(scene_center)));
    LightKinematics {
        scene_center: scene_center,
        radial_speed: radial_speed,
        center_of_oscillation: center_of_oscillation,
        radius_of_oscillation: radius_of_oscillation,
        position: center_of_oscillation,
        radial_unit_velocity: 1,
        orbital_axis: Vector3 { x: axis_unit.0 as i64, y: axis_unit.1 as i64, z: axis_unit.2 as i64 },
        orbital_speed: orbital_speed,
        distance: center_distance(scene_center, center_of_oscillation) as i64,
        radial_dir: Vector3 { x: dir.0 as i64, y: dir.1 as i64, z: dir.2 as i64 },
    }
}

/// The light's state after one frame: the radial distance advances with
/// the current radial velocity and is clamped into the oscillation band,
/// flipping the velocity at either boundary; then the radial direction is
/// rotated about the orbital axis by the elapsed orbital angle, and the
/// position is re-derived from the scene center, the direction and the
/// distance.
pub open spec fn light_step(l: LightKinematics, elapsed: int) -> LightKinematics {
    let vel = if l.radial_unit_velocity < 0 {
        -1int
    } else {
        1int
    };
    let d = center_distance(l.scene_center, l.center_of_oscillation);
    let peri = d - l.radius_of_oscillation;
    let aph = d + l.radius_of_oscillation;
    let step = sat(tdiv((l.radial_speed as int) * elapsed, SCALE as int));
    let moved = l.distance + (if vel < 0 {
        -step
    } else {
        step
    });
    let dist2 = if moved < peri {
        peri
    } else if moved > aph {
        aph
    } else {
        moved
    };
    let vel2 = if moved < peri {
        1int
    } else if moved > aph {
        -1int
    } else {
        vel
    };
    let ang = sat(tdiv((l.orbital_speed as int) * elapsed, SCALE as int));
    let half = tdiv(ang, 2);
    let q = axis_quat_val(v3(l.orbital_axis), sin_rad(half), cos_rad(half));
    let rotated = if q.x == 0 && q.y == 0 && q.z == 0 && q.w == 0 {
        v3(l.radial_dir)
    } else {
        rotate3_val(q, v3(l.radial_dir))
    };
    let dir2 = unit3(rotated);
    LightKinematics {
        scene_center: l.scene_center,
        radial_speed: l.radial_speed,
        center_of_oscillation: l.center_of_oscillation,
        radius_of_oscillation: l.radius_of_oscillation,
        position: Vector3 {
            x: sat(l.scene_center.x + tdiv(dir2.0 * dist2, SCALE as int)) as i64,
            y: sat(l.scene_center.y + tdiv(dir2.1 * dist2, SCALE as int)) as i64,
            z: sat(l.scene_center.z + tdiv(dir2.2 * dist2, SCALE as int)) as i64,
        },
        radial_unit_velocity: vel2 as i64,
        orbital_axis: l.orbital_axis,
        orbital_speed: l.orbital_speed,
        distance: dist2 as i64,
        radial_dir: Vector3 { x: dir2.0 as i64, y: dir2.1 as i64, z: dir2.2 as i64 },
    }
}

/// The distance from the scene center to the center of oscillation is
/// small enough that the whole oscillation band fits in `i64`, and its
/// square bounds the squared norm from below.
proof fn lemma_center_distance_in_range(scene_center: Vector3, center_of_oscillation: Vector3)
    requires
        bounded3(v3(scene_center), LIGHT_POS_LIMIT as int),
        bounded3(v3(center_of_oscillation), LIGHT_POS_LIMIT as int),
        1 <= center_distance(scene_center, center_of_oscillation),
    ensures
        ({
            let nsq = normsq3(sub3(v3(center_of_oscillation), v3(scene_center)));
            let d = center_distance(scene_center, center_of_oscillation);
            &&& 1 <= nsq
            &&& d <= 3993837246235628776
            &&& d * d <= nsq
        }),
{
    let df = sub3(v3(center_of_oscillation), v3(scene_center));
    let nsq = normsq3(df);
    let d = center_distance(scene_center, center_of_oscillation);
    crate::fixed::lemma_sqrt_floor_bounds(nsq as nat);
    lemma_normsq3_cases(df);
    assert(d * d >= 1) by (nonlinear_arith)
        requires
            d >= 1,
    ;
    lemma_mul_bounds(df.0, df.0, 0x2000_0000_0000_0000, 0x2000_0000_0000_0000);
    lemma_mul_bounds(df.1, df.1, 0x2000_0000_0000_0000, 0x2000_0000_0000_0000);
    lemma_mul_bounds(df.2, df.2, 0x2000_0000_0000_0000, 0x2000_0000_0000_0000);
    crate::fixed::lemma_abs_le_of_sq_le(d, 3993837246235628776);
}

impl LightKinematics {
    /// Construct the orbital state of a light.  The oscillation band must
    /// not cross the scene center, and the center of oscillation must not
    /// coincide with it, so the radial direction is always defined.
    pub fn new(
        scene_center: Vector3,
        radial_speed: i64,
        center_of_oscillation: Vector3,
        radius_of_oscillation: i64,
        orbital_axis: Vector3,
        orbital_speed: i64,
    ) -> (r: LightKinematics)
        requires
            bounded3(v3(scene_center), LIGHT_POS_LIMIT as int),
            bounded3(v3(center_of_oscillation), LIGHT_POS_LIMIT as int),
            bounded3(v3(orbital_axis), SAT_LIMIT as int),
            normsq3(v3(orbital_axis)) >= 1,
            1 <= center_distance(scene_center, center_of_oscillation),
            0 <= radius_of_oscillation <= center_distance(scene_center, center_of_oscillation),
        ensures
            r == light_new_val(
                scene_center,
                radial_speed,
                center_of_oscillation,
                radius_of_oscillation,
                orbital_axis,
                orbital_speed,
            ),
            light_wf(r),
    {
        let axis_unit = unit3_exec(&orbital_axis);
        let diff = sub3_sat(&center_of_oscillation, &scene_center);
        proof {
            assert(v3(diff) == sub3(v3(center_of_oscillation), v3(scene_center)));
            lemma_center_distance_in_range(scene_center, center_of_oscillation);
        }
        let dir = unit3_exec(&diff);
        let sq = normsq3_exec(&diff);
        let dq = crate::fixed::isqrt_u128(sq as u128);
        let dist = dq as i64;
        LightKinematics {
            scene_center: scene_center,
            radial_speed: radial_speed,
            center_of_oscillation: center_of_oscillation,
            radius_of_oscillation: radius_of_oscillation,
            position: center_of_oscillation,
            radial_unit_velocity: 1,
            orbital_axis: axis_unit,
            orbital_speed: orbital_speed,
            distance: dist,
            radial_dir: dir,
        }
    }

    /// Get the light's position in world space.
    pub fn position(&self) -> (r: Vector3)
        ensures
            r == self.position,
    {
        self.position
    }

    /// Advance the light by one frame: advance and clamp the radial
    /// distance, flipping the radial velocity at the band edges, and
    /// rotate the radial direction about the orbital axis.  The scalar
    /// distance provably never leaves the oscillation band.
    #[verifier::rlimit(100)]
    pub fn update(&mut self, elapsed_seconds: i64)
        requires
            light_wf(*old(self)),
        ensures
            light_wf(*final(self)),
            *final(self) == light_step(*old(self), elapsed_seconds as int),
            center_distance(old(self).scene_center, old(self).center_of_oscillation) - old(
                self,
            ).radius_of_oscillation <= final(self).distance,
            final(self).distance <= center_distance(
                old(self).scene_center,
                old(self).center_of_oscillation,
            ) + old(self).radius_of_oscillation,
    {
        let diff = sub3_sat(&self.center_of_oscillation, &self.scene_center);
        proof {
            assert(v3(diff) == sub3(v3(self.center_of_oscillation), v3(self.scene_center)));
        }
        let sq = normsq3_exec(&diff);
        proof {
            lemma_center_distance_in_range(self.scene_center, self.center_of_oscillation);
        }
        let dq = crate::fixed::isqrt_u128(sq as u128);
        let d = dq as i64;
        let vel: i64 = if self.radial_unit_velocity < 0 {
            -1
        } else {
            1
        };
        let peri = d - self.radius_of_oscillation;
        let aph = d + self.radius_of_oscillation;
        let step = crate::fixed::mul_fp(self.radial_speed, elapsed_seconds);
        let moved: i128 = (self.distance as i128) + (if vel < 0 {
            -(step as i128)
        } else {
            step as i128
        });
        let dist2: i64 = if moved < peri as i128 {
            peri
        } else if moved > aph as i128 {
            aph
        } else {
            moved as i64
        };
        let vel2: i64 = if moved < peri as i128 {
            1
        } else if moved > aph as i128 {
            -1
        } else {
            vel
        };
        let ang = crate::fixed::mul_fp(self.orbital_speed, elapsed_seconds);
        let half = tdiv_i128(ang as i128, 2) as i64;
        let sc = crate::trig::sin_cos_rad(half);
        let q = axis_quat(&self.orbital_axis, sc.0, sc.1);
        let rotated: Vector3 = if q.x == 0 && q.y == 0 && q.z == 0 && q.w == 0 {
            self.radial_dir
        } else {
            proof {
                lemma_qnormsq_pos(q);
            }
            rotate3(&q, &self.radial_dir)
        };
        let dir2 = unit3_exec(&rotated);
        proof {
            lemma_normsq3_cases(v3(rotated));
            if normsq3(v3(rotated)) == 0 {
                assert(v3(dir2) == v3(rotated));
            }
            lemma_mul_bounds(dir2.x as int, dist2 as int, SCALE as int, 0x8000_0000_0000_0000);
            lemma_mul_bounds(dir2.y as int, dist2 as int, SCALE as int, 0x8000_0000_0000_0000);
            lemma_mul_bounds(dir2.z as int, dist2 as int, SCALE as int, 0x8000_0000_0000_0000);
        }
        let px = sat_i128(
            (self.scene_center.x as i128) + tdiv_i128((dir2.x as i128) * (dist2 as i128), SCALE as i128),
        );
        let py = sat_i128(
            (self.scene_center.y as i128) + tdiv_i128((dir2.y as i128) * (dist2 as i128), SCALE as i128),
        );
        let pz = sat_i128(
            (self.scene_center.z as i128) + tdiv_i128((dir2.z as i128) * (dist2 as i128), SCALE as i128),
        );
        self.position = Vector3 { x: px, y: py, z: pz };
        self.radial_unit_velocity = vel2;
        self.distance = dist2;
        self.radial_dir = dir2;
        proof {
            let target = light_step(*old(self), elapsed_seconds as int);
            assert(self.radial_dir =~= target.radial_dir);
            assert(self.position =~= target.position);
            assert(*self =~= target);
        }
    }

    /// The model matrix of the light: a pure translation to its position.
    pub fn model_mat(&self) -> (r: Matrix4)
        ensures
            r == translation_of(self.position),
    {
        translation_mat(&self.position)
    }
}

/// The radial oscillation law: starting anywhere in the oscillation band,
/// one frame keeps the light's scalar distance from the scene center
/// within `[d - r, d + r]`, where `d` is the distance of the center of
/// oscillation and `r` the radius of oscillation.
pub proof fn lemma_light_distance_bounded(l: LightKinematics, elapsed: int)
    requires
        light_wf(l),
    ensures
        center_distance(l.scene_center, l.center_of_oscillation) - l.radius_of_oscillation
            <= light_step(l, elapsed).distance as int,
        light_step(l, elapsed).distance as int <= center_distance(
            l.scene_center,
            l.center_of_oscillation,
        ) + l.radius_of_oscillation,
        light_wf(light_step(l, elapsed)),
{
    lemma_center_distance_in_range(l.scene_center, l.center_of_oscillation);
    lemma_light_dir_bounded(l, elapsed);
}

/// The re-normalized radial direction after one frame stays within one
/// Q.16 unit componentwise.
proof fn lemma_light_dir_bounded(l: LightKinematics, elapsed: int)
    requires
        light_wf(l),
    ensures
        bounded3(v3(light_step(l, elapsed).radial_dir), SCALE as int),
        bounded3(v3(light_step(l, elapsed).position), SAT_LIMIT as int),
{
    let ang = sat(tdiv((l.orbital_speed as int) * elapsed, SCALE as int));
    let half = tdiv(ang, 2);
    let q = axis_quat_val(v3(l.orbital_axis), sin_rad(half), cos_rad(half));
    let rotated = if q.x == 0 && q.y == 0 && q.z == 0 && q.w == 0 {
        v3(l.radial_dir)
    } else {
        rotate3_val(q, v3(l.radial_dir))
    };
    let dir2 = unit3(rotated);
    lemma_normsq3_cases(rotated);
    crate::fixed::lemma_sqrt_floor_bounds(normsq3(rotated) as nat);
    if normsq3(rotated) == 0 {
        assert(dir2 == rotated);
    } else {
        lemma_unit3_bounded(rotated);
    }
}

/// A unit-rescaled nonzero triple is bounded by one Q.16 unit.
proof fn lemma_unit3_bounded(a: (int, int, int))
    requires
        normsq3(a) >= 1,
    ensures
        bounded3(unit3(a), SCALE as int),
{
    let n = sqrt_floor(normsq3(a) as nat) as int;
    crate::fixed::lemma_sqrt_floor_bounds(normsq3(a) as nat);
    crate::fixed::lemma_sqrt_floor_ge(1, normsq3(a) as nat);
    assert((-(a.0)) * (-(a.0)) == a.0 * a.0) by (nonlinear_arith);
    assert((-(a.1)) * (-(a.1)) == a.1 * a.1) by (nonlinear_arith);
    assert((-(a.2)) * (-(a.2)) == a.2 * a.2) by (nonlinear_arith);
    assert(a.0 * a.0 <= normsq3(a)) by (nonlinear_arith)
        requires
            normsq3(a) == a.0 * a.0 + a.1 * a.1 + a.2 * a.2,
    ;
    assert(a.1 * a.1 <= normsq3(a)) by (nonlinear_arith)
        requires
            normsq3(a) == a.0 * a.0 + a.1 * a.1 + a.2 * a.2,
    ;
    assert(a.2 * a.2 <= normsq3(a)) by (nonlinear_arith)
        requires
            normsq3(a) == a.0 * a.0 + a.1 * a.1 + a.2 * a.2,
    ;
    if a.0 >= 0 {
        crate::fixed::lemma_sqrt_floor_ge(a.0, normsq3(a) as nat);
    } else {
        crate::fixed::lemma_sqrt_floor_ge(-a.0, normsq3(a) as nat);
    }
    if a.1 >= 0 {
        crate::fixed::lemma_sqrt_floor_ge(a.1, normsq3(a) as nat);
    } else {
        crate::fixed::lemma_sqrt_floor_ge(-a.1, normsq3(a) as nat);
    }
    if a.2 >= 0 {
        crate::fixed::lemma_sqrt_floor_ge(a.2, normsq3(a) as nat);
    } else {
        crate::fixed::lemma_sqrt_floor_ge(-a.2, normsq3(a) as nat);
    }
    crate::fixed::lemma_tdiv_scale_le(a.0, SCALE as int, n);
    crate::fixed::lemma_tdiv_scale_le(a.1, SCALE as int, n);
    crate::fixed::lemma_tdiv_scale_le(a.2, SCALE as int, n);
}

} // verus!
