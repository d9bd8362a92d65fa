use vstd::prelude::*;
use crate::fx::{Fx, fx_add, fx_sub, fx_mul, FX_ONE};
use crate::ray::Ray;
use crate::rng::Lcg;
use crate::vec3::{Vec3, v3_add, v3_sub, v3_scale, v3_sqrlen, v3_cross, v3_unit};

verus! {

/// A thin-lens camera: precomputed viewport frame, lens radius, and the
/// shutter interval rays are spread over.
#[derive(Clone, Copy, PartialEq, Eq, Structural, Debug)]
pub struct Camera {
    pub origin: Vec3,
    pub lower_left_corner: Vec3,
    pub horizontal: Vec3,
    pub vertical: Vec3,
    pub u: Vec3,
    pub v: Vec3,
    pub w: Vec3,
    pub lens_radius: Fx,
    pub time_open: Fx,
    pub time_close: Fx,
}

/// The camera built from a viewing frame: `half_view` is the tangent of
/// half the vertical field of view, supplied by the caller since the
/// library holds no trigonometry of its own.
pub open spec fn spec_camera(
    lookfrom: Vec3,
    lookat: Vec3,
    vup: Vec3,
    half_view: Fx,
    aspect_ratio: Fx,
    aperture: Fx,
    focus_dist: Fx,
    time_open: Fx,
    time_close: Fx,
) -> Camera {
    let viewport_height = fx_add(half_view, half_view);
    let viewport_width = fx_mul(aspect_ratio, viewport_height);
    let w = v3_unit(v3_sub(lookfrom, lookat));
    let u = v3_unit(v3_cross(vup, w));
    let v = v3_cross(w, u);
    let horizontal = v3_scale(u, fx_mul(focus_dist, viewport_width));
    let vertical = v3_scale(v, fx_mul(focus_dist, viewport_height));
    let half = Fx { raw: 32768 };
    let lower_left_corner = v3_sub(
        v3_sub(v3_sub(lookfrom, v3_scale(horizontal, half)), v3_scale(vertical, half)),
        v3_scale(w, focus_dist),
    );
    Camera {
        origin: lookfrom,
        lower_left_corner,
        horizontal,
        vertical,
        u,
        v,
        w,
        lens_radius: fx_mul(aperture, half),
        time_open,
        time_close,
    }
}

/// The origin shift a lens point produces: the disk point scaled by the
/// lens radius, mapped through the camera's screen axes.
pub open spec fn aperture_offset(cam: Camera, d: Vec3) -> Vec3 {
    let rd = v3_scale(d, cam.lens_radius);
    v3_add(v3_scale(cam.u, rd.x), v3_scale(cam.v, rd.y))
}

/// The point of the focal plane that screen coordinates `(s, t)` aim at.
pub open spec fn focal_target(cam: Camera, s: Fx, t: Fx) -> Vec3 {
    v3_add(v3_add(cam.lower_left_corner, v3_scale(cam.horizontal, s)), v3_scale(cam.vertical, t))
}

/// The shutter time picked by a unit fraction of the shutter interval.
pub open spec fn shutter_time(cam: Camera, u: Fx) -> Fx {
    fx_add(cam.time_open, fx_mul(fx_sub(cam.time_close, cam.time_open), u))
}

impl Camera {
    /// A camera looking from `lookfrom` to `lookat`; mirrors `spec_camera`.
    pub fn new(
        lookfrom: Vec3,
        lookat: Vec3,
        vup: Vec3,
        half_view: Fx,
        aspect_ratio: Fx,
        aperture: Fx,
        focus_dist: Fx,
        time_open: Fx,
        time_close: Fx,
    ) -> (cam: Camera)
        requires
            time_open@ <= time_close@,
        ensures
            cam == spec_camera(
                lookfrom,
                lookat,
                vup,
                half_view,
                aspect_ratio,
                aperture,
                focus_dist,
                time_open,
                time_close,
            ),
    {
        let viewport_height = half_view.add(half_view);
        let viewport_width = aspect_ratio.mul(viewport_height);
        let w = lookfrom.sub(lookat).normalize();
        let u = vup.cross(w).normalize();
        let v = w.cross(u);
        let horizontal = u.scale(focus_dist.mul(viewport_width));
        let vertical = v.scale(focus_dist.mul(viewport_height));
        let half = Fx { raw: 32768 };
        let lower_left_corner = lookfrom.sub(horizontal.scale(half)).sub(vertical.scale(half)).sub(
            w.scale(focus_dist),
        );
        Camera {
            origin: lookfrom,
            lower_left_corner,
            horizontal,
            vertical,
            u,
            v,
            w,
            lens_radius: aperture.mul(half),
            time_open,
            time_close,
        }
    }

    /// The ray through normalized screen coordinates `(s, t)`: the origin
    /// jittered inside the aperture disk for depth of field, the direction
    /// aiming the jittered origin at the focal-plane point of `(s, t)`, the
    /// time drawn uniformly from the shutter interval.
    pub fn get_ray(&self, s: Fx, t: Fx, rng: &mut Lcg) -> (ray: Ray)
        requires
            self.time_open@ <= self.time_close@,
        ensures
            exists|d: Vec3|
                {
                    &&& v3_sqrlen(d)@ < FX_ONE as int
                    &&& d.z@ == 0
                    &&& ray.origin == v3_add(self.origin, #[trigger] aperture_offset(*self, d))
                    &&& ray.direction == v3_sub(
                        v3_sub(focal_target(*self, s, t), self.origin),
                        aperture_offset(*self, d),
                    )
                },
            exists|u: Fx| 0 <= u@ < FX_ONE as int && ray.time == #[trigger] shutter_time(*self, u),
            self.time_open@ <= ray.time@ <= self.time_close@,
    {
        let disk = Vec3::random_in_unit_disk(rng);
        let rd = disk.scale(self.lens_radius);
        let offset = self.u.scale(rd.x).add(self.v.scale(rd.y));
        let origin = self.origin.add(offset);
        let direction = self.lower_left_corner.add(self.horizontal.scale(s)).add(
            self.vertical.scale(t),
        ).sub(self.origin).sub(offset);
        let ghost pre_time_state = rng.state;
        let time = rng.next_in_range(self.time_open, self.time_close);
        let ray = Ray::new(origin, direction, time);
        proof {
            assert(ray.origin == v3_add(self.origin, aperture_offset(*self, disk)) && ray.direction
                == v3_sub(
                v3_sub(focal_target(*self, s, t), self.origin),
                aperture_offset(*self, disk),
            ));
            let u = Fx { raw: crate::rng::lcg_unit(pre_time_state) as i64 };
            assert(ray.time == shutter_time(*self, u));
        }
        ray
    }
}

} // verus!
