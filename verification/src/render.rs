use vstd::prelude::*;
use crate::cam::Camera;
use crate::fx::{Fx, fx_min, fx_max, fx_sqrt, fdiv, FX_ONE};
use crate::hittable::{Hittable, no_medium, spec_hit};
use crate::material::{Material, ScatterRecord, spec_emit};
use crate::pdf::PDF;
use crate::ray::Ray;
use crate::rng::Lcg;
use crate::vec3::{Vec3, v3_add, v3_mul, v3_scale, v3_div};

verus! {

/// Raw shadow-acne epsilon: intersections closer than this along a
/// scattered ray are ignored, so a bounce does not immediately re-hit the
/// surface it left.
pub const T_ACNE_RAW: i64 = 66;

/// Raw clamp just below one used before gamma conversion.
pub const CHANNEL_CLAMP_RAW: i64 = 65529;

/// How a specular bounce combines: the emission plus the attenuated
/// recursive radiance, with no density division — deterministic transport.
pub fn combine_specular(emitted: Vec3, attenuation: Vec3, radiance: Vec3) -> (res: Vec3)
    ensures
        res == v3_add(emitted, v3_mul(attenuation, radiance)),
{
    emitted.add(attenuation.mul(radiance))
}

/// How a sampled bounce combines: the emission plus the attenuated
/// recursive radiance, weighted by the material's scattering density over
/// the positive sampling density of the drawn direction.
pub fn combine_sampled(
    emitted: Vec3,
    attenuation: Vec3,
    scattering_density: Fx,
    radiance: Vec3,
    sampling_density: Fx,
) -> (res: Vec3)
    requires
        sampling_density@ > 0,
    ensures
        res == v3_add(
            emitted,
            v3_div(v3_mul(v3_scale(attenuation, scattering_density), radiance), sampling_density),
        ),
{
    emitted.add(attenuation.scale(scattering_density).mul(radiance).div(sampling_density))
}

/// The radiance arriving along a ray, estimated by recursive path tracing.
///
/// At depth zero the estimate is black. A ray that escapes the scene
/// returns the background color. At a hit, the material's emission is added
/// to the scattered contribution: specular materials recurse along their
/// single outgoing ray and combine as `combine_specular` states; sampling
/// materials draw a direction from their distribution — mixed with a
/// distribution aimed at the lights, when lights are given — and combine as
/// `combine_sampled` states, with the direction pinned by `PDF::generate`'s
/// contract and the density by `PDF::value`'s. A sampling density of zero
/// or less ends the path with the emission alone, keeping the estimator
/// finite. The recursion itself cannot appear in the contract, so the
/// clauses below state the depth floor and the miss and pure-emission
/// cases, and the combination steps carry their own exact contracts.
pub fn ray_color(
    r: &Ray,
    background: Vec3,
    world: &Hittable,
    lights: &Option<Hittable>,
    depth: u32,
    rng: &mut Lcg,
) -> (res: Vec3)
    ensures
        depth == 0 ==> res == (Vec3 { x: Fx { raw: 0 }, y: Fx { raw: 0 }, z: Fx { raw: 0 } }),
        (depth > 0 && no_medium(*world)) ==> (match spec_hit(
            *world,
            *r,
            (Fx { raw: T_ACNE_RAW }),
            (Fx { raw: i64::MAX }),
        ) {
            None => res == background,
            Some((hr, m)) => (m is DiffuseLight ==> res == spec_emit(m, hr)),
        }),
    decreases depth,
{
    if depth == 0 {
        return Vec3::zero();
    }
    let hit_res = world.hit(r, Fx { raw: T_ACNE_RAW }, Fx { raw: i64::MAX }, rng);
    match hit_res {
        None => background,
        Some((hit, mat)) => {
            let emitted = mat.emit(&hit);
            match mat.scatter(r, &hit, rng) {
                None => emitted,
                Some(ScatterRecord::Specular { ray, attenuation }) => {
                    let rec = ray_color(&ray, background, world, lights, depth - 1, rng);
                    combine_specular(emitted, attenuation, rec)
                },
                Some(ScatterRecord::PDF { pdf, attenuation }) => {
                    let mixed = match lights {
                        Some(lh) => PDF::Mixture(vec![PDF::Hittable(lh, hit.p), pdf]),
                        None => pdf,
                    };
                    let scattered = Ray::new(hit.p, mixed.generate(rng), r.time);
                    let pdf_value = mixed.value(&scattered.direction, rng);
                    if pdf_value.raw <= 0 {
                        return emitted;
                    }
                    let spdf = mat.scattering_pdf(r, &hit, &scattered);
                    let rec = ray_color(&scattered, background, world, lights, depth - 1, rng);
                    combine_sampled(emitted, attenuation, spdf, rec, pdf_value)
                },
            }
        },
    }
}

/// One gamma-corrected eight-bit channel: the square root of the linear
/// value (clamped to [0, 1) first), scaled to [0, 256).
pub open spec fn spec_channel(c: Fx) -> int {
    let s = fx_sqrt(fx_max(c, Fx { raw: 0 }));
    let cl = fx_min(s, Fx { raw: CHANNEL_CLAMP_RAW });
    fdiv(cl@ * 256, FX_ONE as int)
}

/// One exec channel; mirrors `spec_channel`, so the byte is always in
/// range.
fn channel_byte(c: Fx) -> (res: u8)
    ensures
        res as int == spec_channel(c),
{
    let s = c.max(Fx { raw: 0 }).sqrt();
    let cl = s.min(Fx { raw: CHANNEL_CLAMP_RAW });
    proof {
        crate::fx::lemma_isqrt(fx_max(c, Fx { raw: 0 })@ * FX_ONE as int);
        vstd::arithmetic::div_mod::lemma_div_pos_is_pos(cl@ * 256, FX_ONE as int);
        vstd::arithmetic::div_mod::lemma_div_is_ordered(cl@ * 256, 65529int * 256, FX_ONE as int);
    }
    let b = (cl.raw as u64 * 256) / (FX_ONE as u64);
    b as u8
}

/// A linear color as one gamma-corrected eight-bit RGB triple.
pub fn pixel_from_color(color: Vec3) -> (res: (u8, u8, u8))
    ensures
        res.0 as int == spec_channel(color.x),
        res.1 as int == spec_channel(color.y),
        res.2 as int == spec_channel(color.z),
{
    (channel_byte(color.x), channel_byte(color.y), channel_byte(color.z))
}

/// The sum of `n` copies of a color under the saturating addition, the
/// way a pixel accumulates its sample estimates.
pub open spec fn color_repeat_sum(c: Vec3, n: int) -> Vec3
    decreases n,
{
    if n <= 0 {
        Vec3 { x: Fx { raw: 0 }, y: Fx { raw: 0 }, z: Fx { raw: 0 } }
    } else {
        v3_add(color_repeat_sum(c, n - 1), c)
    }
}

/// One jittered path-traced estimate through the camera, with the heavy
/// contracts of the pieces left behind so that callers averaging many
/// samples keep a small solver context; the one fact kept is that an empty
/// world estimates the background exactly.
fn sample_color(
    world: &Hittable,
    lights: &Option<Hittable>,
    cam: &Camera,
    background: Vec3,
    x: u32,
    y: u32,
    image_width: u32,
    image_height: u32,
    max_depth: u32,
    rng: &mut Lcg,
) -> (res: Vec3)
    requires
        2 <= image_width < 0x10000,
        2 <= image_height < 0x10000,
        x < image_width,
        y < image_height,
        cam.time_open@ <= cam.time_close@,
    ensures
        (*world is Empty && max_depth >= 1) ==> res == background,
{
    let jx = rng.next_unit();
    let jy = rng.next_unit();
    let sx = Fx::from_int(x as i64).add(jx).div(Fx::from_int(image_width as i64 - 1));
    let sy = Fx::from_int((image_height - 1 - y) as i64).add(jy).div(
        Fx::from_int(image_height as i64 - 1),
    );
    let ray = cam.get_ray(sx, sy, rng);
    proof {
        if *world is Empty {
            crate::laws::lemma_empty_scene_misses(ray, Fx { raw: T_ACNE_RAW }, Fx { raw: i64::MAX });
        }
    }
    ray_color(&ray, background, world, lights, max_depth, rng)
}

/// The gamma-corrected bytes of a pixel whose every sample estimated the
/// same color: the saturating sample sum divided back by the sample count.
pub open spec fn uniform_pixel(c: Vec3, samples: int) -> (int, int, int) {
    let avg = v3_div(
        color_repeat_sum(c, samples),
        crate::fx::fx(samples * (FX_ONE as int)),
    );
    (spec_channel(avg.x), spec_channel(avg.y), spec_channel(avg.z))
}

/// The color of one pixel: the average of `samples` jittered path-traced
/// estimates through the camera. With an empty world every estimate is the
/// background, so the pixel is exactly the background's bytes.
#[verifier::rlimit(100)]
#[verifier::spinoff_prover]
pub fn render_pixel(
    world: &Hittable,
    lights: &Option<Hittable>,
    cam: &Camera,
    background: Vec3,
    x: u32,
    y: u32,
    image_width: u32,
    image_height: u32,
    samples: u32,
    max_depth: u32,
    rng: &mut Lcg,
) -> (res: (u8, u8, u8))
    requires
        2 <= image_width < 0x10000,
        2 <= image_height < 0x10000,
        x < image_width,
        y < image_height,
        1 <= samples < 0x10000,
        cam.time_open@ <= cam.time_close@,
    ensures
        (*world is Empty && max_depth >= 1) ==> ({
            let bytes = uniform_pixel(background, samples as int);
            res.0 as int == bytes.0 && res.1 as int == bytes.1 && res.2 as int == bytes.2
        }),
{
    let mut sum = Vec3::zero();
    let mut sample: u32 = 0;
    while sample < samples
        invariant
            sample <= samples,
            2 <= image_width < 0x10000,
            2 <= image_height < 0x10000,
            x < image_width,
            y < image_height,
            cam.time_open@ <= cam.time_close@,
            (*world is Empty && max_depth >= 1) ==> sum == color_repeat_sum(
                background,
                sample as int,
            ),
        decreases samples - sample,
    {
        let c = sample_color(
            world,
            lights,
            cam,
            background,
            x,
            y,
            image_width,
            image_height,
            max_depth,
            rng,
        );
        sum = sum.add(c);
        sample = sample + 1;
    }
    let avg = sum.div(Fx::from_int(samples as i64));
    pixel_from_color(avg)
}

/// Render a whole image row by row into packed RGB bytes, single-threaded;
/// the per-pixel work is pure, so callers with worker pools can instead
/// fan out `render_pixel` over disjoint pixels. With an empty world every
/// pixel holds exactly the background's bytes.
#[verifier::loop_isolation(false)]
pub fn render(
    world: &Hittable,
    lights: &Option<Hittable>,
    cam: &Camera,
    background: Vec3,
    image_width: u32,
    image_height: u32,
    samples: u32,
    max_depth: u32,
    seed: u64,
) -> (res: Vec<u8>)
    requires
        2 <= image_width < 0x10000,
        2 <= image_height < 0x10000,
        1 <= samples < 0x10000,
        cam.time_open@ <= cam.time_close@,
    ensures
        res@.len() == 3 * image_width * image_height,
        (*world is Empty && max_depth >= 1) ==> (forall|px: int|
            0 <= px < image_width * image_height ==> {
                let bytes = uniform_pixel(background, samples as int);
                &&& #[trigger] res@[3 * px] as int == bytes.0
                &&& res@[3 * px + 1] as int == bytes.1
                &&& res@[3 * px + 2] as int == bytes.2
            }),
{
    let mut rng = Lcg::new(seed);
    let mut out: Vec<u8> = Vec::new();
    let mut y: u32 = 0;
    proof {
        crate::fx::lemma_mul_bound(image_width as int, image_height as int, 0x10000);
    }
    while y < image_height
        invariant
            y <= image_height,
            2 <= image_width < 0x10000,
            2 <= image_height < 0x10000,
            1 <= samples < 0x10000,
            cam.time_open@ <= cam.time_close@,
            out@.len() == 3 * image_width * y,
            (*world is Empty && max_depth >= 1) ==> (forall|px: int|
                0 <= px < image_width * y ==> {
                    let bytes = uniform_pixel(background, samples as int);
                    &&& #[trigger] out@[3 * px] as int == bytes.0
                    &&& out@[3 * px + 1] as int == bytes.1
                    &&& out@[3 * px + 2] as int == bytes.2
                }),
        decreases image_height - y,
    {
        let mut x: u32 = 0;
        while x < image_width
            invariant
                y < image_height,
                x <= image_width,
                2 <= image_width < 0x10000,
                2 <= image_height < 0x10000,
                1 <= samples < 0x10000,
                cam.time_open@ <= cam.time_close@,
                out@.len() == 3 * image_width * y + 3 * x,
                (*world is Empty && max_depth >= 1) ==> (forall|px: int|
                    0 <= px < image_width * y + x ==> {
                        let bytes = uniform_pixel(background, samples as int);
                        &&& #[trigger] out@[3 * px] as int == bytes.0
                        &&& out@[3 * px + 1] as int == bytes.1
                        &&& out@[3 * px + 2] as int == bytes.2
                    }),
            decreases image_width - x,
        {
            let (cr, cg, cb) = render_pixel(
                world,
                lights,
                cam,
                background,
                x,
                y,
                image_width,
                image_height,
                samples,
                max_depth,
                &mut rng,
            );
            let ghost prev = out@;
            out.push(cr);
            out.push(cg);
            out.push(cb);
            proof {
                let w = image_width as int;
                assert(3 * (w * y + x) == 3 * w * y + 3 * x) by (nonlinear_arith);
                if *world is Empty && max_depth >= 1 {
                    let bytes = uniform_pixel(background, samples as int);
                    assert forall|px: int| 0 <= px < w * y + x + 1 implies {
                        &&& #[trigger] out@[3 * px] as int == bytes.0
                        &&& out@[3 * px + 1] as int == bytes.1
                        &&& out@[3 * px + 2] as int == bytes.2
                    } by {
                        assert(3 * px >= 0 && 3 * px + 3 <= 3 * (w * y + x + 1))
                            by (nonlinear_arith)
                            requires
                                0 <= px < w * y + x + 1,
                        {}
                        if px < w * y + x {
                            assert(3 * px + 3 <= 3 * (w * y + x)) by (nonlinear_arith)
                                requires
                                    px + 1 <= w * y + x,
                            {}
                            assert(out@[3 * px] == prev[3 * px]);
                            assert(out@[3 * px + 1] == prev[3 * px + 1]);
                            assert(out@[3 * px + 2] == prev[3 * px + 2]);
                        } else {
                            assert(out@[3 * px] == cr && out@[3 * px + 1] == cg && out@[3 * px
                                + 2] == cb);
                        }
                    }
                }
            }
            x = x + 1;
        }
        proof {
            let w = image_width as int;
            assert(3 * image_width * (y + 1) == 3 * image_width * y + 3 * image_width)
                by (nonlinear_arith);
            assert(w * (y + 1) == w * y + w) by (nonlinear_arith);
        }
        y = y + 1;
    }
    proof {
        assert(3 * image_width * image_height == 3 * (image_width * image_height))
            by (nonlinear_arith);
    }
    out
}

} // verus!
