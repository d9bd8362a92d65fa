use vstd::prelude::*;
use crate::fx::{Fx, fx_add, fx_sub, fx_mul, fx_div, fx_min, fx_max, fx_sqrt, FX_ONE, PI_RAW};
use crate::pdf::PDF;
use crate::ray::Ray;
use crate::rng::{Lcg, lcg_next, lcg_unit};
use crate::sample::{ONB, onb_from_w};
use crate::texture::{Texture, tex_value};
use crate::vec3::{Vec3, v3_add, v3_dot, v3_neg, v3_reflect, v3_refract, v3_scale, v3_sqrlen, v3_unit};
use crate::hittable::HitRecord;

verus! {

/// A refractive surface, described by its index of refraction.
#[derive(Debug)]
pub struct Dielectric {
    pub ir: Fx,
}

/// A reflective surface: an albedo and a fuzz radius perturbing the
/// reflected direction.
#[derive(Debug)]
pub struct Metal {
    pub albedo: Vec3,
    pub fuzz: Fx,
}

/// The surface behavior of a primitive: how it scatters, and what it emits.
#[derive(Debug)]
pub enum Material {
    /// Diffuse scattering with a texture-backed albedo.
    Lambertian(Texture),
    /// Refraction and reflection by Schlick's approximation.
    Dielectric(Dielectric),
    /// Specular reflection with fuzz.
    Metal(Metal),
    /// Pure emission; never scatters.
    DiffuseLight(Texture),
    /// Uniform scattering inside a participating medium.
    Isotropic(Texture),
}

/// The radiance a material emits at a hit: the texture value for a light
/// seen from its front face, black for everything else.
pub open spec fn spec_emit(m: Material, hit: HitRecord) -> Vec3 {
    match m {
        Material::DiffuseLight(tex) => if hit.front_face {
            tex_value(tex, hit.uv.x, hit.uv.y, hit.p, hit.normal)
        } else {
            Vec3 { x: Fx { raw: 0 }, y: Fx { raw: 0 }, z: Fx { raw: 0 } }
        },
        _ => Vec3 { x: Fx { raw: 0 }, y: Fx { raw: 0 }, z: Fx { raw: 0 } },
    }
}

/// The density with which a material would have scattered into the given
/// direction: the cosine-weighted hemisphere density for a diffuse surface,
/// the uniform sphere density for an isotropic medium (each matching the
/// distribution its scatter record carries, as an unbiased estimator
/// needs), and one for the deterministic materials.
pub open spec fn spec_scattering_pdf(m: Material, hit: HitRecord, scattered: Ray) -> Fx {
    match m {
        Material::Lambertian(_) => {
            let cosine = v3_dot(hit.normal, v3_unit(scattered.direction));
            if cosine@ <= 0 {
                Fx { raw: 0 }
            } else {
                fx_div(cosine, Fx { raw: PI_RAW })
            }
        },
        Material::Isotropic(_) => Fx { raw: crate::pdf::UNIFORM_SPHERE_DENSITY_RAW },
        _ => Fx { raw: FX_ONE },
    }
}

/// Schlick's approximation of the reflectance of a dielectric at the given
/// cosine of incidence.
pub open spec fn spec_reflectance(cosine: Fx, ref_idx: Fx) -> Fx {
    let one = Fx { raw: FX_ONE };
    let r0 = fx_div(fx_sub(one, ref_idx), fx_add(one, ref_idx));
    let r0sq = fx_mul(r0, r0);
    let omc = fx_sub(one, cosine);
    let p5 = fx_mul(fx_mul(fx_mul(fx_mul(omc, omc), omc), omc), omc);
    fx_add(r0sq, fx_mul(fx_sub(one, r0sq), p5))
}

impl Material {
    /// A diffuse material of one color.
    pub fn new_lambertian(albedo: Vec3) -> (r: Self)
        ensures
            r == Material::Lambertian(Texture::Solid(albedo)),
    {
        Material::Lambertian(Texture::Solid(albedo))
    }

    /// A diffuse material backed by a texture.
    pub fn new_lambertian_with_texture(texture: Texture) -> (r: Self)
        ensures
            r == Material::Lambertian(texture),
    {
        Material::Lambertian(texture)
    }

    /// A refractive material with the given index of refraction.
    pub fn new_dielectric(ir: Fx) -> (r: Self)
        ensures
            r == Material::Dielectric(Dielectric { ir }),
    {
        Material::Dielectric(Dielectric { ir })
    }

    /// A reflective material with the given albedo and fuzz.
    pub fn new_metal(albedo: Vec3, fuzz: Fx) -> (r: Self)
        ensures
            r == Material::Metal(Metal { albedo, fuzz }),
    {
        Material::Metal(Metal { albedo, fuzz })
    }

    /// A purely emissive material of one color.
    pub fn new_diffuse_light(emit: Vec3) -> (r: Self)
        ensures
            r == Material::DiffuseLight(Texture::Solid(emit)),
    {
        Material::DiffuseLight(Texture::Solid(emit))
    }

    /// The phase material of an isotropic medium.
    pub fn new_isotropic(albedo: Vec3) -> (r: Self)
        ensures
            r == Material::Isotropic(Texture::Solid(albedo)),
    {
        Material::Isotropic(Texture::Solid(albedo))
    }

    /// The radiance emitted at a hit.
    pub fn emit(&self, hit: &HitRecord) -> (r: Vec3)
        ensures
            r == spec_emit(*self, *hit),
    {
        match self {
            Material::DiffuseLight(tex) => {
                if hit.front_face {
                    tex.value(hit.uv.x, hit.uv.y, &hit.p, &hit.normal)
                } else {
                    Vec3::zero()
                }
            },
            _ => Vec3::zero(),
        }
    }

    /// The density with which this material scatters into the direction of
    /// `scattered`; used to weight the Monte-Carlo estimator.
    pub fn scattering_pdf(&self, _r: &Ray, hit: &HitRecord, scattered: &Ray) -> (res: Fx)
        ensures
            res == spec_scattering_pdf(*self, *hit, *scattered),
            res@ >= 0,
    {
        match self {
            Material::Lambertian(_) => {
                let cosine = hit.normal.dot(scattered.direction.normalize());
                if cosine.raw <= 0 {
                    Fx { raw: 0 }
                } else {
                    let d = cosine.div(Fx { raw: PI_RAW });
                    proof {
                        vstd::arithmetic::div_mod::lemma_div_pos_is_pos(
                            cosine@ * FX_ONE as int,
                            PI_RAW as int,
                        );
                    }
                    d
                }
            },
            Material::Isotropic(_) => Fx { raw: crate::pdf::UNIFORM_SPHERE_DENSITY_RAW },
            _ => Fx { raw: FX_ONE },
        }
    }
}

} // verus!


verus! {

/// What a material does to an incoming ray at a hit: either a single
/// deterministic outgoing ray (specular transport), or a sampling
/// distribution over outgoing directions, each with an attenuation color.
pub enum ScatterRecord<'a> {
    Specular { ray: Ray, attenuation: Vec3 },
    PDF { pdf: PDF<'a>, attenuation: Vec3 },
}

impl Material {
    /// Scatter an incoming ray at a hit.
    ///
    /// A diffuse surface yields its texture color and a cosine distribution
    /// around the surface normal; an isotropic medium yields its color and
    /// the uniform distribution over the full sphere of directions; neither
    /// touches anything random. A light never scatters. A dielectric always yields one
    /// specular ray — the reflection when refraction is impossible or when
    /// Schlick's reflectance beats one fresh draw, else the refraction. A
    /// metal yields the reflection perturbed by its fuzz radius, absorbed
    /// when the perturbed direction leaves the surface plane; with zero
    /// fuzz it is deterministic.
    pub fn scatter<'m, 'a>(&'m self, r: &Ray, hit: &HitRecord, rng: &mut Lcg) -> (res: Option<
        ScatterRecord<'a>,
    >)
        ensures
            match *self {
                Material::Lambertian(tex) => {
                    &&& final(rng).state == old(rng).state
                    &&& res matches Some(sc) && sc == (ScatterRecord::PDF {
                        pdf: PDF::Cosine(onb_from_w(hit.normal)),
                        attenuation: tex_value(tex, hit.uv.x, hit.uv.y, hit.p, hit.normal),
                    })
                },
                Material::Isotropic(tex) => {
                    &&& final(rng).state == old(rng).state
                    &&& res matches Some(sc) && sc == (ScatterRecord::PDF {
                        pdf: PDF::UniformSphere,
                        attenuation: tex_value(tex, hit.uv.x, hit.uv.y, hit.p, hit.normal),
                    })
                },
                Material::DiffuseLight(_) => {
                    &&& final(rng).state == old(rng).state
                    &&& res is None
                },
                Material::Dielectric(d) => {
                    if d.ir@ == 0 {
                        &&& final(rng).state == old(rng).state
                        &&& res is None
                    } else {
                        let one = Fx { raw: FX_ONE };
                        let unit_dir = v3_unit(r.direction);
                        let ratio = if hit.front_face {
                            fx_div(one, d.ir)
                        } else {
                            d.ir
                        };
                        let cos_theta = fx_min(v3_dot(v3_neg(unit_dir), hit.normal), one);
                        let sin_theta = fx_sqrt(
                            fx_max(fx_sub(one, fx_mul(cos_theta, cos_theta)), Fx { raw: 0 }),
                        );
                        let cannot_refract = fx_mul(ratio, sin_theta)@ > FX_ONE as int;
                        let u = lcg_unit(old(rng).state);
                        let direction = if cannot_refract || spec_reflectance(cos_theta, ratio)@
                            > u {
                            v3_reflect(unit_dir, hit.normal)
                        } else {
                            v3_refract(unit_dir, hit.normal, ratio)
                        };
                        &&& final(rng).state == lcg_next(old(rng).state)
                        &&& res matches Some(sc) && sc == (ScatterRecord::Specular {
                            ray: Ray { origin: hit.p, direction, time: r.time },
                            attenuation: Vec3 {
                                x: Fx { raw: FX_ONE },
                                y: Fx { raw: FX_ONE },
                                z: Fx { raw: FX_ONE },
                            },
                        })
                    }
                },
                Material::Metal(m) => {
                    let reflected = v3_reflect(v3_unit(r.direction), hit.normal);
                    &&& (res matches Some(sc) ==> (exists|pv: Vec3|
                        {
                            &&& v3_sqrlen(pv)@ < FX_ONE as int
                            &&& sc == (ScatterRecord::Specular {
                                ray: Ray {
                                    origin: hit.p,
                                    direction: v3_add(reflected, #[trigger] v3_scale(pv, m.fuzz)),
                                    time: r.time,
                                },
                                attenuation: m.albedo,
                            })
                            &&& v3_dot(v3_add(reflected, v3_scale(pv, m.fuzz)), hit.normal)@ > 0
                        }))
                    &&& (m.fuzz@ == 0 ==> (res is Some <==> v3_dot(reflected, hit.normal)@ > 0))
                    &&& (m.fuzz@ == 0 ==> (res matches Some(sc) ==> sc == (ScatterRecord::Specular {
                        ray: Ray { origin: hit.p, direction: reflected, time: r.time },
                        attenuation: m.albedo,
                    })))
                },
            },
    {
        match self {
            Material::Lambertian(tex) => {
                let albedo = tex.value(hit.uv.x, hit.uv.y, &hit.p, &hit.normal);
                Some(
                    ScatterRecord::PDF {
                        attenuation: albedo,
                        pdf: PDF::Cosine(ONB::from_w(&hit.normal)),
                    },
                )
            },
            Material::Isotropic(tex) => {
                let albedo = tex.value(hit.uv.x, hit.uv.y, &hit.p, &hit.normal);
                Some(ScatterRecord::PDF { attenuation: albedo, pdf: PDF::UniformSphere })
            },
            Material::DiffuseLight(_) => None,
            Material::Dielectric(d) => {
                if d.ir.raw == 0 {
                    return None;
                }
                let one = Fx { raw: FX_ONE };
                let unit_dir = r.direction.normalize();
                let ratio = if hit.front_face {
                    one.div(d.ir)
                } else {
                    d.ir
                };
                let cos_theta = unit_dir.neg().dot(hit.normal).min(one);
                let sin_theta = one.sub(cos_theta.mul(cos_theta)).max(Fx { raw: 0 }).sqrt();
                let cannot_refract = ratio.mul(sin_theta).raw > FX_ONE;
                let u = rng.next_unit();
                let direction = if cannot_refract || reflectance(cos_theta, ratio).raw > u.raw {
                    unit_dir.reflect(hit.normal)
                } else {
                    unit_dir.refract(hit.normal, ratio)
                };
                Some(
                    ScatterRecord::Specular {
                        ray: Ray::new(hit.p, direction, r.time),
                        attenuation: Vec3 {
                            x: Fx { raw: FX_ONE },
                            y: Fx { raw: FX_ONE },
                            z: Fx { raw: FX_ONE },
                        },
                    },
                )
            },
            Material::Metal(m) => {
                let reflected = r.direction.normalize().reflect(hit.normal);
                let perturb = Vec3::random_in_unit_sphere(rng);
                let direction = reflected.add(perturb.scale(m.fuzz));
                proof {
                    if m.fuzz@ == 0 {
                        crate::quat::lemma_mul_zero(perturb.x);
                        crate::quat::lemma_mul_zero(perturb.y);
                        crate::quat::lemma_mul_zero(perturb.z);
                    }
                }
                if direction.dot(hit.normal).raw > 0 {
                    let sc = ScatterRecord::Specular {
                        ray: Ray::new(hit.p, direction, r.time),
                        attenuation: m.albedo,
                    };
                    proof {
                        assert(v3_sqrlen(perturb)@ < FX_ONE as int && direction == v3_add(
                            v3_reflect(v3_unit(r.direction), hit.normal),
                            v3_scale(perturb, m.fuzz),
                        ));
                    }
                    Some(sc)
                } else {
                    None
                }
            },
        }
    }
}

/// Schlick's reflectance approximation; mirrors `spec_reflectance`.
fn reflectance(cosine: Fx, ref_idx: Fx) -> (res: Fx)
    ensures
        res == spec_reflectance(cosine, ref_idx),
{
    let one = Fx { raw: FX_ONE };
    let denom = one.add(ref_idx);
    let r0 = if denom.raw == 0 {
        Fx { raw: 0 }
    } else {
        one.sub(ref_idx).div(denom)
    };
    let r0sq = r0.mul(r0);
    let omc = one.sub(cosine);
    let p5 = omc.mul(omc).mul(omc).mul(omc).mul(omc);
    r0sq.add(one.sub(r0sq).mul(p5))
}

} // verus!
