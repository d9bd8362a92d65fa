use vstd::prelude::*;
use crate::fx::{Fx, fdiv, fx_abs, fx_min, fx_max, floor_div_i128, FX_ONE, PI_RAW};
use crate::vec3::Vec3;
use vstd::arithmetic::div_mod::{
    lemma_div_pos_is_pos,
    lemma_div_is_ordered,
    lemma_div_multiples_vanish,
};

verus! {

/// Scale of the checker pattern.
pub const CHECKER_SCALE: i64 = 10;

/// Largest accepted image side, so that all sampling arithmetic stays in
/// range.
pub const MAX_IMAGE_SIDE: usize = 16384;

/// A sampled bitmap: `width * height` pixels, three bytes each, rows first.
#[derive(Debug)]
pub struct ImageTexture {
    pub width: usize,
    pub height: usize,
    pub pixels: Vec<u8>,
}

impl ImageTexture {
    /// A usable bitmap: nonempty, bounded sides, fully backed by bytes.
    pub open spec fn wf(&self) -> bool {
        &&& 1 <= self.width <= MAX_IMAGE_SIDE
        &&& 1 <= self.height <= MAX_IMAGE_SIDE
        &&& self.pixels@.len() == 3 * self.width * self.height
    }

    /// Runtime check mirroring `wf`.
    pub fn check(&self) -> (r: bool)
        ensures
            r == self.wf(),
    {
        if self.width < 1 || self.width > MAX_IMAGE_SIDE || self.height < 1 || self.height
            > MAX_IMAGE_SIDE {
            return false;
        }
        proof {
            crate::fx::lemma_mul_bound(self.width as int, self.height as int, 16384);
            assert(3 * (self.width as int * self.height as int) == 3 * self.width as int
                * self.height as int) by (nonlinear_arith);
        }
        self.pixels.len() == 3 * (self.width * self.height)
    }
}

/// A color source on a surface: a pure function of the surface coordinates,
/// the hit point and the normal.
#[derive(Debug)]
pub enum Texture {
    /// One color everywhere.
    Solid(Vec3),
    /// Two sub-textures alternating in a three-dimensional checker pattern.
    Checker(Box<Texture>, Box<Texture>),
    /// A bitmap sampled by the surface coordinates.
    Image(ImageTexture),
    /// The absolute value of the surface normal, for visualization.
    Normal,
    /// The surface coordinates themselves, for visualization.
    UV,
}

/// Which cell of the checker pattern a point falls in: the parity of the
/// summed cell indices along the three axes, with cells of side pi over the
/// checker scale. This is the sign of the product of the sines of the three
/// scaled coordinates, written without trigonometry.
pub open spec fn checker_odd(p: Vec3) -> bool {
    let kx = fdiv(CHECKER_SCALE as int * p.x@, PI_RAW as int);
    let ky = fdiv(CHECKER_SCALE as int * p.y@, PI_RAW as int);
    let kz = fdiv(CHECKER_SCALE as int * p.z@, PI_RAW as int);
    let s = kx + ky + kz;
    (if s < 0 {
        -s
    } else {
        s
    }) % 2 == 1
}

/// A surface coordinate clamped to [0, 1].
pub open spec fn clamp01(c: Fx) -> Fx {
    fx_min(fx_max(c, Fx { raw: 0 }), Fx { raw: FX_ONE })
}

/// The pixel index sampled for a clamped surface coordinate: scale by the
/// side and clamp to the last index.
pub open spec fn sample_coord(c: Fx, side: int) -> int {
    let i = fdiv(clamp01(c)@ * side, FX_ONE as int);
    if i >= side {
        side - 1
    } else {
        i
    }
}

/// One channel byte rescaled to a fixed-point value in [0, 1].
pub open spec fn channel_fx(b: u8) -> Fx {
    Fx { raw: (fdiv(b as int * FX_ONE as int, 255)) as i64 }
}

/// The color of a bitmap at the given surface coordinates, with the
/// vertical coordinate flipped to image rows; black if the bitmap is not
/// well formed.
pub open spec fn image_value(img: ImageTexture, u: Fx, v: Fx) -> Vec3 {
    if img.wf() {
        let x = sample_coord(u, img.width as int);
        let y = sample_coord(Fx { raw: (FX_ONE as int - clamp01(v)@) as i64 }, img.height as int);
        let idx = 3 * (y * img.width + x);
        Vec3 {
            x: channel_fx(img.pixels@[idx]),
            y: channel_fx(img.pixels@[idx + 1]),
            z: channel_fx(img.pixels@[idx + 2]),
        }
    } else {
        Vec3 { x: Fx { raw: 0 }, y: Fx { raw: 0 }, z: Fx { raw: 0 } }
    }
}

/// The color of a texture at a surface point.
pub open spec fn tex_value(t: Texture, u: Fx, v: Fx, p: Vec3, normal: Vec3) -> Vec3
    decreases t,
{
    match t {
        Texture::Solid(c) => c,
        Texture::Checker(odd, even) => if checker_odd(p) {
            tex_value(*odd, u, v, p, normal)
        } else {
            tex_value(*even, u, v, p, normal)
        },
        Texture::Image(img) => image_value(img, u, v),
        Texture::Normal => Vec3 { x: fx_abs(normal.x), y: fx_abs(normal.y), z: fx_abs(normal.z) },
        Texture::UV => Vec3 { x: u, y: v, z: Fx { raw: 0 } },
    }
}

/// The cell index of one scaled coordinate stays within the 64-bit range.
proof fn lemma_cell_bounds(c: int)
    requires
        -0x8000000000000000 <= c,
        c < 0x8000000000000000,
    ensures
        -92233720368547758080 <= CHECKER_SCALE as int * c <= 92233720368547758080,
        -450000000000000 <= fdiv(CHECKER_SCALE as int * c, PI_RAW as int) <= 450000000000000,
{
    let p = CHECKER_SCALE as int * c;
    assert(-92233720368547758080 <= p <= 92233720368547758080) by (nonlinear_arith)
        requires
            p == 10 * c,
            -0x8000000000000000 <= c,
            c < 0x8000000000000000,
    {}
    if p >= 0 {
        lemma_div_pos_is_pos(p, PI_RAW as int);
        lemma_div_is_ordered(p, 92233720368547758080, PI_RAW as int);
    } else {
        lemma_div_is_ordered(-92233720368547758080, p, PI_RAW as int);
        lemma_div_is_ordered(p, 0, PI_RAW as int);
    }
}

/// The checker cell index of one coordinate.
fn checker_cell(c: Fx) -> (r: i64)
    ensures
        r as int == fdiv(CHECKER_SCALE as int * c.raw as int, PI_RAW as int),
        -450000000000000 <= r as int <= 450000000000000,
{
    proof {
        lemma_cell_bounds(c.raw as int);
    }
    let q = floor_div_i128(CHECKER_SCALE as i128 * c.raw as i128, PI_RAW as i128);
    q as i64
}

/// The exec sampling coordinate; mirrors `sample_coord`.
fn sample_coord_exec(c: Fx, side: usize) -> (r: usize)
    requires
        1 <= side <= MAX_IMAGE_SIDE,
    ensures
        r as int == sample_coord(c, side as int),
        r < side,
{
    let cl = c.max(Fx { raw: 0 }).min(Fx { raw: FX_ONE });
    proof {
        let p = cl.raw as int * side as int;
        assert(0 <= p <= 65536 * side as int) by (nonlinear_arith)
            requires
                0 <= cl.raw as int <= 65536,
                1 <= side as int,
                p == cl.raw as int * side as int,
        {}
        lemma_div_pos_is_pos(p, FX_ONE as int);
        lemma_div_is_ordered(p, 65536 * side as int, FX_ONE as int);
        lemma_div_multiples_vanish(side as int, 65536);
    }
    let prod: u64 = cl.raw as u64 * side as u64;
    let i = (prod / (FX_ONE as u64)) as usize;
    if i >= side {
        side - 1
    } else {
        i
    }
}

impl Texture {
    /// A checker of two sub-textures.
    pub fn new_checker(odd: Texture, even: Texture) -> (r: Self)
        ensures
            r == Texture::Checker(Box::new(odd), Box::new(even)),
    {
        Texture::Checker(Box::new(odd), Box::new(even))
    }

    /// A checker of two solid colors.
    pub fn new_checker_color(odd: Vec3, even: Vec3) -> (r: Self)
        ensures
            r == Texture::Checker(Box::new(Texture::Solid(odd)), Box::new(Texture::Solid(even))),
    {
        Self::new_checker(Texture::Solid(odd), Texture::Solid(even))
    }

    /// A bitmap texture from decoded pixel bytes; `None` if the dimensions
    /// and the byte count do not fit together. Decoding an image file is the
    /// caller's task.
    pub fn new_image(width: usize, height: usize, pixels: Vec<u8>) -> (r: Option<Self>)
        ensures
            match r {
                Some(t) => {
                    &&& t == Texture::Image(ImageTexture { width, height, pixels })
                    &&& (ImageTexture { width, height, pixels }).wf()
                },
                None => !(ImageTexture { width, height, pixels }).wf(),
            },
    {
        let img = ImageTexture { width, height, pixels };
        if img.check() {
            Some(Texture::Image(img))
        } else {
            None
        }
    }

    /// The color of this texture at surface coordinates `(u, v)`, point `p`
    /// and surface normal `normal`.
    pub fn value(&self, u: Fx, v: Fx, p: &Vec3, normal: &Vec3) -> (r: Vec3)
        ensures
            r == tex_value(*self, u, v, *p, *normal),
        decreases *self,
    {
        match self {
            Texture::Solid(c) => *c,
            Texture::Checker(odd, even) => {
                let kx = checker_cell(p.x);
                let ky = checker_cell(p.y);
                let kz = checker_cell(p.z);
                let s: i64 = kx + ky + kz;
                let a: u64 = if s < 0 {
                    (-s) as u64
                } else {
                    s as u64
                };
                if a % 2 == 1 {
                    odd.value(u, v, p, normal)
                } else {
                    even.value(u, v, p, normal)
                }
            },
            Texture::Image(img) => {
                if img.check() {
                    let x = sample_coord_exec(u, img.width);
                    let vc = v.max(Fx { raw: 0 }).min(Fx { raw: FX_ONE });
                    let y = sample_coord_exec(Fx { raw: FX_ONE - vc.raw }, img.height);
                    proof {
                        assert(y * img.width + x < img.width * img.height && y * img.width
                            < 268435456) by (nonlinear_arith)
                            requires
                                y < img.height as int,
                                x < img.width as int,
                                0 <= x,
                                0 <= y,
                                1 <= img.width as int <= 16384,
                                1 <= img.height as int <= 16384,
                        {}
                        crate::fx::lemma_mul_bound(img.width as int, img.height as int, 16384);
                        assert(3 * (img.width as int * img.height as int) == 3 * img.width as int
                            * img.height as int) by (nonlinear_arith);
                    }
                    let idx: usize = 3 * (y * img.width + x);
                    let cr = img.pixels[idx];
                    let cg = img.pixels[idx + 1];
                    let cb = img.pixels[idx + 2];
                    Vec3 { x: channel_fx_exec(cr), y: channel_fx_exec(cg), z: channel_fx_exec(cb) }
                } else {
                    Vec3::zero()
                }
            },
            Texture::Normal => Vec3 { x: normal.x.abs(), y: normal.y.abs(), z: normal.z.abs() },
            Texture::UV => Vec3 { x: u, y: v, z: Fx { raw: 0 } },
        }
    }
}

/// One channel byte rescaled to [0, 1]; mirrors `channel_fx`.
fn channel_fx_exec(b: u8) -> (r: Fx)
    ensures
        r == channel_fx(b),
        0 <= r@ <= FX_ONE as int,
{
    proof {
        let p = b as int * FX_ONE as int;
        lemma_div_pos_is_pos(p, 255);
        lemma_div_is_ordered(p, 255int * 65536, 255);
        lemma_div_multiples_vanish(65536, 255);
    }
    let prod: u64 = b as u64 * FX_ONE as u64;
    let raw = (prod / 255) as i64;
    Fx { raw }
}

} // verus!
