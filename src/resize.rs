use crate::error::CompressError;
use crate::raster::RgbaRaster;
use vstd::arithmetic::power2::{lemma_pow2_strictly_increases, pow2};
use vstd::prelude::*;

verus! {

/// What nearest-neighbour resampling of the `width` by `height` RGBA bytes
/// `data` to `new_width` by `new_height` yields.
pub uninterp spec fn nearest_resized(
    data: Seq<u8>,
    width: nat,
    height: nat,
    new_width: nat,
    new_height: nat,
) -> Seq<u8>;

/// A scale factor in (0, 1], held exactly as `num / 2^shift`.
#[derive(Clone, Copy, Debug, PartialEq, Eq, Structural)]
pub struct ResizeFactor {
    pub num: u32,
    pub shift: u32,
}

/// The largest mantissa of a single-precision float, hidden bit included.
pub const MANTISSA_LIMIT: u32 = 16777216;

/// The hidden bit of a normal single-precision float.
pub const HIDDEN_BIT: u32 = 8388608;

pub open spec fn sign_of_bits(bits: u32) -> int {
    bits as int / 0x8000_0000
}

pub open spec fn exponent_of_bits(bits: u32) -> int {
    (bits as int / HIDDEN_BIT as int) % 256
}

pub open spec fn fraction_of_bits(bits: u32) -> int {
    bits as int % HIDDEN_BIT as int
}

/// The single-precision float with these bits is positive, at most 1, and
/// at least 2^-33: any smaller factor shrinks every side of a raster (at most
/// 2^32 - 1 pixels) to nothing.
pub open spec fn accepted_bits(bits: u32) -> bool {
    &&& sign_of_bits(bits) == 0
    &&& 94 <= exponent_of_bits(bits) <= 127
    &&& exponent_of_bits(bits) == 127 ==> fraction_of_bits(bits) == 0
}

impl ResizeFactor {
    pub open spec fn wf(&self) -> bool {
        &&& 1 <= self.num <= MANTISSA_LIMIT
        &&& self.shift <= 56
        &&& self.num as int <= pow2(self.shift as nat)
    }

    /// The factor is exactly 1.
    pub open spec fn is_identity(&self) -> bool {
        self.num as int == pow2(self.shift as nat)
    }

    /// `floor(d * factor)`.
    pub open spec fn scaled(&self, d: int) -> int {
        (d * self.num) / pow2(self.shift as nat) as int
    }

    /// The factor 1: no resize.
    pub fn identity() -> (r: ResizeFactor)
        ensures
            r.wf(),
            r.is_identity(),
    {
        proof {
            vstd::arithmetic::power2::lemma2_to64();
        }
        ResizeFactor { num: 1, shift: 0 }
    }

    /// The factor that the single-precision float with these bits denotes,
    /// held without rounding. Refuses NaN, infinities, zero, negative values,
    /// values above 1, and values below 2^-33.
    pub fn from_f32_bits(bits: u32) -> (r: Result<ResizeFactor, CompressError>)
        ensures
            r is Ok <==> accepted_bits(bits),
            r matches Ok(f) ==> f.wf() && f.num == HIDDEN_BIT + fraction_of_bits(bits) && f.shift
                == 150 - exponent_of_bits(bits),
            r matches Err(e) ==> e == CompressError::InvalidResizeFactor,
    {
        let sign = bits / 0x8000_0000;
        let exponent = (bits / HIDDEN_BIT) % 256;
        let fraction = bits % HIDDEN_BIT;
        if sign != 0 || exponent < 94 || exponent > 127 || (exponent == 127 && fraction != 0) {
            return Err(CompressError::InvalidResizeFactor);
        }
        let f = ResizeFactor { num: HIDDEN_BIT + fraction, shift: 150 - exponent };
        proof {
            vstd::arithmetic::power2::lemma2_to64();
            if f.shift > 24 {
                lemma_pow2_strictly_increases(24, f.shift as nat);
            }
        }
        Ok(f)
    }

    /// `floor(d * factor)`, which never exceeds `d`.
    pub fn scale(&self, d: u32) -> (r: u32)
        requires
            self.wf(),
        ensures
            r as int == self.scaled(d as int),
            r <= d,
    {
        proof {
            assert(d as int * self.num as int <= 0xffff_ffff * 16777216) by (nonlinear_arith)
                requires
                    d <= 0xffff_ffff,
                    self.num <= 16777216,
            ;
        }
        let prod: u64 = d as u64 * self.num as u64;
        proof {
            let p = pow2(self.shift as nat);
            vstd::arithmetic::power2::lemma2_to64();
            vstd::bits::lemma_u64_shr_is_div(prod, self.shift as u64);
            vstd::arithmetic::power2::lemma_pow2_pos(self.shift as nat);
            assert((d as int * self.num as int) / (p as int) <= d as int) by (nonlinear_arith)
                requires
                    self.num as int <= p,
                    p > 0,
                    d >= 0,
            {
                vstd::arithmetic::div_mod::lemma_div_is_ordered(
                    d as int * self.num as int,
                    d as int * p as int,
                    p as int,
                );
                vstd::arithmetic::div_mod::lemma_div_multiples_vanish(d as int, p as int);
            }
        }
        (prod >> (self.shift as u64)) as u32
    }
}

/// Relies on image::imageops::resize with FilterType::Nearest: a buffer of
/// exactly `new_width` by `new_height` RGBA pixels.
#[verifier::external_body]
fn resize_nearest(data: &Vec<u8>, width: u32, height: u32, new_width: u32, new_height: u32) -> (r:
    Vec<u8>)
    requires
        data@.len() == 4 * (width as int * height as int),
        new_width <= width,
        new_height <= height,
    ensures
        r@ == nearest_resized(data@, width as nat, height as nat, new_width as nat, new_height as nat),
        r@.len() == 4 * (new_width as int * new_height as int),
{
    let img = image::RgbaImage::from_raw(width, height, data.clone()).expect("length checked");
    image::imageops::resize(&img, new_width, new_height, image::imageops::FilterType::Nearest).into_raw()
}

/// The bytes of the `width` by `height` RGBA raster `data` after scaling by
/// `f`: unchanged for the factor 1, nearest-neighbour resampled otherwise.
pub open spec fn resized_pixels(data: Seq<u8>, width: u32, height: u32, f: ResizeFactor) -> Seq<u8> {
    if f.is_identity() {
        data
    } else {
        nearest_resized(
            data,
            width as nat,
            height as nat,
            f.scaled(width as int) as nat,
            f.scaled(height as int) as nat,
        )
    }
}

/// Scales the raster to `floor(width * factor)` by `floor(height * factor)`
/// pixels with nearest-neighbour sampling. The factor 1 gives back the
/// raster's pixels as they are. Any other factor that floors a side to
/// nothing is refused.
pub fn resize(raster: &RgbaRaster, factor: ResizeFactor) -> (r: Result<RgbaRaster, CompressError>)
    requires
        raster.wf(),
        factor.wf(),
    ensures
        factor.is_identity() ==> (r matches Ok(x) && x.width == raster.width && x.height
            == raster.height && x.data@ == raster.data@),
        r is Err <==> (!factor.is_identity() && (factor.scaled(raster.width as int) == 0
            || factor.scaled(raster.height as int) == 0)),
        r matches Ok(x) ==> x.width == factor.scaled(raster.width as int) && x.height
            == factor.scaled(raster.height as int),
        r matches Ok(x) ==> x.data@ == resized_pixels(raster.data@, raster.width, raster.height, factor),
        r matches Ok(x) ==> x.wf(),
        r matches Err(e) ==> e == CompressError::InvalidResizeFactor,
{
    if factor.num as u64 == pow2_exec(factor.shift) {
        proof {
            lemma_identity_scales_to_self(factor, raster.width as int);
            lemma_identity_scales_to_self(factor, raster.height as int);
        }
        return Ok(raster.copy());
    }
    let new_width = factor.scale(raster.width);
    let new_height = factor.scale(raster.height);
    if new_width == 0 || new_height == 0 {
        return Err(CompressError::InvalidResizeFactor);
    }
    let data = resize_nearest(&raster.data, raster.width, raster.height, new_width, new_height);
    Ok(RgbaRaster { width: new_width, height: new_height, data })
}

proof fn lemma_identity_scales_to_self(f: ResizeFactor, d: int)
    requires
        f.wf(),
        f.is_identity(),
        d >= 0,
    ensures
        f.scaled(d) == d,
{
    vstd::arithmetic::power2::lemma_pow2_pos(f.shift as nat);
    vstd::arithmetic::div_mod::lemma_div_multiples_vanish(d, pow2(f.shift as nat) as int);
}

/// `2^shift`.
fn pow2_exec(shift: u32) -> (r: u64)
    requires
        shift <= 56,
    ensures
        r as int == pow2(shift as nat),
{
    proof {
        vstd::arithmetic::power2::lemma2_to64();
        lemma_pow2_strictly_increases(shift as nat, 64);
        vstd::bits::lemma_u64_shl_is_mul(1, shift as u64);
    }
    1u64 << (shift as u64)
}

} // verus!
