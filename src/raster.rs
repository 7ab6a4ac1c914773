use vstd::prelude::*;

verus! {

/// One pixel: red, green, blue and alpha, eight bits each.
#[derive(Clone, Copy, Debug, PartialEq, Eq, Structural)]
pub struct Rgba {
    pub r: u8,
    pub g: u8,
    pub b: u8,
    pub a: u8,
}

/// Channel `c` of `p`, in the order red, green, blue, alpha.
pub open spec fn channel(p: Rgba, c: int) -> u8 {
    if c == 0 {
        p.r
    } else if c == 1 {
        p.g
    } else if c == 2 {
        p.b
    } else {
        p.a
    }
}

/// Pixel `i` of a dense RGBA byte sequence.
pub open spec fn pixel_at(data: Seq<u8>, i: int) -> Rgba {
    Rgba { r: data[4 * i], g: data[4 * i + 1], b: data[4 * i + 2], a: data[4 * i + 3] }
}

/// A decoded image: `width` by `height` pixels, four bytes each, row by row.
#[derive(Debug)]
pub struct RgbaRaster {
    pub width: u32,
    pub height: u32,
    pub data: Vec<u8>,
}

impl RgbaRaster {
    pub open spec fn pixel_count(&self) -> int {
        self.width as int * self.height as int
    }

    /// The byte buffer holds exactly one RGBA quadruple per pixel.
    pub open spec fn wf(&self) -> bool {
        self.data@.len() == 4 * self.pixel_count()
    }

    /// A raster over `data`, or `None` where its length does not match the
    /// dimensions.
    pub fn from_parts(width: u32, height: u32, data: Vec<u8>) -> (r: Option<RgbaRaster>)
        ensures
            r is Some <==> data@.len() == 4 * (width as int * height as int),
            r matches Some(x) ==> x.width == width && x.height == height && x.data@ == data@,
    {
        if size_matches(width, height, data.len()) {
            Some(RgbaRaster { width, height, data })
        } else {
            None
        }
    }

    /// Tests that the byte buffer holds one RGBA quadruple per pixel.
    pub fn has_consistent_size(&self) -> (r: bool)
        ensures
            r == self.wf(),
    {
        size_matches(self.width, self.height, self.data.len())
    }

    /// A raster with the same dimensions and bytes.
    pub fn copy(&self) -> (r: RgbaRaster)
        ensures
            r.width == self.width,
            r.height == self.height,
            r.data@ == self.data@,
    {
        let data = self.data.clone();
        assert(data@ =~= self.data@);
        RgbaRaster { width: self.width, height: self.height, data }
    }

    /// The pixels of the raster, row by row.
    pub fn pixels(&self) -> (r: Vec<Rgba>)
        requires
            self.wf(),
        ensures
            r@.len() == self.pixel_count(),
            forall|i: int| 0 <= i < r@.len() ==> r@[i] == pixel_at(self.data@, i),
    {
        let n = self.data.len() / 4;
        let mut out: Vec<Rgba> = Vec::with_capacity(n);
        let mut i: usize = 0;
        while i < n
            invariant
                n == self.pixel_count(),
                self.data@.len() == 4 * n,
                self.data@.len() <= usize::MAX,
                i <= n,
                out@.len() == i,
                forall|j: int| 0 <= j < i ==> out@[j] == pixel_at(self.data@, j),
            decreases n - i,
        {
            let k = 4 * i;
            out.push(
                Rgba {
                    r: self.data[k],
                    g: self.data[k + 1],
                    b: self.data[k + 2],
                    a: self.data[k + 3],
                },
            );
            i = i + 1;
        }
        out
    }
}

/// `len` is four bytes for each of `width * height` pixels.
fn size_matches(width: u32, height: u32, len: usize) -> (r: bool)
    ensures
        r == (len as int == 4 * (width as int * height as int)),
{
    if len % 4 != 0 {
        return false;
    }
    let w = width as usize;
    let h = height as usize;
    let px = len / 4;
    if w == 0 || h == 0 {
        assert(width as int * height as int == 0) by (nonlinear_arith)
            requires
                width == 0 || height == 0,
        ;
        return px == 0;
    }
    if px / w != h || px % w != 0 {
        proof {
            lemma_div_mod_mismatch(px as int, w as int, h as int);
        }
        return false;
    }
    proof {
        vstd::arithmetic::div_mod::lemma_fundamental_div_mod(px as int, w as int);
    }
    true
}

proof fn lemma_div_mod_mismatch(px: int, w: int, h: int)
    requires
        w > 0,
        px >= 0,
        px / w != h || px % w != 0,
    ensures
        px != w * h,
{
    if px == w * h {
        vstd::arithmetic::div_mod::lemma_div_multiples_vanish(h, w);
        vstd::arithmetic::div_mod::lemma_mod_multiples_basic(h, w);
    }
}

/// The colour bytes of a dense RGBA sequence with every fourth byte (alpha)
/// left out.
pub open spec fn rgb_of(data: Seq<u8>) -> Seq<u8> {
    Seq::new(3 * (data.len() / 4), |k: int| data[4 * (k / 3) + k % 3])
}

/// The colour bytes of a dense RGBA sequence with every fourth byte (alpha)
/// left out.
pub fn narrow_to_rgb(data: &Vec<u8>) -> (r: Vec<u8>)
    requires
        data@.len() % 4 == 0,
    ensures
        r@ == rgb_of(data@),
        r@.len() == 3 * (data@.len() / 4),
        forall|i: int, c: int|
            0 <= i < data@.len() / 4 && 0 <= c < 3 ==> #[trigger] r@[3 * i + c] == data@[4 * i + c],
{
    let n = data.len() / 4;
    let mut out: Vec<u8> = Vec::with_capacity(3 * n);
    let mut i: usize = 0;
    while i < n
        invariant
            n == data@.len() / 4,
            data@.len() == 4 * n,
            data@.len() <= usize::MAX,
            i <= n,
            out@.len() == 3 * i,
            forall|j: int, c: int|
                0 <= j < i && 0 <= c < 3 ==> #[trigger] out@[3 * j + c] == data@[4 * j + c],
        decreases n - i,
    {
        let k = 4 * i;
        out.push(data[k]);
        out.push(data[k + 1]);
        out.push(data[k + 2]);
        proof {
            assert forall|j: int, c: int| 0 <= j < i + 1 && 0 <= c < 3 implies #[trigger] out@[3 * j
                + c] == data@[4 * j + c] by {
                if j == i {
                    assert(out@[3 * j + c] == data@[4 * j + c]);
                }
            }
        }
        i = i + 1;
    }
    assert forall|k: int| 0 <= k < out@.len() implies out@[k] == rgb_of(data@)[k] by {
        let j = k / 3;
        let c = k % 3;
        assert(k == 3 * j + c);
        assert(out@[3 * j + c] == data@[4 * j + c]);
    }
    assert(out@ =~= rgb_of(data@));
    out
}

} // verus!
