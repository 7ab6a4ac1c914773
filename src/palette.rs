use crate::error::CompressError;
use crate::raster::{channel, Rgba};
use vstd::prelude::*;

verus! {

/// The largest palette that an indexed bitmap of eight bits can address.
pub const MAX_PALETTE_LEN: usize = 256;

/// Every index in `idx` addresses one of the `n` palette entries.
pub open spec fn indexes_in_range(idx: Seq<u8>, n: int) -> bool {
    forall|i: int| 0 <= i < idx.len() ==> (#[trigger] idx[i] as int) < n
}

/// The palette's colours as consecutive red, green, blue triplets.
pub open spec fn rgb_table(p: Seq<Rgba>) -> Seq<u8> {
    Seq::new(3 * p.len(), |k: int| channel(p[k / 3], k % 3))
}

/// The palette's alpha values, one per entry, in palette order.
pub open spec fn alpha_table(p: Seq<Rgba>) -> Seq<u8> {
    Seq::new(p.len(), |i: int| p[i].a)
}

/// The dense RGBA bytes that the indexed bitmap `idx` over palette `p` stands
/// for: four bytes per index, in index order.
pub open spec fn expanded(p: Seq<Rgba>, idx: Seq<u8>) -> Seq<u8> {
    Seq::new(4 * idx.len(), |k: int| channel(p[idx[k / 4] as int], k % 4))
}

/// A palette and one index into it per pixel.
#[derive(Debug)]
pub struct Quantized {
    pub palette: Vec<Rgba>,
    pub indexes: Vec<u8>,
}

impl Quantized {
    /// At most 256 entries, one index per pixel, each index in the palette.
    pub open spec fn consistent(&self, pixel_count: int) -> bool {
        &&& self.palette@.len() <= MAX_PALETTE_LEN
        &&& self.indexes@.len() == pixel_count
        &&& indexes_in_range(self.indexes@, self.palette@.len() as int)
    }
}

/// Tests that every index of `indexes` lies below `n`.
fn all_below(indexes: &Vec<u8>, n: usize) -> (r: bool)
    ensures
        r == indexes_in_range(indexes@, n as int),
{
    let mut i: usize = 0;
    while i < indexes.len()
        invariant
            i <= indexes@.len(),
            indexes_in_range(indexes@.subrange(0, i as int), n as int),
        decreases indexes@.len() - i,
    {
        if indexes[i] as usize >= n {
            assert(indexes@.subrange(0, i as int + 1)[i as int] == indexes@[i as int]);
            return false;
        }
        assert forall|j: int| 0 <= j < i + 1 implies (#[trigger] indexes@.subrange(
            0,
            i as int + 1,
        )[j] as int) < n by {
            if j < i {
                assert(indexes@.subrange(0, i as int + 1)[j] == indexes@.subrange(0, i as int)[j]);
            }
        }
        i = i + 1;
    }
    assert(indexes@.subrange(0, i as int) =~= indexes@);
    true
}

/// Accepts a quantizer's palette and indexes for an image of `pixel_count`
/// pixels only where they are consistent with each other and with the image.
pub fn check_remapped(palette: Vec<Rgba>, indexes: Vec<u8>, pixel_count: usize) -> (r: Result<
    Quantized,
    CompressError,
>)
    ensures
        r is Ok <==> (palette@.len() <= MAX_PALETTE_LEN && indexes@.len() == pixel_count
            && indexes_in_range(indexes@, palette@.len() as int)),
        r matches Ok(q) ==> q.palette@ == palette@ && q.indexes@ == indexes@,
        r matches Err(e) ==> e == CompressError::QuantizationFailed,
{
    if palette.len() > MAX_PALETTE_LEN || indexes.len() != pixel_count || !all_below(
        &indexes,
        palette.len(),
    ) {
        return Err(CompressError::QuantizationFailed);
    }
    Ok(Quantized { palette, indexes })
}

/// Splits a palette into the colour table and the parallel transparency
/// table of an indexed PNG.
pub fn split_palette(palette: &Vec<Rgba>) -> (r: (Vec<u8>, Vec<u8>))
    requires
        palette@.len() <= MAX_PALETTE_LEN,
    ensures
        r.0@ == rgb_table(palette@),
        r.1@ == alpha_table(palette@),
{
    let mut rgb: Vec<u8> = Vec::with_capacity(3 * palette.len());
    let mut alpha: Vec<u8> = Vec::with_capacity(palette.len());
    let mut i: usize = 0;
    while i < palette.len()
        invariant
            palette@.len() <= MAX_PALETTE_LEN,
            i <= palette@.len(),
            rgb@.len() == 3 * i,
            alpha@.len() == i,
            forall|j: int, c: int|
                0 <= j < i && 0 <= c < 3 ==> #[trigger] rgb@[3 * j + c] == channel(palette@[j], c),
            forall|j: int| 0 <= j < i ==> #[trigger] alpha@[j] == palette@[j].a,
        decreases palette@.len() - i,
    {
        let p = palette[i];
        rgb.push(p.r);
        rgb.push(p.g);
        rgb.push(p.b);
        alpha.push(p.a);
        assert forall|j: int, c: int| 0 <= j < i + 1 && 0 <= c < 3 implies #[trigger] rgb@[3 * j
            + c] == channel(palette@[j], c) by {
            if j == i {
                assert(rgb@[3 * j + c] == channel(palette@[j], c));
            }
        }
        i = i + 1;
    }
    assert forall|k: int| 0 <= k < rgb@.len() implies rgb@[k] == rgb_table(palette@)[k] by {
        let j = k / 3;
        let c = k % 3;
        assert(k == 3 * j + c);
        assert(rgb@[3 * j + c] == channel(palette@[j], c));
    }
    assert(rgb@ =~= rgb_table(palette@));
    assert(alpha@ =~= alpha_table(palette@));
    (rgb, alpha)
}

/// Expands a palette and its indexes back into dense RGBA bytes. Fails,
/// rather than clamping, where an index lies outside the palette.
pub fn reconstruct(palette: &Vec<Rgba>, indexes: &Vec<u8>) -> (r: Result<Vec<u8>, CompressError>)
    requires
        indexes@.len() <= usize::MAX / 4,
    ensures
        r is Ok <==> indexes_in_range(indexes@, palette@.len() as int),
        r matches Ok(v) ==> v@ == expanded(palette@, indexes@),
        r matches Err(e) ==> e == CompressError::EncodeFailed,
{
    if !all_below(indexes, palette.len()) {
        return Err(CompressError::EncodeFailed);
    }
    let n = indexes.len();
    let mut out: Vec<u8> = Vec::with_capacity(4 * n);
    let mut i: usize = 0;
    while i < n
        invariant
            n == indexes@.len(),
            n <= usize::MAX / 4,
            indexes_in_range(indexes@, palette@.len() as int),
            i <= n,
            out@.len() == 4 * i,
            forall|j: int, c: int|
                0 <= j < i && 0 <= c < 4 ==> #[trigger] out@[4 * j + c] == channel(
                    palette@[indexes@[j] as int],
                    c,
                ),
        decreases n - i,
    {
        assert((indexes@[i as int] as int) < palette@.len());
        let p = palette[indexes[i] as usize];
        out.push(p.r);
        out.push(p.g);
        out.push(p.b);
        out.push(p.a);
        assert forall|j: int, c: int| 0 <= j < i + 1 && 0 <= c < 4 implies #[trigger] out@[4 * j
            + c] == channel(palette@[indexes@[j] as int], c) by {
            if j == i {
                assert(out@[4 * j + c] == channel(palette@[indexes@[j] as int], c));
            }
        }
        i = i + 1;
    }
    assert forall|k: int| 0 <= k < out@.len() implies out@[k] == expanded(palette@, indexes@)[k] by {
        let j = k / 4;
        let c = k % 4;
        assert(k == 4 * j + c);
        assert(out@[4 * j + c] == channel(palette@[indexes@[j] as int], c));
    }
    assert(out@ =~= expanded(palette@, indexes@));
    Ok(out)
}

/// Splitting a palette into colour and transparency tables drops no alpha:
/// the transparency table has one entry per palette entry, and each pixel
/// rebuilt from the indexes carries the alpha that the table gives its index.
pub proof fn lemma_alpha_survives_split(p: Seq<Rgba>, idx: Seq<u8>)
    requires
        indexes_in_range(idx, p.len() as int),
    ensures
        alpha_table(p).len() == p.len(),
        rgb_table(p).len() == 3 * p.len(),
        forall|i: int|
            0 <= i < idx.len() ==> #[trigger] expanded(p, idx)[4 * i + 3] == alpha_table(p)[idx[i] as int],
{
    assert forall|i: int| 0 <= i < idx.len() implies #[trigger] expanded(p, idx)[4 * i + 3]
        == alpha_table(p)[idx[i] as int] by {
        assert((4 * i + 3) / 4 == i);
        assert((4 * i + 3) % 4 == 3);
        assert((idx[i] as int) < p.len());
    }
}

} // verus!
