use vstd::prelude::*;

use crate::data::Rgb;

verus! {

/// Byte offset of pixel `(x, y)` in a row-major RGB buffer of `width` pixels
/// per row: three bytes per pixel, row `y` first.
pub open spec fn pixel_offset(width: int, x: int, y: int) -> int {
    3 * (y * width + x)
}

/// A flat, row-major RGB pixel buffer. Row 0 is the first row of the buffer;
/// each pixel occupies three consecutive bytes.
pub struct PixelBuffer {
    pub width_px: u32,
    pub height_px: u32,
    pub data: Vec<u8>,
}

impl PixelBuffer {
    /// The buffer holds exactly three bytes for each of its pixels.
    pub open spec fn wf(self) -> bool {
        self.data@.len() == 3 * self.width_px * self.height_px
    }

    /// A black buffer of the requested dimensions.
    pub fn new(width_px: u32, height_px: u32) -> (buffer: PixelBuffer)
        requires
            3 * width_px * height_px <= usize::MAX,
        ensures
            buffer.wf(),
            buffer.width_px == width_px,
            buffer.height_px == height_px,
            forall|i: int| 0 <= i < buffer.data@.len() ==> buffer.data@[i] == 0u8,
    {
        proof {
            assert((width_px * height_px) * 3 == 3 * width_px * height_px) by (nonlinear_arith);
        }
        let count: usize = (width_px as usize) * (height_px as usize) * 3;
        let data: Vec<u8> = vec![0u8; count];
        PixelBuffer { width_px, height_px, data }
    }

    /// Writes one pixel at column `x`, row `y`.
    pub fn set_pixel(&mut self, x: u32, y: u32, pixel: Rgb)
        requires
            old(self).wf(),
            x < old(self).width_px,
            y < old(self).height_px,
        ensures
            final(self).wf(),
            final(self).width_px == old(self).width_px,
            final(self).height_px == old(self).height_px,
            final(self).data@.len() == old(self).data@.len(),
            final(self).data@[pixel_offset(old(self).width_px as int, x as int, y as int)]
                == pixel.r,
            final(self).data@[pixel_offset(old(self).width_px as int, x as int, y as int) + 1]
                == pixel.g,
            final(self).data@[pixel_offset(old(self).width_px as int, x as int, y as int) + 2]
                == pixel.b,
            forall|i: int|
                0 <= i < old(self).data@.len()
                    && !(pixel_offset(old(self).width_px as int, x as int, y as int) <= i
                    < pixel_offset(old(self).width_px as int, x as int, y as int) + 3)
                    ==> final(self).data@[i] == old(self).data@[i],
    {
        proof {
            assert(3 * (y * self.width_px + x) + 3 <= 3 * self.width_px * self.height_px)
                by (nonlinear_arith)
                requires
                    x < self.width_px,
                    y < self.height_px,
            ;
            assert(self.data.len() == self.data@.len());
        }
        let base: usize = 3 * ((y as usize) * (self.width_px as usize) + (x as usize));
        self.data[base] = pixel.r;
        self.data[base + 1] = pixel.g;
        self.data[base + 2] = pixel.b;
    }

    /// Hands out the raw bytes.
    pub fn into_raw(self) -> (data: Vec<u8>)
        ensures
            data == self.data,
    {
        self.data
    }

    /// Rebuilds a buffer from raw bytes; refuses bytes of the wrong length.
    pub fn from_raw(width_px: u32, height_px: u32, data: Vec<u8>) -> (buffer: Option<PixelBuffer>)
        ensures
            buffer is Some <==> data@.len() == 3 * width_px * height_px,
            buffer matches Some(b) ==> b == (PixelBuffer { width_px, height_px, data }) && b.wf(),
    {
        proof {
            assert(width_px * height_px <= u32::MAX * u32::MAX) by (nonlinear_arith)
                requires
                    width_px <= u32::MAX,
                    height_px <= u32::MAX,
            ;
            assert((width_px * height_px) * 3 == 3 * width_px * height_px) by (nonlinear_arith);
            assert(data.len() == data@.len());
        }
        let pixels: u64 = (width_px as u64) * (height_px as u64);
        if pixels <= u64::MAX / 3 && pixels * 3 == data.len() as u64 {
            Some(PixelBuffer { width_px, height_px, data })
        } else {
            proof {
                if pixels > u64::MAX / 3 {
                    assert(3 * (pixels as int) > u64::MAX) by (nonlinear_arith)
                        requires
                            pixels as int > u64::MAX as int / 3,
                    ;
                }
            }
            None
        }
    }
}

/// The bytes of `data` with its rows of `row_len` bytes in reverse order:
/// output row `y` is input row `rows - 1 - y`.
pub open spec fn flip_rows_spec(data: Seq<u8>, row_len: int) -> Seq<u8>
    recommends
        row_len >= 1,
{
    Seq::new(
        data.len(),
        |k: int| data[(data.len() as int / row_len - 1 - k / row_len) * row_len + k % row_len],
    )
}

/// Returns `data` with its rows in reverse order: output row `y` is input row
/// `rows - 1 - y`, where `rows == data.len() / row_len`. Used to convert
/// between bottom-up plane coordinates and top-down image coordinates.
pub fn flip_rows(data: &Vec<u8>, row_len: usize) -> (flipped: Vec<u8>)
    requires
        row_len >= 1,
        data@.len() as int % row_len as int == 0,
    ensures
        flipped@ == flip_rows_spec(data@, row_len as int),
        flipped@.len() == data@.len(),
        forall|k: int|
            0 <= k < data@.len() ==> flipped@[k] == data@[
                (data@.len() as int / row_len as int - 1 - k / row_len as int) * row_len as int + k
                    % row_len as int
            ],
{
    let rows: usize = data.len() / row_len;
    proof {
        assert(data.len() == data@.len());
        vstd::arithmetic::div_mod::lemma_fundamental_div_mod(data@.len() as int, row_len as int);
    }
    let mut flipped: Vec<u8> = Vec::new();
    let mut y: usize = 0;
    while y < rows
        invariant
            row_len >= 1,
            y <= rows,
            rows == data@.len() as int / row_len as int,
            data@.len() == rows * row_len,
            flipped@.len() == y * row_len,
            forall|k: int|
                0 <= k < y * row_len ==> flipped@[k] == data@[
                    (rows - 1 - k / row_len as int) * row_len as int + k % row_len as int
                ],
        decreases rows - y,
    {
        let src_row: usize = rows - 1 - y;
        let mut j: usize = 0;
        while j < row_len
            invariant
                row_len >= 1,
                y < rows,
                src_row == rows - 1 - y,
                j <= row_len,
                rows == data@.len() as int / row_len as int,
                data@.len() == rows * row_len,
                flipped@.len() == y * row_len + j,
                forall|k: int|
                    0 <= k < y * row_len ==> flipped@[k] == data@[
                        (rows - 1 - k / row_len as int) * row_len as int + k % row_len as int
                    ],
                forall|k: int|
                    y * row_len <= k < y * row_len + j ==> flipped@[k] == data@[
                        src_row * row_len + (k - y * row_len)
                    ],
            decreases row_len - j,
        {
            proof {
                assert(src_row * row_len + j < rows * row_len) by (nonlinear_arith)
                    requires
                        src_row < rows,
                        j < row_len,
                ;
                assert(data.len() == data@.len());
            }
            flipped.push(data[src_row * row_len + j]);
            j = j + 1;
        }
        y = y + 1;
        proof {
            assert(y * row_len == (y - 1) * row_len + row_len) by (nonlinear_arith);
            assert forall|k: int| 0 <= k < y * row_len implies flipped@[k] == data@[
                (rows - 1 - k / row_len as int) * row_len as int + k % row_len as int
            ] by {
                if k >= (y - 1) * row_len {
                    vstd::arithmetic::div_mod::lemma_fundamental_div_mod_converse(
                        k,
                        row_len as int,
                        y - 1,
                        k - (y - 1) * row_len,
                    );
                }
            }
        }
    }
    proof {
        assert(rows * row_len == data@.len());
        assert(flipped@ =~= flip_rows_spec(data@, row_len as int));
    }
    flipped
}

/// Takes a rendered buffer apart into raw bytes with the row order reversed,
/// turning the renderer's bottom-up rows into a top-down scanline order.
pub fn take_and_flip(buffer: PixelBuffer) -> (flipped: Vec<u8>)
    requires
        buffer.wf(),
        buffer.width_px >= 1,
        3 * buffer.width_px <= usize::MAX,
    ensures
        flipped@ == flip_rows_spec(buffer.data@, 3 * buffer.width_px as int),
        flipped@.len() == buffer.data@.len(),
        forall|k: int|
            0 <= k < buffer.data@.len() ==> flipped@[k] == buffer.data@[
                ((buffer.height_px - 1 - k / (3 * buffer.width_px as int)) * (3
                    * buffer.width_px as int)) + k % (3 * buffer.width_px as int)
            ],
{
    let row_len: usize = 3 * (buffer.width_px as usize);
    proof {
        let w3 = 3 * buffer.width_px as int;
        assert(buffer.data@.len() == buffer.height_px * w3) by (nonlinear_arith)
            requires
                buffer.data@.len() == 3 * buffer.width_px * buffer.height_px,
                w3 == 3 * buffer.width_px as int,
        ;
        vstd::arithmetic::div_mod::lemma_fundamental_div_mod_converse(
            buffer.data@.len() as int,
            w3,
            buffer.height_px as int,
            0,
        );
    }
    let data = buffer.into_raw();
    flip_rows(&data, row_len)
}

/// The bytes of a sequence of bands, laid end to end in band order.
pub open spec fn concat_data(bands: Seq<PixelBuffer>) -> Seq<u8>
    decreases bands.len(),
{
    if bands.len() == 0 {
        Seq::empty()
    } else {
        concat_data(bands.drop_last()) + bands.last().data@
    }
}

/// Total pixel height of a sequence of bands.
pub open spec fn total_height(bands: Seq<PixelBuffer>) -> int
    decreases bands.len(),
{
    if bands.len() == 0 {
        0
    } else {
        total_height(bands.drop_last()) + bands.last().height_px
    }
}

/// Joins per-band buffers, first band first, into one full-image buffer.
/// Each band must already have the full image width; the result stacks their
/// rows contiguously, in band order, without gaps or overlap.
pub fn assemble_bands(width_px: u32, bands: Vec<PixelBuffer>) -> (image: PixelBuffer)
    requires
        forall|i: int| 0 <= i < bands@.len() ==> #[trigger] bands@[i].wf(),
        forall|i: int| 0 <= i < bands@.len() ==> #[trigger] bands@[i].width_px == width_px,
        total_height(bands@) <= u32::MAX,
        3 * width_px * total_height(bands@) <= usize::MAX,
    ensures
        image.wf(),
        image.width_px == width_px,
        image.height_px == total_height(bands@),
        image.data@ == concat_data(bands@),
{
    let mut data: Vec<u8> = Vec::new();
    let mut height: u32 = 0;
    let mut i: usize = 0;
    while i < bands.len()
        invariant
            forall|j: int| 0 <= j < bands@.len() ==> #[trigger] bands@[j].wf(),
            forall|j: int| 0 <= j < bands@.len() ==> #[trigger] bands@[j].width_px == width_px,
            total_height(bands@) <= u32::MAX,
            3 * width_px * total_height(bands@) <= usize::MAX,
            i <= bands@.len(),
            height == total_height(bands@.take(i as int)),
            data@ == concat_data(bands@.take(i as int)),
            data@.len() == 3 * width_px * height,
        decreases bands@.len() - i,
    {
        proof {
            lemma_take_prefix_bounds(bands@, i as int);
            assert(bands@.take(i as int + 1).drop_last() =~= bands@.take(i as int));
            assert(bands@.take(i as int + 1).last() == bands@[i as int]);
            assert(bands@[i as int].wf());
            assert(bands@[i as int].width_px == width_px);
            assert(3 * width_px * (height + bands@[i as int].height_px) == 3 * width_px * height
                + 3 * width_px * bands@[i as int].height_px) by (nonlinear_arith);
            assert(3 * width_px * (height + bands@[i as int].height_px) <= 3 * width_px
                * total_height(bands@)) by (nonlinear_arith)
                requires
                    height + bands@[i as int].height_px <= total_height(bands@),
                    width_px >= 0,
            ;
        }
        let band = &bands[i];
        data.extend_from_slice(band.data.as_slice());
        height = height + band.height_px;
        i = i + 1;
    }
    proof {
        assert(bands@.take(bands@.len() as int) =~= bands@);
    }
    PixelBuffer { width_px, height_px: height, data }
}

/// Pixel row at which band `j` starts: the total height of the bands before
/// it. Band order alone fixes where every band lands in the full image.
pub open spec fn band_row_offset(bands: Seq<PixelBuffer>, j: int) -> int {
    total_height(bands.take(j))
}

/// Concatenation reconstructs the image exactly: if every band holds
/// precisely the rows of one full image that start at the band's offset, the
/// bands laid end to end give back that image, whatever the band count. So
/// any split of an image into contiguous bands — one per worker — assembles
/// to the same full buffer.
#[verifier::rlimit(50)]
pub proof fn lemma_assembly_reconstructs(full: Seq<u8>, bands: Seq<PixelBuffer>, width: int)
    requires
        width >= 0,
        full.len() == 3 * width * total_height(bands),
        forall|j: int|
            0 <= j < bands.len() ==> (#[trigger] bands[j]).wf() && bands[j].width_px == width,
        forall|j: int|
            0 <= j < bands.len() ==> (#[trigger] bands[j]).data@ == full.subrange(
                3 * width * band_row_offset(bands, j),
                3 * width * (band_row_offset(bands, j) + bands[j].height_px),
            ),
    ensures
        concat_data(bands) == full,
    decreases bands.len(),
{
    if bands.len() == 0 {
        assert(concat_data(bands) =~= full);
    } else {
        let pre = bands.drop_last();
        let last = bands.last();
        let hl = last.height_px as int;
        assert(bands.take(bands.len() - 1) =~= pre);
        let off = total_height(pre);
        lemma_total_height_nonneg(pre);
        assert(total_height(bands) == off + hl);
        assert(3 * width * (off + hl) == 3 * width * off + 3 * width * hl) by (nonlinear_arith);
        assert(3 * width * off >= 0 && 3 * width * hl >= 0) by (nonlinear_arith)
            requires
                width >= 0,
                off >= 0,
                hl >= 0,
        ;
        assert(bands[bands.len() - 1].data@ == full.subrange(
            3 * width * off,
            3 * width * (off + hl),
        ));
        let front = full.subrange(0, 3 * width * off);
        assert forall|j: int| 0 <= j < pre.len() implies (#[trigger] pre[j]).data@
            == front.subrange(
            3 * width * band_row_offset(pre, j),
            3 * width * (band_row_offset(pre, j) + pre[j].height_px),
        ) by {
            assert(pre[j] == bands[j]);
            assert(pre.take(j) =~= bands.take(j));
            let o = band_row_offset(bands, j);
            let h = pre[j].height_px as int;
            assert(band_row_offset(pre, j) == o);
            lemma_total_height_nonneg(bands.take(j));
            lemma_take_prefix_bounds(pre, j);
            assert(o + h <= off);
            assert(3 * width * o >= 0) by (nonlinear_arith)
                requires
                    width >= 0,
                    o >= 0,
            ;
            assert(3 * width * o <= 3 * width * (o + h)) by (nonlinear_arith)
                requires
                    width >= 0,
                    h >= 0,
            ;
            assert(3 * width * (o + h) <= 3 * width * off) by (nonlinear_arith)
                requires
                    width >= 0,
                    o + h <= off,
            ;
            assert(bands[j].data@ == full.subrange(3 * width * o, 3 * width * (o + h)));
            assert(front.subrange(3 * width * o, 3 * width * (o + h)) =~= full.subrange(
                3 * width * o,
                3 * width * (o + h),
            ));
        }
        lemma_assembly_reconstructs(front, pre, width);
        assert(concat_data(bands) == front + last.data@);
        assert(concat_data(bands) =~= full);
    }
}

/// The renderer's dimension guarantee: bands whose heights follow a split
/// plan that sums to the image height — as every plan from `band_heights`
/// does — assemble to a buffer of exactly the planned dimensions, whatever
/// the worker count was.
pub proof fn lemma_split_dimensions_exact(
    heights: Seq<u32>,
    bands: Seq<PixelBuffer>,
    width: int,
    height_px: u32,
)
    requires
        bands.len() == heights.len(),
        forall|i: int| 0 <= i < bands.len() ==> (#[trigger] bands[i]).height_px == heights[i],
        crate::splitter::height_sum(heights) == height_px,
    ensures
        total_height(bands) == height_px,
{
    lemma_matching_bands_total(heights, bands);
}

/// Bands whose heights match a height plan pointwise have the plan's sum as
/// their total height.
proof fn lemma_matching_bands_total(heights: Seq<u32>, bands: Seq<PixelBuffer>)
    requires
        bands.len() == heights.len(),
        forall|i: int| 0 <= i < bands.len() ==> (#[trigger] bands[i]).height_px == heights[i],
    ensures
        total_height(bands) == crate::splitter::height_sum(heights),
    decreases bands.len(),
{
    if bands.len() > 0 {
        lemma_matching_bands_total(heights.drop_last(), bands.drop_last());
    }
}

/// A band total is never negative.
proof fn lemma_total_height_nonneg(bands: Seq<PixelBuffer>)
    ensures
        total_height(bands) >= 0,
    decreases bands.len(),
{
    if bands.len() > 0 {
        lemma_total_height_nonneg(bands.drop_last());
    }
}

/// The height of any prefix of a band sequence, plus the next band, never
/// passes the height of the whole sequence; this keeps running totals within
/// bounds while bands are appended.
proof fn lemma_take_prefix_bounds(bands: Seq<PixelBuffer>, i: int)
    requires
        0 <= i < bands.len(),
    ensures
        total_height(bands.take(i)) + bands[i].height_px <= total_height(bands),
    decreases bands.len() - i,
{
    if i == bands.len() - 1 {
        assert(bands.take(i) =~= bands.drop_last());
    } else {
        lemma_take_prefix_bounds(bands, i + 1);
        assert(bands.take(i + 1).drop_last() =~= bands.take(i));
        assert(bands.take(i + 1).last() == bands[i]);
    }
}

} // verus!
