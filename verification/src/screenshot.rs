//! Screenshot readback: the row layout of the buffer that a texture is copied
//! into (rows padded to the GPU's copy alignment), and the removal of that
//! padding before the pixels are encoded.

use vstd::prelude::*;

verus! {

/// Bytes per pixel of the RGBA8 output texture.
pub const BYTES_PER_PIXEL: u32 = 4;

/// The bytes of one image row, padded up to the next multiple of `align`.
pub open spec fn padded_row_bytes(width: int, align: int) -> int {
    let unpadded: int = BYTES_PER_PIXEL * width;
    unpadded + (align - unpadded % align) % align
}

/// The layout of a readback buffer for an image of `width` x `height` RGBA8
/// pixels.
#[derive(Clone, Copy, Debug, PartialEq, Eq, Structural)]
pub struct ScreenshotLayout {
    pub unpadded_bytes_per_row: u32,
    pub padded_bytes_per_row: u32,
    pub buffer_size: u64,
}

proof fn lemma_padding_aligns(unpadded: int, align: int)
    requires
        unpadded >= 0,
        align > 0,
    ensures
        (unpadded + (align - unpadded % align) % align) % align == 0,
        unpadded <= unpadded + (align - unpadded % align) % align < unpadded + align,
{
    let r: int = unpadded % align;
    let q: int = unpadded / align;
    vstd::arithmetic::div_mod::lemma_fundamental_div_mod(unpadded, align);
    assert(0 <= r < align);
    if r == 0 {
        assert((align - r) % align == 0) by {
            vstd::arithmetic::div_mod::lemma_mod_self_0(align);
        }
        assert(unpadded % align == 0);
    } else {
        assert((align - r) % align == align - r) by {
            vstd::arithmetic::div_mod::lemma_small_mod((align - r) as nat, align as nat);
        }
        assert(unpadded + (align - r) == align * (q + 1)) by (nonlinear_arith)
            requires
                unpadded == align * q + r,
        ;
        vstd::arithmetic::div_mod::lemma_mod_multiples_basic(q + 1, align);
        assert((q + 1) * align == align * (q + 1)) by (nonlinear_arith);
    }
}

/// The readback layout: rows of `4 * width` bytes padded to a multiple of
/// `align`, `height` rows in all.
pub fn screenshot_layout(width: u32, height: u32, align: u32) -> (layout: ScreenshotLayout)
    requires
        align > 0,
        BYTES_PER_PIXEL * width <= u32::MAX,
        padded_row_bytes(width as int, align as int) <= u32::MAX,
        padded_row_bytes(width as int, align as int) * height <= u32::MAX,
    ensures
        layout.unpadded_bytes_per_row == BYTES_PER_PIXEL * width,
        layout.padded_bytes_per_row == padded_row_bytes(width as int, align as int),
        layout.buffer_size == layout.padded_bytes_per_row * height,
        layout.padded_bytes_per_row % align == 0,
        layout.unpadded_bytes_per_row <= layout.padded_bytes_per_row,
        layout.padded_bytes_per_row < layout.unpadded_bytes_per_row + align,
{
    let unpadded_bytes_per_row: u32 = BYTES_PER_PIXEL * width;
    let padding: u32 = (align - unpadded_bytes_per_row % align) % align;
    let padded_bytes_per_row: u32 = unpadded_bytes_per_row + padding;
    proof {
        lemma_padding_aligns(unpadded_bytes_per_row as int, align as int);
    }
    let size: u32 = padded_bytes_per_row * height;
    ScreenshotLayout { unpadded_bytes_per_row, padded_bytes_per_row, buffer_size: size as u64 }
}

/// The first `rows` rows of `data`, each `row_bytes` long and starting
/// `stride` bytes after the one before, laid end to end.
pub open spec fn stripped_rows(data: Seq<u8>, row_bytes: int, stride: int, rows: nat) -> Seq<u8>
    decreases rows,
{
    if rows == 0 {
        Seq::empty()
    } else {
        stripped_rows(data, row_bytes, stride, (rows - 1) as nat) + data.subrange(
            (rows - 1) * stride,
            (rows - 1) * stride + row_bytes,
        )
    }
}

/// Byte `k` of row `r` of the stripped image is byte `k` of row `r` of the
/// padded buffer, and the stripped image holds exactly `rows` rows.
pub proof fn lemma_stripped_rows_pixels(data: Seq<u8>, row_bytes: int, stride: int, rows: nat)
    requires
        row_bytes >= 0,
        stride >= 0,
        rows == 0 || (rows - 1) * stride + row_bytes <= data.len(),
    ensures
        stripped_rows(data, row_bytes, stride, rows).len() == rows * row_bytes,
        forall|r: int, k: int|
            0 <= r < rows && 0 <= k < row_bytes ==> #[trigger] stripped_rows(data, row_bytes, stride, rows)[r * row_bytes + k]
                == data[r * stride + k],
    decreases rows,
{
    if rows > 0 {
        let prev: nat = (rows - 1) as nat;
        assert(prev == 0 || (prev - 1) * stride + row_bytes <= data.len()) by {
            if prev > 0 {
                assert((prev - 1) * stride <= prev * stride) by (nonlinear_arith)
                    requires
                        stride >= 0,
                        prev >= 1,
                ;
            }
        }
        lemma_stripped_rows_pixels(data, row_bytes, stride, prev);
        let before = stripped_rows(data, row_bytes, stride, prev);
        let s = stripped_rows(data, row_bytes, stride, rows);
        assert(0 <= prev * stride) by (nonlinear_arith)
            requires
                stride >= 0,
        ;
        assert(s.len() == rows * row_bytes) by (nonlinear_arith)
            requires
                s.len() == before.len() + row_bytes,
                before.len() == prev * row_bytes,
                rows == prev + 1,
        ;
        assert forall|r: int, k: int| 0 <= r < rows && 0 <= k < row_bytes implies #[trigger] s[r * row_bytes + k]
            == data[r * stride + k] by {
            if r < prev {
                assert(r * row_bytes + k < prev * row_bytes) by (nonlinear_arith)
                    requires
                        0 <= r < prev,
                        0 <= k < row_bytes,
                ;
                assert(0 <= r * row_bytes) by (nonlinear_arith)
                    requires
                        0 <= r,
                        0 <= row_bytes,
                ;
                assert(s[r * row_bytes + k] == before[r * row_bytes + k]);
            } else {
                assert(r == prev);
                assert(s[r * row_bytes + k] == data[prev * stride + k]);
            }
        }
    }
}

/// Copies the visible part of every row of a padded readback buffer into a
/// tightly packed RGBA8 image: row `r` of the result is bytes
/// `r * padded_bytes_per_row .. r * padded_bytes_per_row + 4 * width` of
/// `data`.
pub fn strip_row_padding(data: &[u8], width: u32, height: u32, padded_bytes_per_row: u32) -> (pixels: Vec<u8>)
    requires
        BYTES_PER_PIXEL * width * height <= u32::MAX,
        BYTES_PER_PIXEL * width <= u32::MAX,
        height == 0 || (height - 1) * padded_bytes_per_row <= u32::MAX,
        height == 0 || (height - 1) * padded_bytes_per_row + BYTES_PER_PIXEL * width <= data@.len(),
    ensures
        pixels@ == stripped_rows(data@, BYTES_PER_PIXEL * width, padded_bytes_per_row as int, height as nat),
        pixels@.len() == height * (BYTES_PER_PIXEL * width),
        forall|r: int, k: int|
            0 <= r < height && 0 <= k < BYTES_PER_PIXEL * width ==> #[trigger] pixels@[r * (BYTES_PER_PIXEL * width) + k]
                == data@[r * padded_bytes_per_row + k],
{
    let unpadded_bytes_per_row: u32 = BYTES_PER_PIXEL * width;
    let mut pixels: Vec<u8> = Vec::with_capacity((unpadded_bytes_per_row * height) as usize);
    let mut row: u32 = 0;
    while row < height
        invariant
            row <= height,
            unpadded_bytes_per_row == BYTES_PER_PIXEL * width,
            BYTES_PER_PIXEL * width <= u32::MAX,
            height == 0 || (height - 1) * padded_bytes_per_row <= u32::MAX,
            height == 0 || (height - 1) * padded_bytes_per_row + unpadded_bytes_per_row <= data@.len(),
            pixels@ == stripped_rows(data@, unpadded_bytes_per_row as int, padded_bytes_per_row as int, row as nat),
        decreases height - row,
    {
        assert(row * padded_bytes_per_row <= (height - 1) * padded_bytes_per_row) by (nonlinear_arith)
            requires
                row < height,
        ;
        let available: usize = data.len();
        assert(row * padded_bytes_per_row + unpadded_bytes_per_row <= available);
        let start: usize = (row * padded_bytes_per_row) as usize;
        let end: usize = start + unpadded_bytes_per_row as usize;
        let ghost before = pixels@;
        pixels.extend_from_slice(&data[start..end]);
        proof {
            let seg = data@.subrange(start as int, end as int);
            assert(pixels@ =~= before + seg);
            assert((row + 1 - 1) * padded_bytes_per_row == row * padded_bytes_per_row);
        }
        row = row + 1;
    }
    proof {
        lemma_stripped_rows_pixels(data@, unpadded_bytes_per_row as int, padded_bytes_per_row as int, height as nat);
    }
    pixels
}

} // verus!
