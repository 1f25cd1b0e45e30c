//! Tile-sheet stacking.
//!
//! A tile sheet lays equally sized tiles out in a grid, row-major; rendering
//! wants them stacked instead: one layer per tile, each layer holding its
//! tile's pixel rows contiguously.  The stacker reorders the sheet's raw
//! bytes accordingly, without touching pixel values.

use vstd::prelude::*;
use vstd::arithmetic::div_mod::lemma_fundamental_div_mod;
use vstd::arithmetic::div_mod::lemma_mod_division_less_than_divisor;

verus! {

/// Pixel storage formats the stacker accepts, grouped by their pixel width;
/// block-compressed and other exotic formats are not stackable this way.
#[derive(Clone, Copy, Debug, PartialEq, Eq, Structural)]
pub enum PixelFormat {
    /// One 8-bit channel: 1 byte per pixel.
    R8,
    /// Two 8-bit channels: 2 bytes per pixel.
    Rg8,
    /// Four 8-bit channels: 4 bytes per pixel.
    Rgba8,
    /// Four 16-bit channels: 8 bytes per pixel.
    Rgba16,
    /// Four 32-bit channels: 16 bytes per pixel.
    Rgba32,
    /// Anything without a whole number of bytes per pixel.
    Unsupported,
}

/// The bytes one pixel occupies, where the format has a fixed pixel width.
pub open spec fn bpp_spec(f: PixelFormat) -> Option<usize> {
    match f {
        PixelFormat::R8 => Some(1usize),
        PixelFormat::Rg8 => Some(2usize),
        PixelFormat::Rgba8 => Some(4usize),
        PixelFormat::Rgba16 => Some(8usize),
        PixelFormat::Rgba32 => Some(16usize),
        PixelFormat::Unsupported => None,
    }
}

/// The bytes one pixel occupies, where the format has a fixed pixel width.
pub fn bytes_per_pixel(format: &PixelFormat) -> (r: Option<usize>)
    ensures
        r == bpp_spec(*format),
{
    match format {
        PixelFormat::R8 => Some(1),
        PixelFormat::Rg8 => Some(2),
        PixelFormat::Rgba8 => Some(4),
        PixelFormat::Rgba16 => Some(8),
        PixelFormat::Rgba32 => Some(16),
        PixelFormat::Unsupported => None,
    }
}

/// A tile sheet as raw pixel bytes: the sheet's pixel rows, one after
/// another, `width * bpp` bytes each.
pub struct RawImage {
    pub width: u32,
    pub height: u32,
    pub format: PixelFormat,
    pub data: Vec<u8>,
}

/// The stacked form: `layers` tiles of `width` by `height` pixels, each
/// layer's rows contiguous, layers in the sheet's row-major tile order.
pub struct StackedImage {
    pub width: u32,
    pub height: u32,
    pub layers: u32,
    pub format: PixelFormat,
    pub data: Vec<u8>,
    pub original_tile_width: u32,
}

impl StackedImage {
    /// Translate a source-sheet pixel offset into a stacked index, scaling
    /// the horizontal component by the stored stride.
    pub fn offste_to_idx(&self, x: u32, y: u32) -> (r: (u32, u32))
        requires
            self.original_tile_width > 0,
        ensures
            r.0 == x as int / self.original_tile_width as int,
            r.1 == y,
    {
        (x / self.original_tile_width, y)
    }
}

/// The byte position of offset `j` in stacked row `row`.
pub open spec fn flat_index(row: int, row_bytes: int, j: int) -> int {
    row * row_bytes + j
}

/// Where stacked byte-row `r` starts in the source sheet: `r` decomposes into
/// a tile index and a row within the tile, the tile index into its grid
/// position.
pub open spec fn src_row_start(
    r: int,
    sheet_w: int,
    tiles_w: int,
    tile_w: int,
    tile_h: int,
    bpp: int,
) -> int {
    let t = r / tile_h;
    let by = r % tile_h;
    let ty = t / tiles_w;
    let tx = t % tiles_w;
    ((ty * tile_h + by) * sheet_w + tx * tile_w) * bpp
}

/// Reorder a tile sheet into its stacked form.  The sheet's dimensions must
/// be whole multiples of the tile size, the format must have a fixed pixel
/// width, and the data must be exactly one sheet.  Every stacked byte row is
/// a copy of its tile row in the source; `original_tile_width` carries the
/// sheet's tile-row count, the stride the stacked index translation divides
/// by.
pub fn tileset_to_stacked(image: &RawImage, tile_w: u32, tile_h: u32) -> (out: StackedImage)
    requires
        tile_w > 0,
        tile_h > 0,
        image.width as int % tile_w as int == 0,
        image.height as int % tile_h as int == 0,
        bpp_spec(image.format) is Some,
        image.data@.len() == image.width as int * image.height as int * bpp_spec(
            image.format,
        ).unwrap(),
        (image.width as int / tile_w as int) * (image.height as int / tile_h as int) <= u32::MAX,
    ensures
        out.width == tile_w,
        out.height == tile_h,
        out.format == image.format,
        out.layers == (image.width as int / tile_w as int) * (image.height as int / tile_h as int),
        out.original_tile_width == image.height as int / tile_h as int,
        out.data@.len() == image.data@.len(),
        ({
            let bpp = bpp_spec(image.format).unwrap() as int;
            let tiles_w = image.width as int / tile_w as int;
            let tiles_h = image.height as int / tile_h as int;
            forall|r: int, j: int|
                #![trigger flat_index(r, tile_w as int * bpp, j)]
                0 <= r < tiles_w * tiles_h * tile_h as int && 0 <= j < tile_w as int * bpp
                    ==> out.data@[flat_index(r, tile_w as int * bpp, j)] == image.data@[
                    src_row_start(
                        r,
                        image.width as int,
                        tiles_w,
                        tile_w as int,
                        tile_h as int,
                        bpp,
                    ) + j
                ]
        }),
{
    let bpp: usize = match bytes_per_pixel(&image.format) {
        Some(b) => b,
        None => vstd::pervasive::unreached(),
    };
    let data_len = image.data.len();
    let sheet_w = image.width as usize;
    let sheet_h = image.height as usize;
    let tw = tile_w as usize;
    let th = tile_h as usize;
    let tiles_w = sheet_w / tw;
    let tiles_h = sheet_h / th;
    proof {
        lemma_fundamental_div_mod(sheet_w as int, tw as int);
        lemma_fundamental_div_mod(sheet_h as int, th as int);
        assert(tiles_w as int * tw as int == sheet_w as int) by (nonlinear_arith)
            requires
                sheet_w as int == tw as int * (sheet_w as int / tw as int) + sheet_w as int
                    % tw as int,
                sheet_w as int % tw as int == 0,
                tiles_w as int == sheet_w as int / tw as int,
        ;
        assert(tiles_h as int * th as int == sheet_h as int) by (nonlinear_arith)
            requires
                sheet_h as int == th as int * (sheet_h as int / th as int) + sheet_h as int
                    % th as int,
                sheet_h as int % th as int == 0,
                tiles_h as int == sheet_h as int / th as int,
        ;
    }
    if tiles_w == 0 || tiles_h == 0 {
        proof {
            assert(image.data@.len() == 0) by (nonlinear_arith)
                requires
                    image.data@.len() == sheet_w as int * sheet_h as int * bpp as int,
                    tiles_w as int * tw as int == sheet_w as int,
                    tiles_h as int * th as int == sheet_h as int,
                    tiles_w == 0 || tiles_h == 0,
            ;
            assert(tiles_w as int * tiles_h as int == 0 && tiles_w as int * tiles_h as int
                * th as int == 0) by (nonlinear_arith)
                requires
                    tiles_w == 0 || tiles_h == 0,
            ;
        }
        return StackedImage {
            width: tile_w,
            height: tile_h,
            layers: 0,
            format: image.format,
            data: Vec::new(),
            original_tile_width: tiles_h as u32,
        };
    }
    proof {
        // the whole sheet's byte count bounds every product we form
        assert(tiles_w as int * tiles_h as int * th as int * (tw as int * bpp as int)
            == image.data@.len()) by (nonlinear_arith)
            requires
                image.data@.len() == sheet_w as int * sheet_h as int * bpp as int,
                tiles_w as int * tw as int == sheet_w as int,
                tiles_h as int * th as int == sheet_h as int,
        ;
        assert(tiles_w as int * tiles_h as int * th as int <= image.data@.len() && tw as int
            * bpp as int <= image.data@.len() && tiles_w as int * tiles_h as int
            <= image.data@.len()) by (nonlinear_arith)
            requires
                tiles_w as int * tiles_h as int * th as int * (tw as int * bpp as int)
                    == image.data@.len(),
                tiles_w >= 1,
                tiles_h >= 1,
                th >= 1,
                tw >= 1,
                bpp >= 1,
        ;
    }
    let row_bytes: usize = tw * bpp;
    let tiles: usize = tiles_w * tiles_h;
    let total_rows: usize = tiles * th;
    let mut out_data: Vec<u8> = Vec::new();
    let mut r: usize = 0;
    while r < total_rows
        invariant
            bpp_spec(image.format) == Some(bpp),
            sheet_w == image.width as usize && sheet_h == image.height as usize,
            tw == tile_w as usize && th == tile_h as usize,
            tw >= 1 && th >= 1 && bpp >= 1,
            tiles_w >= 1 && tiles_h >= 1,
            tiles_w as int * tw as int == sheet_w as int,
            tiles_h as int * th as int == sheet_h as int,
            tiles_w as int == sheet_w as int / tw as int,
            tiles_h as int == sheet_h as int / th as int,
            row_bytes == tw * bpp,
            total_rows as int == tiles_w as int * tiles_h as int * th as int,
            total_rows as int * row_bytes as int == image.data@.len(),
            data_len == image.data@.len(),
            image.data@.len() == sheet_w as int * sheet_h as int * bpp as int,
            r <= total_rows,
            out_data@.len() == r as int * row_bytes as int,
            forall|r2: int, j: int|
                #![trigger flat_index(r2, row_bytes as int, j)]
                0 <= r2 < r && 0 <= j < row_bytes ==> out_data@[flat_index(r2, row_bytes as int, j)]
                    == image.data@[
                    src_row_start(
                        r2,
                        sheet_w as int,
                        tiles_w as int,
                        tw as int,
                        th as int,
                        bpp as int,
                    ) + j
                ],
        decreases total_rows - r,
    {
        let t: usize = r / th;
        let by: usize = r % th;
        let ty: usize = t / tiles_w;
        let tx: usize = t % tiles_w;
        proof {
            lemma_fundamental_div_mod(r as int, th as int);
            lemma_mod_division_less_than_divisor(r as int, th as int);
            assert((t as int) < tiles_w as int * tiles_h as int) by (nonlinear_arith)
                requires
                    r as int == th as int * (r as int / th as int) + r as int % th as int,
                    t as int == r as int / th as int,
                    0 <= r as int % th as int,
                    (r as int % th as int) < th as int,
                    (r as int) < tiles_w as int * tiles_h as int * th as int,
                    th as int >= 1,
                    t as int >= 0,
            ;
            lemma_fundamental_div_mod(t as int, tiles_w as int);
            lemma_mod_division_less_than_divisor(t as int, tiles_w as int);
            assert((ty as int) < tiles_h as int) by (nonlinear_arith)
                requires
                    t as int == tiles_w as int * (t as int / tiles_w as int) + t as int
                        % tiles_w as int,
                    ty as int == t as int / tiles_w as int,
                    0 <= t as int % tiles_w as int,
                    (t as int % tiles_w as int) < tiles_w as int,
                    (t as int) < tiles_w as int * tiles_h as int,
                    tiles_w as int >= 1,
                    ty as int >= 0,
            ;
            // the source row fits inside the sheet
            assert((ty as int * th as int + by as int) < sheet_h as int) by (nonlinear_arith)
                requires
                    ty as int <= tiles_h as int - 1,
                    0 <= by as int,
                    (by as int) < th as int,
                    tiles_h as int * th as int == sheet_h as int,
                    ty as int >= 0,
                    th as int >= 1,
            ;
            assert(tx as int * tw as int + tw as int <= sheet_w as int) by (nonlinear_arith)
                requires
                    tx as int <= tiles_w as int - 1,
                    tiles_w as int * tw as int == sheet_w as int,
                    tx as int >= 0,
                    tw as int >= 1,
            ;
            assert(ty as int * th as int + by as int <= image.data@.len() && (ty as int
                * th as int + by as int) * sheet_w as int <= image.data@.len() && (ty as int
                * th as int + by as int) * sheet_w as int + tx as int * tw as int
                <= image.data@.len() && ((ty as int * th as int + by as int) * sheet_w as int
                + tx as int * tw as int) * bpp as int + row_bytes as int <= image.data@.len())
                by (nonlinear_arith)
                requires
                    ty as int * th as int + by as int <= sheet_h as int - 1,
                    tx as int * tw as int + tw as int <= sheet_w as int,
                    row_bytes as int == tw as int * bpp as int,
                    image.data@.len() == sheet_w as int * sheet_h as int * bpp as int,
                    ty as int * th as int + by as int >= 0,
                    tx as int * tw as int >= 0,
                    tx >= 0,
                    tw >= 1,
                    sheet_w as int >= 1,
                    bpp as int >= 1,
            ;
        }
        let src: usize = ((ty * th + by) * sheet_w + tx * tw) * bpp;
        let ghost row_start = src_row_start(
            r as int,
            sheet_w as int,
            tiles_w as int,
            tw as int,
            th as int,
            bpp as int,
        );
        proof {
            assert(src as int == row_start);
        }
        let mut j: usize = 0;
        while j < row_bytes
            invariant
                j <= row_bytes,
                src as int == row_start,
                data_len == image.data@.len(),
                src as int + row_bytes as int <= image.data@.len(),
                out_data@.len() == r as int * row_bytes as int + j as int,
                forall|j2: int|
                    #![trigger flat_index(r as int, row_bytes as int, j2)]
                    0 <= j2 < j ==> out_data@[flat_index(r as int, row_bytes as int, j2)]
                        == image.data@[row_start + j2],
                forall|r2: int, j2: int|
                    #![trigger flat_index(r2, row_bytes as int, j2)]
                    0 <= r2 < r && 0 <= j2 < row_bytes ==> out_data@[
                        flat_index(r2, row_bytes as int, j2)
                    ] == image.data@[
                        src_row_start(
                            r2,
                            sheet_w as int,
                            tiles_w as int,
                            tw as int,
                            th as int,
                            bpp as int,
                        ) + j2
                    ],
            decreases row_bytes - j,
        {
            proof {
                assert forall|r2: int, j2: int|
                    0 <= r2 < r && 0 <= j2 < row_bytes implies flat_index(
                    r2,
                    row_bytes as int,
                    j2,
                ) < out_data@.len() by {
                    assert(r2 * row_bytes as int + j2 < r as int * row_bytes as int)
                        by (nonlinear_arith)
                        requires
                            0 <= r2 < r as int,
                            0 <= j2 < row_bytes as int,
                    ;
                }
            }
            out_data.push(image.data[src + j]);
            j = j + 1;
        }
        proof {
            assert((r as int + 1) * row_bytes as int == r as int * row_bytes as int
                + row_bytes as int) by (nonlinear_arith);
            assert forall|r2: int, j2: int|
                0 <= r2 < r + 1 && 0 <= j2 < row_bytes implies flat_index(
                r2,
                row_bytes as int,
                j2,
            ) < out_data@.len() by {
                assert(r2 * row_bytes as int + j2 < (r as int + 1) * row_bytes as int)
                    by (nonlinear_arith)
                    requires
                        0 <= r2 < r as int + 1,
                        0 <= j2 < row_bytes as int,
                ;
            }
        }
        r = r + 1;
    }
    proof {
        assert(tiles as int <= u32::MAX as int);
        assert(tiles_h as int <= sheet_h as int) by (nonlinear_arith)
            requires
                tiles_h as int * th as int == sheet_h as int,
                th as int >= 1,
                tiles_h as int >= 0,
        ;
    }
    StackedImage {
        width: tile_w,
        height: tile_h,
        layers: tiles as u32,
        format: image.format,
        data: out_data,
        original_tile_width: tiles_h as u32,
    }
}

} // verus!
