//! Flattening a pixel grid into RGB8 bytes and handing it to the PNG encoder.
use vstd::prelude::*;
use image::ImageEncoder;
use crate::palette::Rgb;
use crate::raster::{avatar_grid, grid_view, rasterize, ConfigurationError, RasterConfig};

verus! {

#[verifier::external_type_specification]
#[verifier::external_body]
pub struct ExImageError(image::ImageError);

/// Why an avatar could not be produced.
#[derive(Debug)]
pub enum AvatarError {
    /// The configuration was refused before any pixel was computed.
    Configuration(ConfigurationError),
    /// The image encoder failed; its error is passed on unchanged.
    Encoding(image::ImageError),
}

/// The three channel bytes of one color.
pub open spec fn color_bytes(c: Rgb) -> Seq<u8> {
    seq![c.red, c.green, c.blue]
}

/// A row of pixels as RGB8 bytes, left to right.
pub open spec fn row_bytes(row: Seq<Rgb>) -> Seq<u8>
    decreases row.len(),
{
    if row.len() == 0 {
        Seq::empty()
    } else {
        row_bytes(row.drop_last()) + color_bytes(row.last())
    }
}

/// A grid of pixels as RGB8 bytes, top row first.
pub open spec fn grid_bytes(rows: Seq<Seq<Rgb>>) -> Seq<u8>
    decreases rows.len(),
{
    if rows.len() == 0 {
        Seq::empty()
    } else {
        grid_bytes(rows.drop_last()) + row_bytes(rows.last())
    }
}

/// The PNG file that the encoder writes for an RGB8 frame of the given size.
pub uninterp spec fn png_of(pixels: Seq<u8>, width: u32, height: u32) -> Seq<u8>;

proof fn lemma_row_bytes_len(row: Seq<Rgb>)
    ensures
        row_bytes(row).len() == 3 * row.len(),
    decreases row.len(),
{
    if row.len() > 0 {
        lemma_row_bytes_len(row.drop_last());
    }
}

proof fn lemma_grid_bytes_len(rows: Seq<Seq<Rgb>>, width: int)
    requires
        forall|i: int| 0 <= i < rows.len() ==> (#[trigger] rows[i]).len() == width,
    ensures
        grid_bytes(rows).len() == 3 * width * rows.len(),
    decreases rows.len(),
{
    if rows.len() > 0 {
        lemma_grid_bytes_len(rows.drop_last(), width);
        lemma_row_bytes_len(rows.last());
        assert(3 * width * (rows.len() - 1) + 3 * width == 3 * width * rows.len())
            by (nonlinear_arith);
    }
}

/// Lays the pixels of `grid` out as RGB8 bytes, row after row.
pub fn to_rgb8(grid: &Vec<Vec<Rgb>>) -> (r: Vec<u8>)
    ensures
        r@ == grid_bytes(grid_view(grid@)),
{
    let ghost rows = grid_view(grid@);
    let mut out: Vec<u8> = Vec::new();
    for y in 0..grid.len()
        invariant
            rows == grid_view(grid@),
            out@ == grid_bytes(rows.take(y as int)),
    {
        let row = &grid[y];
        let ghost before = out@;
        for x in 0..row.len()
            invariant
                rows == grid_view(grid@),
                row@ == rows[y as int],
                y < rows.len(),
                out@ == before + row_bytes(row@.take(x as int)),
        {
            let c = row[x];
            out.push(c.red);
            out.push(c.green);
            out.push(c.blue);
            proof {
                assert(row@.take(x + 1).drop_last() =~= row@.take(x as int));
                assert(out@ =~= before + row_bytes(row@.take(x + 1)));
            }
        }
        proof {
            assert(row@.take(row@.len() as int) =~= row@);
            assert(rows.take(y + 1).drop_last() =~= rows.take(y as int));
        }
    }
    assert(rows.take(grid@.len() as int) =~= rows);
    out
}

/// Relies on image's `PngEncoder::write_image` (image 0.24): it writes the PNG
/// file of an RGB8 frame of `width` by `height` pixels into a byte buffer, and
/// panics unless the frame holds exactly three bytes per pixel. Writing into a
/// `Vec` cannot fail, so the only errors are png's refusal of a zero width or
/// a zero height.
#[verifier::external_body]
fn encode_png_rgb8(pixels: &[u8], width: u32, height: u32) -> (r: Result<Vec<u8>, image::ImageError>)
    requires
        pixels@.len() == 3 * width * height,
    ensures
        r matches Ok(bytes) ==> bytes@ == png_of(pixels@, width, height),
        r is Ok <==> (width > 0 && height > 0),
{
    let mut out: Vec<u8> = Vec::new();
    image::codecs::png::PngEncoder::new(&mut out)
        .write_image(pixels, width, height, image::ColorType::Rgb8)
        .map(|_| out)
}

/// Rasterizes `samples` under `config` and encodes the grid as PNG. This
/// succeeds for every image of at least one pixel; an empty image is refused
/// by the encoder and comes back as `AvatarError::Encoding`.
pub fn render_avatar(config: &RasterConfig, samples: &Vec<i32>) -> (r: Result<Vec<u8>, AvatarError>)
    requires
        config.wf(),
        samples.len() == config.blocks_per_side() * config.blocks_per_side(),
    ensures
        r matches Ok(bytes) ==> bytes@ == png_of(
            grid_bytes(
                avatar_grid(
                    config.image_size as int,
                    config.block_size as int,
                    config.palette@,
                    samples@,
                ),
            ),
            config.image_size,
            config.image_size,
        ),
        r is Ok <==> config.image_size > 0,
        r matches Err(e) ==> e is Encoding,
{
    let grid = rasterize(config, samples);
    let pixels = to_rgb8(&grid);
    proof {
        let rows = grid_view(grid@);
        assert forall|i: int| 0 <= i < rows.len() implies (#[trigger] rows[i]).len()
            == config.image_size by {
            assert(rows[i] == grid[i]@);
        }
        lemma_grid_bytes_len(rows, config.image_size as int);
    }
    match encode_png_rgb8(pixels.as_slice(), config.image_size, config.image_size) {
        Ok(bytes) => Ok(bytes),
        Err(e) => Err(AvatarError::Encoding(e)),
    }
}

/// Generation is a function of its inputs: two configurations with the same
/// dimensions and palette, given the same samples, describe the same pixel
/// grid, and a successful render of either gives the same PNG bytes.
pub proof fn lemma_render_deterministic(
    first: RasterConfig,
    second: RasterConfig,
    first_samples: Seq<i32>,
    second_samples: Seq<i32>,
)
    requires
        first.image_size == second.image_size,
        first.block_size == second.block_size,
        first.palette@ == second.palette@,
        first_samples == second_samples,
    ensures
        avatar_grid(
            first.image_size as int,
            first.block_size as int,
            first.palette@,
            first_samples,
        ) == avatar_grid(
            second.image_size as int,
            second.block_size as int,
            second.palette@,
            second_samples,
        ),
        png_of(
            grid_bytes(
                avatar_grid(
                    first.image_size as int,
                    first.block_size as int,
                    first.palette@,
                    first_samples,
                ),
            ),
            first.image_size,
            first.image_size,
        ) == png_of(
            grid_bytes(
                avatar_grid(
                    second.image_size as int,
                    second.block_size as int,
                    second.palette@,
                    second_samples,
                ),
            ),
            second.image_size,
            second.image_size,
        ),
{
}

} // verus!
