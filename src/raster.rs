//! Block rasterization: the square image is tiled into square blocks, each
//! block takes the palette color of its own noise sample, and the grid is
//! laid out row by row.
use vstd::prelude::*;
use vstd::arithmetic::div_mod::{lemma_fundamental_div_mod, lemma_fundamental_div_mod_converse};
use crate::palette::{quantize, quantize_spec, standard_palette, standard_palette_spec, Rgb};
use crate::seed::{seed_of, lemma_seed_truncation, SEED_PREFIX_LEN};

verus! {

/// A configuration that cannot be rasterized.
#[derive(Clone, Copy, Debug, PartialEq, Eq, Structural)]
pub enum ConfigurationError {
    /// The block size is zero or does not divide the image size.
    IndivisibleImageSize,
    /// The palette holds no color.
    EmptyPalette,
}

/// Side of the default image, in pixels.
pub const IMAGE_SIZE: u32 = 64;

/// Side of the default block, in pixels.
pub const BLOCK_SIZE: u32 = 4;

/// Dimensions and palette of a generated image.
pub struct RasterConfig {
    pub image_size: u32,
    pub block_size: u32,
    pub palette: Vec<Rgb>,
}

/// Whether a block side tiles an image side exactly.
pub open spec fn tiles_exactly(image_size: int, block_size: int) -> bool {
    block_size > 0 && image_size % block_size == 0
}

impl RasterConfig {
    /// The blocks tile the image exactly and the palette is not empty.
    pub open spec fn wf(&self) -> bool {
        &&& tiles_exactly(self.image_size as int, self.block_size as int)
        &&& self.palette.len() >= 1
    }

    /// Number of blocks along each side of the image.
    pub open spec fn blocks_per_side(&self) -> int {
        self.image_size as int / self.block_size as int
    }

    /// Checks a configuration; the divisibility check comes first.
    pub fn new(image_size: u32, block_size: u32, palette: Vec<Rgb>) -> (r: Result<
        RasterConfig,
        ConfigurationError,
    >)
        ensures
            r is Ok <==> tiles_exactly(image_size as int, block_size as int) && palette.len()
                >= 1,
            !tiles_exactly(image_size as int, block_size as int) ==> r == Err::<
                RasterConfig,
                ConfigurationError,
            >(ConfigurationError::IndivisibleImageSize),
            tiles_exactly(image_size as int, block_size as int) && palette.len() == 0 ==> r
                == Err::<RasterConfig, ConfigurationError>(ConfigurationError::EmptyPalette),
            r matches Ok(c) ==> c.image_size == image_size && c.block_size == block_size
                && c.palette@ == palette@ && c.wf(),
    {
        if block_size == 0 || image_size % block_size != 0 {
            Err(ConfigurationError::IndivisibleImageSize)
        } else if palette.len() == 0 {
            Err(ConfigurationError::EmptyPalette)
        } else {
            Ok(RasterConfig { image_size, block_size, palette })
        }
    }

    /// The default configuration: 64 by 64 pixels in blocks of 4 by 4, with
    /// the standard palette.
    pub fn standard() -> (r: RasterConfig)
        ensures
            r.image_size == IMAGE_SIZE,
            r.block_size == BLOCK_SIZE,
            r.palette@ == standard_palette_spec(),
            r.wf(),
    {
        RasterConfig { image_size: IMAGE_SIZE, block_size: BLOCK_SIZE, palette: standard_palette() }
    }
}

/// Index, in row-major block order, of the block that holds pixel `(x, y)`.
pub open spec fn block_of(block_size: int, blocks_per_side: int, x: int, y: int) -> int {
    (y / block_size) * blocks_per_side + x / block_size
}

/// Whether pixel `(x, y)` lies in block `(bx, by)` (column, row).
pub open spec fn in_block(block_size: int, bx: int, by: int, x: int, y: int) -> bool {
    &&& bx * block_size <= x < bx * block_size + block_size
    &&& by * block_size <= y < by * block_size + block_size
}

/// Palette index of pixel `(x, y)`; it depends on the palette's length only.
pub open spec fn pixel_index(
    image_size: int,
    block_size: int,
    palette_size: int,
    samples: Seq<i32>,
    x: int,
    y: int,
) -> int {
    quantize_spec(
        samples[block_of(block_size, image_size / block_size, x, y)] as int,
        palette_size,
    )
}

/// Color of pixel `(x, y)`.
pub open spec fn avatar_pixel(
    image_size: int,
    block_size: int,
    palette: Seq<Rgb>,
    samples: Seq<i32>,
    x: int,
    y: int,
) -> Rgb {
    palette[pixel_index(image_size, block_size, palette.len() as int, samples, x, y)]
}

/// The whole grid, row by row.
pub open spec fn avatar_grid(
    image_size: int,
    block_size: int,
    palette: Seq<Rgb>,
    samples: Seq<i32>,
) -> Seq<Seq<Rgb>> {
    Seq::new(
        image_size as nat,
        |y: int| Seq::new(image_size as nat, |x: int| avatar_pixel(image_size, block_size, palette, samples, x, y)),
    )
}

/// The rows of a grid, as sequences.
pub open spec fn grid_view(grid: Seq<Vec<Rgb>>) -> Seq<Seq<Rgb>> {
    grid.map_values(|row: Vec<Rgb>| row@)
}

proof fn lemma_div_in_block(x: int, b: int, bs: int)
    requires
        x >= 0,
        b >= 0,
        bs > 0,
    ensures
        (b * bs <= x < b * bs + bs) <==> x / bs == b,
{
    lemma_fundamental_div_mod(x, bs);
    let q = x / bs;
    let r = x % bs;
    if b * bs <= x < b * bs + bs {
        assert(q == b) by (nonlinear_arith)
            requires
                x == bs * q + r,
                0 <= r < bs,
                b * bs <= x < b * bs + bs,
        ;
    }
    if q == b {
        assert(b * bs <= x < b * bs + bs) by (nonlinear_arith)
            requires
                x == bs * q + r,
                0 <= r < bs,
                q == b,
        ;
    }
}

proof fn lemma_block_index_bound(x: int, y: int, bs: int, nb: int)
    requires
        0 <= x < nb * bs,
        0 <= y < nb * bs,
        bs > 0,
    ensures
        0 <= x / bs < nb,
        0 <= y / bs < nb,
        0 <= block_of(bs, nb, x, y) < nb * nb,
{
    lemma_fundamental_div_mod(x, bs);
    lemma_fundamental_div_mod(y, bs);
    let qx = x / bs;
    let qy = y / bs;
    assert(0 <= qx < nb) by (nonlinear_arith)
        requires
            x == bs * qx + x % bs,
            0 <= x % bs < bs,
            0 <= x < nb * bs,
    ;
    assert(0 <= qy < nb) by (nonlinear_arith)
        requires
            y == bs * qy + y % bs,
            0 <= y % bs < bs,
            0 <= y < nb * bs,
    ;
    assert(0 <= qy * nb + qx < nb * nb) by (nonlinear_arith)
        requires
            0 <= qx < nb,
            0 <= qy < nb,
    ;
}

/// The palette index of every block, in the order of `samples`.
pub fn block_indices(samples: &Vec<i32>, palette_size: usize) -> (r: Vec<usize>)
    requires
        palette_size >= 1,
    ensures
        r.len() == samples.len(),
        forall|i: int|
            0 <= i < samples.len() ==> r[i] == quantize_spec(samples[i] as int, palette_size as int),
        forall|i: int| 0 <= i < r.len() ==> r[i] < palette_size,
{
    let mut r: Vec<usize> = Vec::new();
    for i in 0..samples.len()
        invariant
            palette_size >= 1,
            r.len() == i,
            forall|j: int|
                0 <= j < i ==> r[j] == quantize_spec(samples[j] as int, palette_size as int),
            forall|j: int| 0 <= j < i ==> r[j] < palette_size,
    {
        r.push(quantize(samples[i], palette_size));
    }
    r
}

/// Paints every block with the palette color of its sample. `samples` holds one
/// sample per block, row of blocks after row of blocks; the result holds the
/// rows of pixels, top to bottom, each left to right.
pub fn rasterize(config: &RasterConfig, samples: &Vec<i32>) -> (r: Vec<Vec<Rgb>>)
    requires
        config.wf(),
        samples.len() == config.blocks_per_side() * config.blocks_per_side(),
    ensures
        grid_view(r@) == avatar_grid(
            config.image_size as int,
            config.block_size as int,
            config.palette@,
            samples@,
        ),
        r.len() == config.image_size,
        forall|y: int| 0 <= y < r.len() ==> (#[trigger] r[y]).len() == config.image_size,
        forall|x: int, y: int|
            0 <= x < config.image_size && 0 <= y < config.image_size ==> #[trigger] r[y][x]
                == avatar_pixel(
                config.image_size as int,
                config.block_size as int,
                config.palette@,
                samples@,
                x,
                y,
            ),
{
    let size = config.image_size;
    let bs = config.block_size;
    let nb: u32 = size / bs;
    let ghost palette = config.palette@;
    let indices = block_indices(samples, config.palette.len());
    proof {
        lemma_fundamental_div_mod(size as int, bs as int);
        assert(size == nb * bs) by (nonlinear_arith)
            requires
                size == bs * (size as int / bs as int) + size as int % bs as int,
                size as int % bs as int == 0,
                nb == size as int / bs as int,
        ;
    }
    let mut grid: Vec<Vec<Rgb>> = Vec::new();
    for y in 0..size
        invariant
            size == config.image_size,
            bs == config.block_size,
            nb == config.blocks_per_side(),
            size == nb * bs,
            config.wf(),
            palette == config.palette@,
            indices.len() == samples.len(),
            samples.len() == nb * nb,
            forall|i: int|
                0 <= i < samples.len() ==> indices[i] == quantize_spec(
                    samples[i] as int,
                    palette.len() as int,
                ),
            forall|i: int| 0 <= i < indices.len() ==> indices[i] < palette.len(),
            grid.len() == y,
            forall|yy: int| 0 <= yy < y ==> (#[trigger] grid[yy]).len() == size,
            forall|xx: int, yy: int|
                0 <= xx < size && 0 <= yy < y ==> #[trigger] grid[yy][xx] == avatar_pixel(
                    size as int,
                    bs as int,
                    palette,
                    samples@,
                    xx,
                    yy,
                ),
    {
        let mut row: Vec<Rgb> = Vec::new();
        for x in 0..size
            invariant
                size == config.image_size,
                bs == config.block_size,
                nb == config.blocks_per_side(),
                size == nb * bs,
                config.wf(),
                palette == config.palette@,
                y < size,
                indices.len() == samples.len(),
                samples.len() == nb * nb,
                forall|i: int|
                    0 <= i < samples.len() ==> indices[i] == quantize_spec(
                        samples[i] as int,
                        palette.len() as int,
                    ),
                forall|i: int| 0 <= i < indices.len() ==> indices[i] < palette.len(),
                row.len() == x,
                forall|xx: int|
                    0 <= xx < x ==> #[trigger] row[xx] == avatar_pixel(
                        size as int,
                        bs as int,
                        palette,
                        samples@,
                        xx,
                        y as int,
                    ),
        {
            proof {
                lemma_block_index_bound(x as int, y as int, bs as int, nb as int);
            }
            let block: u64 = (y / bs) as u64 * nb as u64 + (x / bs) as u64;
            let k = indices[block as usize];
            row.push(config.palette[k]);
        }
        grid.push(row);
    }
    assert(grid_view(grid@) =~~= avatar_grid(size as int, bs as int, palette, samples@));
    grid
}

/// Every pixel of the image lies in exactly one block, the one at
/// `(x / block_size, y / block_size)`, and all the pixels of a block share one
/// color.
pub proof fn lemma_block_tiling(image_size: int, block_size: int, palette: Seq<Rgb>, samples: Seq<i32>)
    requires
        image_size >= 0,
        tiles_exactly(image_size, block_size),
        palette.len() >= 1,
        samples.len() == (image_size / block_size) * (image_size / block_size),
    ensures
        forall|bx: int, by: int, x: int, y: int|
            0 <= bx && 0 <= by && 0 <= x < image_size && 0 <= y < image_size ==> (#[trigger] in_block(
                block_size,
                bx,
                by,
                x,
                y,
            ) <==> bx == x / block_size && by == y / block_size),
        forall|x: int, y: int|
            0 <= x < image_size && 0 <= y < image_size ==> 0 <= #[trigger] block_of(
                block_size,
                image_size / block_size,
                x,
                y,
            ) < samples.len(),
        forall|x1: int, y1: int, x2: int, y2: int|
            0 <= x1 < image_size && 0 <= y1 < image_size && 0 <= x2 < image_size && 0 <= y2
                < image_size && x1 / block_size == x2 / block_size && y1 / block_size == y2
                / block_size ==> #[trigger] avatar_pixel(image_size, block_size, palette, samples, x1, y1)
                == #[trigger] avatar_pixel(image_size, block_size, palette, samples, x2, y2),
{
    let nb = image_size / block_size;
    lemma_fundamental_div_mod(image_size, block_size);
    assert(image_size == nb * block_size) by (nonlinear_arith)
        requires
            image_size == block_size * nb + image_size % block_size,
            image_size % block_size == 0,
    ;
    assert forall|bx: int, by: int, x: int, y: int|
        0 <= bx && 0 <= by && 0 <= x < image_size && 0 <= y < image_size implies (#[trigger] in_block(
        block_size,
        bx,
        by,
        x,
        y,
    ) <==> bx == x / block_size && by == y / block_size) by {
        lemma_div_in_block(x, bx, block_size);
        lemma_div_in_block(y, by, block_size);
    }
    assert forall|x: int, y: int|
        0 <= x < image_size && 0 <= y < image_size implies 0 <= #[trigger] block_of(
        block_size,
        nb,
        x,
        y,
    ) < samples.len() by {
        lemma_block_index_bound(x, y, block_size, nb);
    }
}

/// Changing the colors of a palette, but not its length, recolors the image
/// without moving anything: every pixel keeps its palette index, and only the
/// color stored at that index changes.
pub proof fn lemma_palette_substitution(
    image_size: int,
    block_size: int,
    palette: Seq<Rgb>,
    other: Seq<Rgb>,
    samples: Seq<i32>,
)
    requires
        palette.len() == other.len(),
    ensures
        forall|x: int, y: int|
            0 <= x < image_size && 0 <= y < image_size ==> {
                let k = pixel_index(image_size, block_size, palette.len() as int, samples, x, y);
                &&& #[trigger] avatar_pixel(image_size, block_size, palette, samples, x, y)
                    == palette[k]
                &&& avatar_pixel(image_size, block_size, other, samples, x, y) == other[k]
            },
{
}

/// Block coordinates are divided by this before the noise field is sampled.
pub const NOISE_SCALE: u64 = 8;

/// Where the noise of block `j` (row-major) is sampled, as numerators over
/// `NOISE_SCALE`: the block's column, and its row shifted by the seed. Only the
/// vertical coordinate carries the seed.
pub open spec fn sample_point(seed: u32, blocks_per_side: int, j: int) -> (int, int) {
    (j % blocks_per_side, j / blocks_per_side + NOISE_SCALE * seed)
}

/// The sampling points of all blocks, row of blocks after row of blocks: block
/// `(bx, by)` is sampled at `(bx / NOISE_SCALE, by / NOISE_SCALE + seed)`, and
/// this returns the numerators `(bx, by + NOISE_SCALE * seed)`.
pub fn sample_coordinates(seed: u32, blocks_per_side: u32) -> (r: Vec<(u64, u64)>)
    ensures
        r.len() == blocks_per_side * blocks_per_side,
        forall|j: int|
            0 <= j < r.len() ==> (#[trigger] r[j]).0 == sample_point(
                seed,
                blocks_per_side as int,
                j,
            ).0 && r[j].1 == sample_point(seed, blocks_per_side as int, j).1,
{
    let nb = blocks_per_side;
    let shift: u64 = NOISE_SCALE * seed as u64;
    let mut r: Vec<(u64, u64)> = Vec::new();
    assert(0 * nb == 0);
    for by in 0..nb
        invariant
            shift == NOISE_SCALE * seed,
            nb == blocks_per_side,
            r.len() == by * nb,
            forall|j: int|
                0 <= j < r.len() ==> (#[trigger] r[j]).0 == sample_point(seed, nb as int, j).0
                    && r[j].1 == sample_point(seed, nb as int, j).1,
    {
        for bx in 0..nb
            invariant
                shift == NOISE_SCALE * seed,
                nb == blocks_per_side,
                by < nb,
                r.len() == by * nb + bx,
                forall|j: int|
                    0 <= j < r.len() ==> (#[trigger] r[j]).0 == sample_point(seed, nb as int, j).0
                        && r[j].1 == sample_point(seed, nb as int, j).1,
        {
            proof {
                lemma_fundamental_div_mod_converse(
                    (by * nb + bx) as int,
                    nb as int,
                    by as int,
                    bx as int,
                );
            }
            r.push((bx as u64, by as u64 + shift));
        }
        assert(r.len() == (by + 1) * nb) by (nonlinear_arith)
            requires
                r.len() == by * nb + nb,
        ;
    }
    r
}

/// Two identifiers that agree on their first ten characters are sampled at the
/// same points, so the same noise field gives them the same samples and hence
/// the same image.
pub proof fn lemma_same_prefix_same_points(a: Seq<char>, b: Seq<char>, blocks_per_side: int)
    requires
        a.len() >= SEED_PREFIX_LEN,
        b.len() >= SEED_PREFIX_LEN,
        forall|i: int| 0 <= i < SEED_PREFIX_LEN ==> a[i] == b[i],
    ensures
        forall|j: int|
            #[trigger] sample_point(seed_of(a), blocks_per_side, j) == sample_point(
                seed_of(b),
                blocks_per_side,
                j,
            ),
{
    lemma_seed_truncation(a, b);
}

} // verus!
