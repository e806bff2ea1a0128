use axum_shuttle_demo::encode::{render_avatar, to_rgb8, AvatarError};
use axum_shuttle_demo::palette::{quantize, standard_palette, Rgb, SAMPLE_ONE};
use axum_shuttle_demo::raster::{
    block_indices, rasterize, sample_coordinates, ConfigurationError, RasterConfig, BLOCK_SIZE,
    IMAGE_SIZE, NOISE_SCALE,
};
use axum_shuttle_demo::seed::get_seed;
use noise::{NoiseFn, Perlin};

const PNG_SIGNATURE: [u8; 8] = [137, 80, 78, 71, 13, 10, 26, 10];

fn rgb(red: u8, green: u8, blue: u8) -> Rgb {
    Rgb { red, green, blue }
}

fn perlin_samples(seed: u32, blocks: u32) -> Vec<i32> {
    let perlin = Perlin::new();
    let scale = NOISE_SCALE as f64;
    sample_coordinates(seed, blocks)
        .into_iter()
        .map(|(x, y)| {
            let v = perlin.get([x as f64 / scale, y as f64 / scale]);
            (v * SAMPLE_ONE as f64).floor() as i32
        })
        .collect()
}

#[test]
fn sampling_points_shift_rows_by_the_seed() {
    assert_eq!(sample_coordinates(0, 2), vec![(0, 0), (1, 0), (0, 1), (1, 1)]);
    assert_eq!(sample_coordinates(3, 2), vec![(0, 24), (1, 24), (0, 25), (1, 25)]);
    assert_eq!(sample_coordinates(7, 0), Vec::<(u64, u64)>::new());
    let points = sample_coordinates(u32::MAX, 16);
    assert_eq!(points.len(), 256);
    assert_eq!(points[17], (1, 1 + 8 * u32::MAX as u64));
    let exact = points[17].1 as f64 / NOISE_SCALE as f64;
    assert_eq!(exact, 1.0 / 8.0 + u32::MAX as f64);
}

#[test]
fn seed_of_empty_identifier_is_zero() {
    assert_eq!(get_seed(""), 0);
}

#[test]
fn seed_sums_scalar_values() {
    assert_eq!(get_seed("a"), 97);
    assert_eq!(get_seed("ab"), 97 + 98);
    assert_eq!(get_seed("é"), 0xE9);
    assert_eq!(get_seed("\u{10FFFF}"), 0x10FFFF);
}

#[test]
fn seed_ignores_characters_after_the_tenth() {
    assert_eq!(get_seed("abcdefghij"), get_seed("abcdefghijXYZ"));
    assert_eq!(get_seed("abcdefghij"), get_seed("abcdefghij\u{10FFFF}"));
    assert_ne!(get_seed("abcdefghi"), get_seed("abcdefghiX"));
    let expected: u32 = (b'a'..=b'j').map(|b| b as u32).sum();
    assert_eq!(get_seed("abcdefghijklmnop"), expected);
}

#[test]
fn quantize_covers_the_palette() {
    assert_eq!(quantize(-SAMPLE_ONE, 5), 0);
    assert_eq!(quantize(-SAMPLE_ONE / 2 - 1, 5), 0);
    assert_eq!(quantize(-SAMPLE_ONE / 2, 5), 1);
    assert_eq!(quantize(0, 5), 2);
    assert_eq!(quantize(SAMPLE_ONE / 2 - 1, 5), 2);
    assert_eq!(quantize(SAMPLE_ONE / 2, 5), 3);
    assert_eq!(quantize(SAMPLE_ONE - 1, 5), 3);
    assert_eq!(quantize(SAMPLE_ONE, 5), 4);
}

#[test]
fn quantize_clamps_out_of_range_samples() {
    assert_eq!(quantize(SAMPLE_ONE + 1, 5), 4);
    assert_eq!(quantize(i32::MAX, 5), 4);
    assert_eq!(quantize(-SAMPLE_ONE - 1, 5), 0);
    assert_eq!(quantize(i32::MIN, 5), 0);
}

#[test]
fn quantize_stays_in_range_for_every_palette_size() {
    for n in 1..12usize {
        for s in [-SAMPLE_ONE, -40000, -1, 0, 1, 12345, SAMPLE_ONE] {
            assert!(quantize(s, n) < n);
        }
        assert_eq!(quantize(-SAMPLE_ONE, n), 0);
        assert_eq!(quantize(SAMPLE_ONE, n), n - 1);
    }
    assert_eq!(quantize(0, 1), 0);
    assert_eq!(quantize(0, 2), 0);
    assert_eq!(quantize(0, 3), 1);
}

#[test]
fn indivisible_image_size_is_rejected() {
    let r = RasterConfig::new(65, 4, standard_palette());
    assert!(matches!(r, Err(ConfigurationError::IndivisibleImageSize)));
    let r = RasterConfig::new(64, 0, standard_palette());
    assert!(matches!(r, Err(ConfigurationError::IndivisibleImageSize)));
    let r = RasterConfig::new(65, 4, Vec::new());
    assert!(matches!(r, Err(ConfigurationError::IndivisibleImageSize)));
}

#[test]
fn empty_palette_is_rejected() {
    let r = RasterConfig::new(64, 4, Vec::new());
    assert!(matches!(r, Err(ConfigurationError::EmptyPalette)));
}

#[test]
fn single_color_palette_is_allowed() {
    let c = RasterConfig::new(8, 4, vec![rgb(1, 2, 3)]).unwrap();
    let grid = rasterize(&c, &vec![-SAMPLE_ONE, 0, SAMPLE_ONE, 7]);
    assert!(grid.iter().all(|row| row.iter().all(|p| *p == rgb(1, 2, 3))));
}

#[test]
fn standard_configuration() {
    let c = RasterConfig::standard();
    assert_eq!(c.image_size, IMAGE_SIZE);
    assert_eq!(c.block_size, BLOCK_SIZE);
    assert_eq!(IMAGE_SIZE, 64);
    assert_eq!(BLOCK_SIZE, 4);
    assert_eq!(
        c.palette,
        vec![
            rgb(217, 30, 65),
            rgb(115, 50, 92),
            rgb(38, 36, 115),
            rgb(30, 28, 89),
            rgb(242, 58, 41),
        ]
    );
}

#[test]
fn rasterize_paints_blocks_row_by_row() {
    let palette = vec![rgb(1, 0, 0), rgb(2, 0, 0), rgb(3, 0, 0)];
    let c = RasterConfig::new(4, 2, palette).unwrap();
    // blocks: top-left, top-right, bottom-left, bottom-right
    let grid = rasterize(&c, &vec![-SAMPLE_ONE, 0, SAMPLE_ONE, -SAMPLE_ONE]);
    let a = rgb(1, 0, 0);
    let b = rgb(2, 0, 0);
    let d = rgb(3, 0, 0);
    assert_eq!(
        grid,
        vec![
            vec![a, a, b, b],
            vec![a, a, b, b],
            vec![d, d, a, a],
            vec![d, d, a, a],
        ]
    );
}

#[test]
fn standard_grid_tiles_into_uniform_blocks() {
    let c = RasterConfig::standard();
    let samples: Vec<i32> = (0..256).map(|i| (i * 997 % 131073) - SAMPLE_ONE).collect();
    let grid = rasterize(&c, &samples);
    assert_eq!(grid.len(), 64);
    assert_eq!(grid.iter().map(|row| row.len()).sum::<usize>(), 4096);
    let indices = block_indices(&samples, 5);
    for y in 0..64 {
        for x in 0..64 {
            let block = (y / 4) * 16 + x / 4;
            assert_eq!(grid[y][x], c.palette[indices[block]]);
            assert_eq!(grid[y][x], grid[(y / 4) * 4][(x / 4) * 4]);
        }
    }
}

#[test]
fn palette_substitution_keeps_block_indices() {
    let samples = perlin_samples(get_seed("someone"), 16);
    let first = RasterConfig::standard();
    let other_palette = vec![
        rgb(0, 0, 0),
        rgb(10, 10, 10),
        rgb(20, 20, 20),
        rgb(30, 30, 30),
        rgb(40, 40, 40),
    ];
    let second = RasterConfig::new(64, 4, other_palette.clone()).unwrap();
    let g1 = rasterize(&first, &samples);
    let g2 = rasterize(&second, &samples);
    let indices = block_indices(&samples, 5);
    for y in 0..64 {
        for x in 0..64 {
            let k = indices[(y / 4) * 16 + x / 4];
            assert_eq!(g1[y][x], first.palette[k]);
            assert_eq!(g2[y][x], other_palette[k]);
        }
    }
}

#[test]
fn rgb8_bytes_are_row_major() {
    let grid = vec![vec![rgb(1, 2, 3), rgb(4, 5, 6)], vec![rgb(7, 8, 9), rgb(10, 11, 12)]];
    assert_eq!(to_rgb8(&grid), (1..=12).collect::<Vec<u8>>());
    assert_eq!(to_rgb8(&Vec::new()), Vec::<u8>::new());
}

#[test]
fn empty_identifier_gives_a_stable_png() {
    let seed = get_seed("");
    assert_eq!(seed, 0);
    let c = RasterConfig::standard();
    let first = render_avatar(&c, &perlin_samples(seed, 16)).unwrap();
    let second = render_avatar(&c, &perlin_samples(seed, 16)).unwrap();
    assert_eq!(first, second);
    assert_eq!(&first[..8], &PNG_SIGNATURE);
    let raw = to_rgb8(&rasterize(&c, &perlin_samples(seed, 16)));
    assert_eq!(raw.len(), 64 * 64 * 3);
    assert_ne!(first, raw);
}

#[test]
fn identifiers_with_one_prefix_give_one_png() {
    let c = RasterConfig::standard();
    let a = render_avatar(&c, &perlin_samples(get_seed("0123456789-a"), 16)).unwrap();
    let b = render_avatar(&c, &perlin_samples(get_seed("0123456789-b"), 16)).unwrap();
    assert_eq!(a, b);
}

#[test]
fn one_pixel_image_renders() {
    let c = RasterConfig::new(1, 1, standard_palette()).unwrap();
    let png = render_avatar(&c, &vec![0]).unwrap();
    assert_eq!(&png[..8], &PNG_SIGNATURE);
}

#[test]
fn zero_sized_image_fails_in_the_encoder() {
    let c = RasterConfig::new(0, 4, standard_palette()).unwrap();
    let r = render_avatar(&c, &Vec::new());
    assert!(matches!(r, Err(AvatarError::Encoding(_))));
}
