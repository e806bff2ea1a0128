//! A small web service's logic. Its core is deterministic avatar generation:
//! an identifier is folded into a seed (`seed`), one noise sample per block is
//! quantized onto a fixed palette (`palette`), the blocks are rasterized into a
//! pixel grid (`raster`), and the grid is encoded as PNG (`encode`). Beside it
//! stand the dictionary lookup (`dictionary`), the HTML pages (`pages`) and the
//! matrix determinant evaluator (`matrix_determinant`).
use vstd::prelude::*;

pub mod dictionary;
pub mod encode;
pub mod matrix_determinant;
pub mod pages;
pub mod palette;
pub mod raster;
pub mod seed;
