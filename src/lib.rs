//! Cellular-automata cave generation over a boolean wall/floor grid.

mod cave;
mod grid;
mod render;
mod rules;
mod seed;

pub use cave::{
    cave_of, filled, lemma_seed_string_deterministic, pcg_ratio_draw, seeded_cave, seeded_draws,
};
pub use grid::{
    lemma_flat_index, lemma_flat_index_injective, lemma_set_then_get, lemma_split_index, Grid,
    GridView,
};
pub use render::{border_text, cell_char, grid_text, row_text, rows_text};
pub use rules::{
    lemma_cleanup_idempotent, lemma_fixed_is_stable, lemma_neighbour_counts_bounded,
    lemma_stable_is_fixed, lemma_stepped_cell, lemma_stepped_valid, standard_params, CaveParams,
};
pub use seed::{
    default_hash, digit_value, digits_value, is_digit, is_white_space, parse_decimal_u64,
    parse_u64, resolve_seed, seed_of, trim_end, trim_start, trimmed, unsigned_digits,
};
