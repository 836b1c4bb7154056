//! A terminal "digital rain" animation library: a grid of glyph cells whose
//! columns spawn bright glyphs at a random cadence and fade the rest toward
//! black each tick. The per-tick state machine (fading, spawning, cursor
//! wraparound) and the frame composition are verified; color-space math,
//! random draws and terminal output are consumed through narrow interfaces.

mod color;
mod column;
mod glyph;
mod instruction;
mod rng;
mod waterfall;

pub use color::faded_n;
pub use color::faded_rgb;
pub use color::lemma_fade_achromatic;
pub use color::lemma_fade_converges;
pub use color::lemma_fade_lightness;
pub use color::lightness2;
pub use color::Rgb;
pub use column::advanced_index;
pub use column::column_stepped;
pub use column::is_spawn_step;
pub use column::lemma_active_index_wraps;
pub use column::lemma_cursor_wraps;
pub use column::lemma_fresh_column_first_step;
pub use column::lemma_spawn_step_preserves;
pub use column::lemma_spawned_row_fresh;
pub use column::next_index;
pub use column::spawn_color;
pub use column::spawn_glyph;
pub use column::Column;
pub use glyph::empty_glyph;
pub use glyph::faded_glyph;
pub use glyph::glyph_instructions;
pub use glyph::is_symbol;
pub use glyph::symbol_char;
pub use glyph::symbol_count;
pub use glyph::symbols;
pub use glyph::Glyph;
pub use instruction::Instruction;
pub use rng::choose_random;
pub use waterfall::frame_instructions;
pub use waterfall::row_prefix_instructions;
pub use waterfall::rows_prefix_instructions;
pub use waterfall::MatrixWaterFall;
