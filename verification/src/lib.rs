//! Verified core of an escape-time fractal renderer: work splitting across
//! horizontal bands, pixel-buffer assembly and row flipping, hex color
//! parsing and byte-level overlay blending, the iteration-control policy
//! shared by all fractal variants, and PNG data-URL packaging.
mod buffer;
mod color;
mod data;
mod encode;
mod iterate;
mod splitter;

pub use buffer::assemble_bands;
pub use buffer::band_row_offset;
pub use buffer::concat_data;
pub use buffer::flip_rows;
pub use buffer::flip_rows_spec;
pub use buffer::lemma_assembly_reconstructs;
pub use buffer::lemma_split_dimensions_exact;
pub use buffer::pixel_offset;
pub use buffer::take_and_flip;
pub use buffer::total_height;
pub use buffer::PixelBuffer;
pub use color::all_hex_digits;
pub use color::blend_channel_overlay;
pub use color::blend_overlay;
pub use color::blend_with_color;
pub use color::create_color_lut;
pub use color::hex_bytes;
pub use color::hex_color_spec;
pub use color::hex_to_color;
pub use color::hex_val;
pub use color::is_hex_digit;
pub use color::parse_gradient_endpoints;
pub use color::valid_hex;
pub use data::export_status;
pub use data::ColorHex;
pub use data::ColorParseError;
pub use data::ExportResult;
pub use data::Rgb;
pub use encode::b64_alphabet;
pub use encode::b64_encode;
pub use encode::data_url_from_png;
pub use encode::into_data_url;
pub use encode::png_bytes;
pub use iterate::lemma_cycle_forces_max_index;
pub use iterate::lemma_immediate_escape;
pub use iterate::lemma_snapshot_cadence;
pub use iterate::IterationControl;
pub use iterate::SNAPSHOT_PERIOD;
pub use splitter::band_heights;
pub use splitter::height_sum;
pub use splitter::interactive_workers;
pub use splitter::throughput_workers;
