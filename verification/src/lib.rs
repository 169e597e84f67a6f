//! Verified core of a passport-photo sheet builder: background choice,
//! raster crops and overlays, tone mapping, mask compositing, the print
//! sheet layout and the session state that ties the pieces together.

pub mod background;
pub mod grid;
pub mod raster;
pub mod buffers;
pub mod resample;
pub mod portrait;
pub mod sheet;
pub mod session;
pub mod export;
pub mod orientation;
pub mod decode;

pub use background::Background;
pub use buffers::{GrayImage, RgbImage};
pub use portrait::{CropRect, RenderPlan, render_portrait, finish_portrait, apply_levels, replace_background, mix_channel};
pub use resample::ResampleFilter;
pub use session::{AiState, ChoiceOutcome, Session};
pub use sheet::{compose_sheet, DPI, PHOTO_HEIGHT, PHOTO_WIDTH, SHEET_HEIGHT, SHEET_WIDTH};
pub use export::{default_file_name, encode_print_jpeg, print_file, JpegError, JPEG_QUALITY};
pub use orientation::Orientation;
pub use decode::{open_upright, upright_from_decoded};
