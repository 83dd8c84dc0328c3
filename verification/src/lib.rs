//! Control logic for a spatial-light-modulator aiming device, with
//! machine-checked contracts.
//!
//! - `schema`: the configuration and the protocol messages.
//! - `dispatch`: how a message changes the device state and which steps it
//!   asks for.
//! - `plan`: the terms of the pattern for a state.
//! - `calibration`: the scale factor for a wavelength.
//! - `resolve`: the file names probed for a pattern or a correction.
//! - `catalog`: the catalog of pattern families.
//! - `cache`: decoded rasters by path.
//! - `payload`: uploaded images and correction rasters.
//! - `resample`: fitting an image to the frame.
//! - `screen`: laying a pattern into the pixel buffer.
//! - `text`: numerals, splitting and lexical order.

pub mod cache;
pub mod calibration;
pub mod catalog;
pub mod dispatch;
pub mod payload;
pub mod plan;
pub mod resample;
pub mod resolve;
pub mod schema;
pub mod screen;
pub mod text;
