//! Verified core of a cross-platform clipboard library.
//!
//! The modules hold the platform-independent data model (errors and image
//! data) together with the byte-level formats and the decisions that the
//! platform backends make: pixel layout conversions and DIB headers for the
//! Windows clipboard, the `HTML Format` envelope, the X11 selection bookkeeping
//! and the small state machines that drive retries and waits.
pub mod error;
pub use error::{err, into_unknown, Error, MessageError};
pub mod image_data;
pub use image_data::ImageData;
pub mod pixels;
pub mod le;
pub mod bitmap;
pub mod codec;
pub mod html;
pub mod text;
pub mod linux;
pub mod x11;
pub mod format_table;
pub mod x11_legacy;
pub mod windows;
pub mod dummy;
pub mod options;
pub mod platforms;
pub mod apple;
