//! Verified core of a window-capture library: pixel-format conversion of captured
//! BGRA frames, row unpacking of mapped GPU buffers, PNG framing, client-area crop
//! geometry, window selection and the decisions of the capture session.

pub mod capture;
pub mod error;
pub mod frame;
pub mod pngenc;
pub mod window;

pub use error::{Error, InvalidArgument, NotFound};
