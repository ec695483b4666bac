use vstd::prelude::*;

verus! {

/// What was wrong with an argument handed to the library.
#[derive(Debug)]
pub enum InvalidArgument {
    /// A pixel format name that is none of `bgra`, `rgba`, `rgb`, `bgr`
    /// (holds the name as compared, in ASCII lower case).
    PixelFormat(String),
    /// A PNG compression level above 9.
    Compression(u8),
    /// A BGRA buffer whose length does not match `width * height * 4`.
    BufferSize { len: usize, expected: usize, width: u32, height: u32 },
    /// Not exactly one of hwnd, title or process was given.
    Selector,
    /// A capture mode name that is neither `on_demand` nor `live`.
    Mode(String),
}

/// Which selector matched no window.
#[derive(Debug)]
pub enum NotFound {
    /// The handle does not name a window.
    NotAWindow(isize),
    /// The handle names a window whose information could not be read.
    NoInfo(isize),
    /// No capturable window has a title containing this text.
    Title(String),
    /// No capturable window belongs to a process of this name.
    Process(String),
}

/// Errors of the capture library.
#[derive(Debug)]
pub enum Error {
    /// Selector did not match any window.
    NotFound(NotFound),
    /// The captured window was closed (or the capture was closed by the user).
    Closed,
    /// Window is minimized and no frame is buffered yet.
    Minimized,
    /// No frame arrived within the timeout (milliseconds).
    Timeout(u32),
    /// Window capture or the graphics device is unavailable on this system.
    Unsupported(String),
    /// A failure of the operating system, by its result code.
    Windows(i32),
    /// PNG encoding failed.
    Encode(String),
    /// Bad argument from the caller.
    Invalid(InvalidArgument),
}

} // verus!
