# grabwin

Fast screenshots of a window's client area on Windows via Windows Graphics Capture,
exposed to Python. The logic that decides what ends up in a screenshot is written in
Verus and proved against its contracts.

## Layout

- `src/` — the verified library.
  - `frame.rs`: pixel formats, BGRA → BGRA/RGBA/RGB/BGR conversion, unpacking of
    row-padded GPU buffers into tightly packed frames.
  - `pngenc.rs`: RGB PNG encoding of a BGRA frame (argument checks, compression-level
    mapping, the call into the `png` crate).
  - `window.rs`: client-area crop geometry, which windows are capturable, executable
    names, and choosing a window by title or by process.
  - `capture.rs`: capture modes and options, selector arguments, frame-pool sizing, and
    the capture session: `Session` keeps the pool size, content size, crop, the size of
    the buffered GPU copy, the CPU copy's bytes (live mode) and the frame callback's
    failure not yet reported. Its invariant says the content fits the pool, the crop lies
    in the content, the GPU copy has the crop's size and the CPU copy holds exactly
    `width * height * 4` bytes of it; a recorded failure is reported by one grab only.
    Also: what to do with an arriving frame, and when a grab is served, fails or waits.
  - `error.rs`: the library's error type.
- `tests/` — tests of the library.
- `app/` — the Python extension module and everything that talks to Win32, Direct3D 11
  and WinRT; it calls the library for every decision.

Run the tests with `cargo test`.
