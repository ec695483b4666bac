use vstd::prelude::*;
use vstd::string::StringExecFns;

use crate::error::{Error, InvalidArgument};
use crate::frame::{same_chars, unpack_rows, unpacked, Frame};
use crate::window::{
    crop_for, crop_in_range, fits_i32, frame_origin, law_crop_inside_frame, max, sizes_in_range,
    spec_client_crop, Crop, Geometry, Selector,
};

verus! {

/// When frames are read back from the GPU.
#[derive(Debug, Clone, Copy, PartialEq, Eq, Structural)]
pub enum Mode {
    /// Only when a grab asks for one.
    OnDemand,
    /// Every frame, in the background.
    Live,
}

/// Settings of a capture session.
#[derive(Debug, Clone, Copy)]
pub struct Options {
    pub mode: Mode,
    pub timeout_ms: u32,
    pub cursor: bool,
    pub border: bool,
}

/// The name a mode is known by.
pub open spec fn mode_name(m: Mode) -> Seq<char> {
    match m {
        Mode::OnDemand => seq!['o', 'n', '_', 'd', 'e', 'm', 'a', 'n', 'd'],
        Mode::Live => seq!['l', 'i', 'v', 'e'],
    }
}

impl Mode {
    /// Parses `on_demand` or `live` (exactly, case matters).
    pub fn parse(s: &str) -> (r: Result<Mode, Error>)
        ensures
            s@ == mode_name(Mode::OnDemand) ==> r == Ok::<Mode, Error>(Mode::OnDemand),
            s@ == mode_name(Mode::Live) ==> r == Ok::<Mode, Error>(Mode::Live),
            s@ != mode_name(Mode::OnDemand) && s@ != mode_name(Mode::Live) ==> (r matches Err(
                Error::Invalid(InvalidArgument::Mode(given)),
            ) && given@ == s@),
    {
        proof {
            reveal_strlit("on_demand");
            reveal_strlit("live");
            assert("on_demand"@ =~= mode_name(Mode::OnDemand));
            assert("live"@ =~= mode_name(Mode::Live));
        }
        if same_chars(s, "on_demand") {
            Ok(Mode::OnDemand)
        } else if same_chars(s, "live") {
            Ok(Mode::Live)
        } else {
            Err(Error::Invalid(InvalidArgument::Mode(String::from_str(s))))
        }
    }

    /// The mode's name: `on_demand` or `live`.
    pub fn name(self) -> (r: &'static str)
        ensures
            r@ == mode_name(self),
    {
        proof {
            reveal_strlit("on_demand");
            reveal_strlit("live");
        }
        match self {
            Mode::OnDemand => "on_demand",
            Mode::Live => "live",
        }
    }
}

/// The selector given by exactly one of a handle, a title or a process name.
pub fn selector_from_args(hwnd: Option<isize>, title: Option<String>, process: Option<String>) -> (r:
    Result<Selector, Error>)
    ensures
        match (hwnd, title, process) {
            (Some(h), None, None) => r matches Ok(Selector::Hwnd(g)) && g == h,
            (None, Some(t), None) => r matches Ok(Selector::Title(u)) && u == t,
            (None, None, Some(p)) => r matches Ok(Selector::Process(q)) && q == p,
            _ => r matches Err(Error::Invalid(InvalidArgument::Selector)),
        },
{
    match (hwnd, title, process) {
        (Some(h), None, None) => Ok(Selector::Hwnd(h)),
        (None, Some(t), None) => Ok(Selector::Title(t)),
        (None, None, Some(p)) => Ok(Selector::Process(p)),
        _ => Err(Error::Invalid(InvalidArgument::Selector)),
    }
}

/// Size of the frame pool: the content size, grown to the monitor's size when the monitor
/// (left, top, right, bottom) is known and larger.
pub open spec fn spec_pool_size(
    content: (i32, i32),
    monitor: Option<(i32, i32, i32, i32)>,
) -> (int, int) {
    let (mw, mh) = match monitor {
        Some(m) => (m.2 - m.0, m.3 - m.1),
        None => (0int, 0int),
    };
    (max(content.0 as int, mw), max(content.1 as int, mh))
}

/// Whether the monitor's size fits in `i32`.
pub open spec fn monitor_in_range(monitor: Option<(i32, i32, i32, i32)>) -> bool {
    match monitor {
        Some(m) => fits_i32(m.2 - m.0) && fits_i32(m.3 - m.1),
        None => true,
    }
}

/// The frame pool is sized to the window's monitor (or the content, if larger), so that a
/// resize within the monitor is usable at once.
pub fn pool_size(content: (i32, i32), monitor: Option<(i32, i32, i32, i32)>) -> (r: (i32, i32))
    requires
        monitor_in_range(monitor),
    ensures
        r.0 == spec_pool_size(content, monitor).0,
        r.1 == spec_pool_size(content, monitor).1,
{
    let (mon_w, mon_h) = match monitor {
        Some((l, t, r, b)) => (r - l, b - t),
        None => (0, 0),
    };
    (
        if content.0 >= mon_w {
            content.0
        } else {
            mon_w
        },
        if content.1 >= mon_h {
            content.1
        } else {
            mon_h
        },
    )
}

/// The pool always holds the content and the whole monitor.
pub proof fn law_pool_covers_content(content: (i32, i32), monitor: Option<(i32, i32, i32, i32)>)
    ensures
        spec_pool_size(content, monitor).0 >= content.0,
        spec_pool_size(content, monitor).1 >= content.1,
        monitor matches Some(m) ==> spec_pool_size(content, monitor).0 >= m.2 - m.0
            && spec_pool_size(content, monitor).1 >= m.3 - m.1,
        monitor matches Some(m) ==> (spec_pool_size(content, monitor).0 == content.0
            || spec_pool_size(content, monitor).0 == m.2 - m.0) && (spec_pool_size(
            content,
            monitor,
        ).1 == content.1 || spec_pool_size(content, monitor).1 == m.3 - m.1),
        monitor is None ==> spec_pool_size(content, monitor).0 == content.0 || (content.0 < 0
            && spec_pool_size(content, monitor).0 == 0),
        monitor is None ==> spec_pool_size(content, monitor).1 == content.1 || (content.1 < 0
            && spec_pool_size(content, monitor).1 == 0),
{
}

/// What to do with a frame that has just arrived.
#[derive(Debug, Clone, Copy, PartialEq, Eq, Structural)]
pub enum FrameStep {
    /// Drop it: it is empty, or the window is minimized.
    Skip,
    /// The content outgrew the pool: recreate the pool larger, recompute the crop, drop
    /// the buffered frames and this one.
    Recreate,
    /// The content was resized within the pool: recompute the crop, drop the buffered
    /// frames, then copy this frame.
    Recrop,
    /// Copy the frame with the current crop.
    Copy,
}

/// The step for a frame of content `size`, given the pool size and the content size the
/// current crop was computed for.
pub open spec fn spec_frame_step(
    size: (i32, i32),
    minimized: bool,
    pool: (i32, i32),
    content: (i32, i32),
) -> FrameStep {
    if size.0 <= 0 || size.1 <= 0 || minimized {
        FrameStep::Skip
    } else if size.0 > pool.0 || size.1 > pool.1 {
        FrameStep::Recreate
    } else if size != content {
        FrameStep::Recrop
    } else {
        FrameStep::Copy
    }
}

/// Decides what to do with an arrived frame. A minimized window is never allowed to
/// trigger a pool recreate, which would drop the buffered last frame.
pub fn frame_step(size: (i32, i32), minimized: bool, pool: (i32, i32), content: (i32, i32)) -> (r:
    FrameStep)
    ensures
        r == spec_frame_step(size, minimized, pool, content),
{
    if size.0 <= 0 || size.1 <= 0 || minimized {
        FrameStep::Skip
    } else if size.0 > pool.0 || size.1 > pool.1 {
        FrameStep::Recreate
    } else if size.0 != content.0 || size.1 != content.1 {
        FrameStep::Recrop
    } else {
        FrameStep::Copy
    }
}

/// A frame is only ever copied when it fits the pool and matches the content size the crop
/// was made for; a minimized window's frames never change the session.
pub proof fn law_copy_only_fitting_frames(
    size: (i32, i32),
    minimized: bool,
    pool: (i32, i32),
    content: (i32, i32),
)
    ensures
        spec_frame_step(size, minimized, pool, content) == FrameStep::Copy ==> size == content
            && size.0 <= pool.0 && size.1 <= pool.1 && size.0 > 0 && size.1 > 0,
        spec_frame_step(size, minimized, pool, content) == FrameStep::Recrop ==> size.0 <= pool.0
            && size.1 <= pool.1,
        minimized ==> spec_frame_step(size, minimized, pool, content) == FrameStep::Skip,
{
}

/// Every arrived frame is handled: an empty frame or one from a minimized window is skipped;
/// otherwise a frame larger than the pool in either dimension recreates the pool, and a frame
/// that fits is never skipped: it is recropped exactly when its width or height differs
/// from the content size, and copied otherwise.
pub proof fn law_frame_step_cases(size: (i32, i32), minimized: bool, pool: (i32, i32), content: (i32, i32))
    ensures
        (size.0 <= 0 || size.1 <= 0 || minimized) <==> spec_frame_step(size, minimized, pool, content)
            == FrameStep::Skip,
        size.0 > 0 && size.1 > 0 && !minimized && (size.0 > pool.0 || size.1 > pool.1)
            ==> spec_frame_step(size, minimized, pool, content) == FrameStep::Recreate,
        size.0 > 0 && size.1 > 0 && !minimized && size.0 <= pool.0 && size.1 <= pool.1 ==> {
            &&& spec_frame_step(size, minimized, pool, content) != FrameStep::Skip
            &&& (spec_frame_step(size, minimized, pool, content) == FrameStep::Recrop <==> (size.0
                != content.0 || size.1 != content.1))
            &&& (spec_frame_step(size, minimized, pool, content) == FrameStep::Copy <==> (size.0
                == content.0 && size.1 == content.1))
        },
{
}

/// The (left, top, right, bottom) source box of a crop.
pub fn copy_region(crop: Crop) -> (r: (u32, u32, u32, u32))
    requires
        crop.x + crop.width <= u32::MAX,
        crop.y + crop.height <= u32::MAX,
    ensures
        r == (crop.x, crop.y, (crop.x + crop.width) as u32, (crop.y + crop.height) as u32),
{
    (crop.x, crop.y, crop.x + crop.width, crop.y + crop.height)
}

/// Whether a grab can be served: in on-demand mode from the cropped GPU copy, in live
/// mode from the CPU copy.
pub open spec fn spec_has_frame(mode: Mode, has_gpu_copy: bool, has_cpu_copy: bool) -> bool {
    match mode {
        Mode::OnDemand => has_gpu_copy,
        Mode::Live => has_cpu_copy,
    }
}

/// Whether a buffered frame is available for the mode.
pub fn has_frame(mode: Mode, has_gpu_copy: bool, has_cpu_copy: bool) -> (r: bool)
    ensures
        r == spec_has_frame(mode, has_gpu_copy, has_cpu_copy),
{
    match mode {
        Mode::OnDemand => has_gpu_copy,
        Mode::Live => has_cpu_copy,
    }
}

/// What a grab does next.
#[derive(Debug, Clone, Copy, PartialEq, Eq, Structural)]
pub enum GrabStep {
    /// Fail with `Closed`.
    Closed,
    /// Fail with the error the frame callback recorded.
    Failed,
    /// Fail with `Minimized`.
    Minimized,
    /// Fail with `Timeout`.
    TimedOut,
    /// Wait for the next frame (or, before the wait loop, go on to it).
    Wait,
    /// Read the buffered frame.
    Ready,
}

/// Before waiting: a stopped or closed capture, or a window that no longer exists, fails
/// with `Closed` (a buffered frame is never returned for a vanished window); then a
/// recorded callback error fails the grab.
pub open spec fn spec_grab_start(stopped: bool, closed: bool, alive: bool, error_pending: bool) -> GrabStep {
    if stopped || closed || !alive {
        GrabStep::Closed
    } else if error_pending {
        GrabStep::Failed
    } else {
        GrabStep::Wait
    }
}

/// The checks a grab makes before it waits for a frame.
pub fn grab_start(stopped: bool, closed: bool, alive: bool, error_pending: bool) -> (r: GrabStep)
    ensures
        r == spec_grab_start(stopped, closed, alive, error_pending),
{
    if stopped || closed || !alive {
        GrabStep::Closed
    } else if error_pending {
        GrabStep::Failed
    } else {
        GrabStep::Wait
    }
}

/// While waiting: a buffered frame is served first; otherwise closing, a callback error,
/// minimizing and the deadline end the wait, in that order.
pub open spec fn spec_grab_wait(
    has_frame: bool,
    closed: bool,
    error_pending: bool,
    minimized: bool,
    deadline_passed: bool,
) -> GrabStep {
    if has_frame {
        GrabStep::Ready
    } else if closed {
        GrabStep::Closed
    } else if error_pending {
        GrabStep::Failed
    } else if minimized {
        GrabStep::Minimized
    } else if deadline_passed {
        GrabStep::TimedOut
    } else {
        GrabStep::Wait
    }
}

/// One round of a grab's wait for a frame.
pub fn grab_wait(
    has_frame: bool,
    closed: bool,
    error_pending: bool,
    minimized: bool,
    deadline_passed: bool,
) -> (r: GrabStep)
    ensures
        r == spec_grab_wait(has_frame, closed, error_pending, minimized, deadline_passed),
{
    if has_frame {
        GrabStep::Ready
    } else if closed {
        GrabStep::Closed
    } else if error_pending {
        GrabStep::Failed
    } else if minimized {
        GrabStep::Minimized
    } else if deadline_passed {
        GrabStep::TimedOut
    } else {
        GrabStep::Wait
    }
}

/// A grab is decided in a fixed order: before waiting, a stopped or closed capture or a
/// vanished window fails with `Closed` ahead of a pending failure, which is reported ahead of
/// waiting; while waiting, a buffered frame is served first, then closing, a pending
/// failure, minimizing and the deadline end the wait, in that order.
pub proof fn law_grab_order(
    stopped: bool,
    closed: bool,
    alive: bool,
    has_frame: bool,
    error_pending: bool,
    minimized: bool,
    deadline_passed: bool,
)
    ensures
        (stopped || closed || !alive) ==> spec_grab_start(stopped, closed, alive, error_pending)
            == GrabStep::Closed,
        !(stopped || closed || !alive) && error_pending ==> spec_grab_start(
            stopped,
            closed,
            alive,
            error_pending,
        ) == GrabStep::Failed,
        !(stopped || closed || !alive) && !error_pending ==> spec_grab_start(
            stopped,
            closed,
            alive,
            error_pending,
        ) == GrabStep::Wait,
        has_frame ==> spec_grab_wait(has_frame, closed, error_pending, minimized, deadline_passed)
            == GrabStep::Ready,
        !has_frame && closed ==> spec_grab_wait(
            has_frame,
            closed,
            error_pending,
            minimized,
            deadline_passed,
        ) == GrabStep::Closed,
        !has_frame && !closed && error_pending ==> spec_grab_wait(
            has_frame,
            closed,
            error_pending,
            minimized,
            deadline_passed,
        ) == GrabStep::Failed,
        !has_frame && !closed && !error_pending && minimized ==> spec_grab_wait(
            has_frame,
            closed,
            error_pending,
            minimized,
            deadline_passed,
        ) == GrabStep::Minimized,
        !has_frame && !closed && !error_pending && !minimized && deadline_passed ==> spec_grab_wait(
            has_frame,
            closed,
            error_pending,
            minimized,
            deadline_passed,
        ) == GrabStep::TimedOut,
        !has_frame && !closed && !error_pending && !minimized && !deadline_passed
            ==> spec_grab_wait(has_frame, closed, error_pending, minimized, deadline_passed)
            == GrabStep::Wait,
{
}

/// A grab never waits past its deadline, and a buffered frame is served even for a
/// minimized window.
pub proof fn law_grab_wait_ends(has_frame: bool, closed: bool, error_pending: bool, minimized: bool)
    ensures
        spec_grab_wait(has_frame, closed, error_pending, minimized, true) != GrabStep::Wait,
        has_frame ==> spec_grab_wait(has_frame, closed, error_pending, minimized, true)
            == GrabStep::Ready,
        !has_frame && minimized && !closed && !error_pending ==> spec_grab_wait(
            has_frame,
            closed,
            error_pending,
            minimized,
            false,
        ) == GrabStep::Minimized,
{
}

/// Whether `geo` lets the crop for content of `size` be computed within `i32`.
pub open spec fn crop_computable(geo: Geometry, size: (i32, i32)) -> bool {
    &&& sizes_in_range(geo)
    &&& crop_in_range(geo, frame_origin(geo, size.0, size.1), size.0, size.1)
}

/// The crop for content of `size` of a window with geometry `geo`.
pub open spec fn session_crop(geo: Geometry, size: (i32, i32)) -> Crop {
    spec_client_crop(geo, frame_origin(geo, size.0, size.1), size.0, size.1)
}

/// Whether `rows` bytes of a mapped buffer with row stride `pitch` hold a frame of the
/// crop's size, and that frame's byte count fits in `usize`.
pub open spec fn rows_fit(crop: Crop, rows: int, pitch: int) -> bool {
    &&& crop.width * 4 * crop.height <= usize::MAX
    &&& crop.width * 4 <= usize::MAX
    &&& (crop.height == 0 || (crop.height - 1) * pitch + crop.width * 4 <= rows)
}

fn rows_fit_exec(crop: Crop, rows: usize, pitch: usize) -> (r: bool)
    ensures
        r == rows_fit(crop, rows as int, pitch as int),
{
    let w = crop.width as u128;
    let h = crop.height as u128;
    proof {
        assert(w * 4 * h <= 0x4_0000_0000 * 0x1_0000_0000) by (nonlinear_arith)
            requires
                w < 0x1_0000_0000,
                h < 0x1_0000_0000,
        ;
    }
    if w * 4 * h > usize::MAX as u128 || w * 4 > usize::MAX as u128 {
        return false;
    }
    if h == 0 {
        return true;
    }
    proof {
        assert((h - 1) * pitch <= 0x1_0000_0000 * 0x1_0000_0000_0000_0000) by (nonlinear_arith)
            requires
                h - 1 < 0x1_0000_0000,
                pitch <= 0xffff_ffff_ffff_ffff,
        ;
    }
    (h - 1) * (pitch as u128) + w * 4 <= rows as u128
}

/// What a capture session keeps between frames: the frame pool's size, the content size
/// the crop was computed for, the crop, the size of the buffered GPU copy of the last frame
/// (cropped texture and its staging texture), the CPU copy of its bytes (live mode), and the
/// frame callback's failure that no grab has reported yet.
///
/// Invariant: the content fits the pool, the crop is non-empty and lies inside the content,
/// the GPU copy has the crop's size, and the CPU copy holds exactly the crop's
/// `width * height * 4` bytes.
pub struct Session {
    pool: (i32, i32),
    content: (i32, i32),
    crop: Crop,
    gpu_copy: Option<(u32, u32)>,
    cpu_copy: Option<Vec<u8>>,
    pending: Option<Error>,
}

impl Session {
    /// The session's invariant (see the type's documentation); every constructor
    /// establishes it and every step keeps it.
    pub closed spec fn wf(self) -> bool {
        &&& self.content.0 <= self.pool.0
        &&& self.content.1 <= self.pool.1
        &&& self.crop.width >= 1
        &&& self.crop.height >= 1
        &&& self.crop.x + self.crop.width <= max(self.content.0 as int, 1)
        &&& self.crop.y + self.crop.height <= max(self.content.1 as int, 1)
        &&& (self.gpu_copy matches Some(s) ==> s == (self.crop.width, self.crop.height))
        &&& (self.cpu_copy matches Some(b) ==> b@.len() == self.crop.width * self.crop.height * 4
            && self.gpu_copy is Some)
    }

    /// Frame pool size.
    pub closed spec fn spec_pool(self) -> (i32, i32) {
        self.pool
    }

    /// Content size the crop belongs to.
    pub closed spec fn spec_content(self) -> (i32, i32) {
        self.content
    }

    /// The crop applied to every frame.
    pub closed spec fn spec_crop(self) -> Crop {
        self.crop
    }

    /// Size of the buffered GPU copy, if any.
    pub closed spec fn spec_gpu_copy(self) -> Option<(u32, u32)> {
        self.gpu_copy
    }

    /// Bytes of the buffered CPU copy, if any.
    pub closed spec fn spec_cpu_copy(self) -> Option<Seq<u8>> {
        match self.cpu_copy {
            Some(b) => Some(b@),
            None => None,
        }
    }

    /// The frame callback's failure that is still to be reported, if any.
    pub closed spec fn spec_pending(self) -> Option<Error> {
        self.pending
    }

    proof fn lemma_crop_fits(geo: Geometry, size: (i32, i32))
        requires
            crop_computable(geo, size),
        ensures
            session_crop(geo, size).width >= 1,
            session_crop(geo, size).height >= 1,
            session_crop(geo, size).x + session_crop(geo, size).width <= max(size.0 as int, 1),
            session_crop(geo, size).y + session_crop(geo, size).height <= max(size.1 as int, 1),
    {
        law_crop_inside_frame(geo, frame_origin(geo, size.0, size.1), size.0, size.1);
    }

    /// A session for content of `content`, in a pool sized by [`pool_size`] for the
    /// window's monitor, cropped for the window's geometry, with nothing buffered or pending.
    pub fn start(content: (i32, i32), monitor: Option<(i32, i32, i32, i32)>, geo: &Geometry) -> (s:
        Session)
        requires
            monitor_in_range(monitor),
            crop_computable(*geo, content),
        ensures
            s.wf(),
            s.spec_pool().0 == spec_pool_size(content, monitor).0,
            s.spec_pool().1 == spec_pool_size(content, monitor).1,
            s.spec_content() == content,
            s.spec_crop() == session_crop(*geo, content),
            s.spec_gpu_copy() is None,
            s.spec_cpu_copy() is None,
            s.spec_pending() is None,
    {
        let pool = pool_size(content, monitor);
        let crop = crop_for(geo, content.0, content.1);
        proof {
            Self::lemma_crop_fits(*geo, content);
        }
        Session { pool, content, crop, gpu_copy: None, cpu_copy: None, pending: None }
    }

    /// Frame pool size; the content always fits in it.
    pub fn pool(&self) -> (r: (i32, i32))
        requires
            self.wf(),
        ensures
            r == self.spec_pool(),
            self.spec_content().0 <= r.0,
            self.spec_content().1 <= r.1,
    {
        self.pool
    }

    /// Content size the crop belongs to.
    pub fn content(&self) -> (r: (i32, i32))
        requires
            self.wf(),
        ensures
            r == self.spec_content(),
    {
        self.content
    }

    /// The crop applied to every frame; a grab returns frames of its size. It is never
    /// empty and lies inside the content.
    pub fn crop(&self) -> (r: Crop)
        requires
            self.wf(),
        ensures
            r == self.spec_crop(),
            r.width >= 1,
            r.height >= 1,
            self.spec_content().0 >= 1 ==> r.x + r.width <= self.spec_content().0,
            self.spec_content().1 >= 1 ==> r.y + r.height <= self.spec_content().1,
    {
        self.crop
    }

    /// What to do with an arrived frame of content `size` (see [`frame_step`]).
    pub fn step(&self, size: (i32, i32), minimized: bool) -> (r: FrameStep)
        requires
            self.wf(),
        ensures
            r == spec_frame_step(size, minimized, self.spec_pool(), self.spec_content()),
    {
        frame_step(size, minimized, self.pool, self.content)
    }

    /// After the pool was recreated with size `pool` for content that outgrew the old one:
    /// the content and crop follow the new size and the buffered copies are dropped.
    pub fn recreate(&mut self, size: (i32, i32), pool: (i32, i32), geo: &Geometry)
        requires
            old(self).wf(),
            spec_frame_step(size, false, old(self).spec_pool(), old(self).spec_content())
                == FrameStep::Recreate,
            size.0 <= pool.0,
            size.1 <= pool.1,
            crop_computable(*geo, size),
        ensures
            final(self).wf(),
            final(self).spec_pool() == pool,
            final(self).spec_content() == size,
            final(self).spec_crop() == session_crop(*geo, size),
            final(self).spec_gpu_copy() is None,
            final(self).spec_cpu_copy() is None,
            final(self).spec_pending() == old(self).spec_pending(),
    {
        let crop = crop_for(geo, size.0, size.1);
        proof {
            Self::lemma_crop_fits(*geo, size);
        }
        self.pool = pool;
        self.content = size;
        self.crop = crop;
        self.gpu_copy = None;
        self.cpu_copy = None;
    }

    /// After the content was resized within the pool: the crop follows the new size and the
    /// buffered copies (which have the old crop's size) are dropped.
    pub fn recrop(&mut self, size: (i32, i32), geo: &Geometry)
        requires
            old(self).wf(),
            spec_frame_step(size, false, old(self).spec_pool(), old(self).spec_content())
                == FrameStep::Recrop,
            crop_computable(*geo, size),
        ensures
            final(self).wf(),
            final(self).spec_pool() == old(self).spec_pool(),
            final(self).spec_content() == size,
            final(self).spec_crop() == session_crop(*geo, size),
            final(self).spec_gpu_copy() is None,
            final(self).spec_cpu_copy() is None,
            final(self).spec_pending() == old(self).spec_pending(),
    {
        let crop = crop_for(geo, size.0, size.1);
        proof {
            Self::lemma_crop_fits(*geo, size);
        }
        let pool = self.pool;
        self.pool = pool;
        self.content = size;
        self.crop = crop;
        self.gpu_copy = None;
        self.cpu_copy = None;
    }

    /// Whether the GPU copy and its staging texture have to be created (with the crop's
    /// size) before a frame can be copied.
    pub fn needs_buffers(&self) -> (r: bool)
        requires
            self.wf(),
        ensures
            r == (self.spec_gpu_copy() is None),
    {
        self.gpu_copy.is_none()
    }

    /// A frame was copied into GPU buffers of the crop's size.
    pub fn frame_copied(&mut self)
        requires
            old(self).wf(),
        ensures
            final(self).wf(),
            final(self).spec_pool() == old(self).spec_pool(),
            final(self).spec_content() == old(self).spec_content(),
            final(self).spec_crop() == old(self).spec_crop(),
            final(self).spec_gpu_copy() == Some(
                (old(self).spec_crop().width, old(self).spec_crop().height),
            ),
            final(self).spec_cpu_copy() == old(self).spec_cpu_copy(),
            final(self).spec_pending() == old(self).spec_pending(),
    {
        self.gpu_copy = Some((self.crop.width, self.crop.height));
    }

    /// The frame of the crop's size held in `rows`, a mapped buffer of the GPU copy whose
    /// rows start `pitch` bytes apart; `None` when the buffer is too short for it.
    pub fn read_frame(&self, rows: &[u8], pitch: usize) -> (r: Option<Frame>)
        requires
            self.wf(),
        ensures
            r is Some <==> rows_fit(self.spec_crop(), rows@.len() as int, pitch as int),
            r matches Some(f) ==> {
                &&& f.width == self.spec_crop().width
                &&& f.height == self.spec_crop().height
                &&& f.is_packed()
                &&& f.bgra@ == unpacked(
                    rows@,
                    pitch as int,
                    self.spec_crop().width * 4,
                    self.spec_crop().height as int,
                )
            },
    {
        let crop = self.crop;
        if !rows_fit_exec(crop, rows.len(), pitch) {
            return None;
        }
        let bgra = unpack_rows(rows, pitch, crop.width, crop.height);
        proof {
            assert(crop.width * 4 * crop.height == crop.width * crop.height * 4) by (nonlinear_arith);
        }
        Some(Frame { bgra, width: crop.width, height: crop.height })
    }

    /// Keeps the frame read back from the GPU copy (live mode): the CPU copy becomes the
    /// crop-sized frame held in `rows` (see [`Session::read_frame`]). Returns whether the
    /// buffer was long enough; if not, nothing changes.
    pub fn keep_read_back(&mut self, rows: &[u8], pitch: usize) -> (r: bool)
        requires
            old(self).wf(),
            old(self).spec_gpu_copy() is Some,
        ensures
            final(self).wf(),
            r == rows_fit(old(self).spec_crop(), rows@.len() as int, pitch as int),
            final(self).spec_pool() == old(self).spec_pool(),
            final(self).spec_content() == old(self).spec_content(),
            final(self).spec_crop() == old(self).spec_crop(),
            final(self).spec_gpu_copy() == old(self).spec_gpu_copy(),
            final(self).spec_pending() == old(self).spec_pending(),
            r ==> final(self).spec_cpu_copy() == Some(
                unpacked(
                    rows@,
                    pitch as int,
                    old(self).spec_crop().width * 4,
                    old(self).spec_crop().height as int,
                ),
            ),
            !r ==> final(self).spec_cpu_copy() == old(self).spec_cpu_copy(),
    {
        match self.read_frame(rows, pitch) {
            Some(f) => {
                self.cpu_copy = Some(f.bgra);
                true
            },
            None => false,
        }
    }

    /// Whether a grab in `mode` can be served from the buffered copies.
    pub fn has_frame(&self, mode: Mode) -> (r: bool)
        requires
            self.wf(),
        ensures
            r == spec_has_frame(mode, self.spec_gpu_copy() is Some, self.spec_cpu_copy() is Some),
            r && mode == Mode::OnDemand ==> self.spec_gpu_copy() == Some(
                (self.spec_crop().width, self.spec_crop().height),
            ),
    {
        has_frame(mode, self.gpu_copy.is_some(), self.cpu_copy.is_some())
    }

    /// The buffered CPU copy as a frame of the crop's size (live mode).
    pub fn live_frame(&self) -> (r: Option<Frame>)
        requires
            self.wf(),
        ensures
            r is Some <==> self.spec_cpu_copy() is Some,
            r matches Some(f) ==> {
                &&& f.width == self.spec_crop().width
                &&& f.height == self.spec_crop().height
                &&& f.is_packed()
                &&& Some(f.bgra@) == self.spec_cpu_copy()
            },
    {
        match &self.cpu_copy {
            Some(b) => Some(
                Frame {
                    bgra: vstd::slice::slice_to_vec(b.as_slice()),
                    width: self.crop.width,
                    height: self.crop.height,
                },
            ),
            None => None,
        }
    }

    /// The source box of the crop; it never overflows, since the crop lies inside the content.
    pub fn region(&self) -> (r: (u32, u32, u32, u32))
        requires
            self.wf(),
        ensures
            r == (
                self.spec_crop().x,
                self.spec_crop().y,
                (self.spec_crop().x + self.spec_crop().width) as u32,
                (self.spec_crop().y + self.spec_crop().height) as u32,
            ),
    {
        copy_region(self.crop)
    }

    /// The frame callback failed with `e`; the next grab reports it (a later failure
    /// replaces one not yet reported).
    pub fn record_failure(&mut self, e: Error)
        requires
            old(self).wf(),
        ensures
            final(self).wf(),
            final(self).spec_pool() == old(self).spec_pool(),
            final(self).spec_content() == old(self).spec_content(),
            final(self).spec_crop() == old(self).spec_crop(),
            final(self).spec_gpu_copy() == old(self).spec_gpu_copy(),
            final(self).spec_cpu_copy() == old(self).spec_cpu_copy(),
            final(self).spec_pending() == Some(e),
    {
        self.pending = Some(e);
    }

    /// The checks a grab makes before it waits (see [`spec_grab_start`]). A pending failure
    /// is handed out here and forgotten, so it is reported exactly once.
    pub fn begin_grab(&mut self, stopped: bool, closed: bool, alive: bool) -> (r: Result<(), Error>)
        requires
            old(self).wf(),
        ensures
            final(self).wf(),
            final(self).spec_pool() == old(self).spec_pool(),
            final(self).spec_content() == old(self).spec_content(),
            final(self).spec_crop() == old(self).spec_crop(),
            final(self).spec_gpu_copy() == old(self).spec_gpu_copy(),
            final(self).spec_cpu_copy() == old(self).spec_cpu_copy(),
            match spec_grab_start(stopped, closed, alive, old(self).spec_pending() is Some) {
                GrabStep::Closed => r matches Err(Error::Closed) && final(self).spec_pending()
                    == old(self).spec_pending(),
                GrabStep::Failed => r == Err::<(), Error>(old(self).spec_pending()->0)
                    && final(self).spec_pending() is None,
                _ => r is Ok && final(self).spec_pending() == old(self).spec_pending(),
            },
    {
        match grab_start(stopped, closed, alive, self.pending.is_some()) {
            GrabStep::Closed => Err(Error::Closed),
            GrabStep::Failed => match self.pending.take() {
                Some(e) => Err(e),
                None => Ok(()),
            },
            _ => Ok(()),
        }
    }

    /// One round of a grab's wait (see [`spec_grab_wait`]): `Ok(true)` when the buffered
    /// frame can be read, `Ok(false)` to wait on, or the error that ends the grab. A pending
    /// failure is handed out and forgotten.
    pub fn wait_step(
        &mut self,
        mode: Mode,
        closed: bool,
        minimized: bool,
        deadline_passed: bool,
        timeout_ms: u32,
    ) -> (r: Result<bool, Error>)
        requires
            old(self).wf(),
        ensures
            final(self).wf(),
            final(self).spec_pool() == old(self).spec_pool(),
            final(self).spec_content() == old(self).spec_content(),
            final(self).spec_crop() == old(self).spec_crop(),
            final(self).spec_gpu_copy() == old(self).spec_gpu_copy(),
            final(self).spec_cpu_copy() == old(self).spec_cpu_copy(),
            match spec_grab_wait(
                spec_has_frame(
                    mode,
                    old(self).spec_gpu_copy() is Some,
                    old(self).spec_cpu_copy() is Some,
                ),
                closed,
                old(self).spec_pending() is Some,
                minimized,
                deadline_passed,
            ) {
                GrabStep::Ready => r == Ok::<bool, Error>(true),
                GrabStep::Wait => r == Ok::<bool, Error>(false),
                GrabStep::Closed => r matches Err(Error::Closed),
                GrabStep::Failed => r == Err::<bool, Error>(old(self).spec_pending()->0),
                GrabStep::Minimized => r matches Err(Error::Minimized),
                GrabStep::TimedOut => r matches Err(Error::Timeout(ms)) && ms == timeout_ms,
            },
            (spec_grab_wait(
                spec_has_frame(
                    mode,
                    old(self).spec_gpu_copy() is Some,
                    old(self).spec_cpu_copy() is Some,
                ),
                closed,
                old(self).spec_pending() is Some,
                minimized,
                deadline_passed,
            ) == GrabStep::Failed) ==> final(self).spec_pending() is None,
            (spec_grab_wait(
                spec_has_frame(
                    mode,
                    old(self).spec_gpu_copy() is Some,
                    old(self).spec_cpu_copy() is Some,
                ),
                closed,
                old(self).spec_pending() is Some,
                minimized,
                deadline_passed,
            ) != GrabStep::Failed) ==> final(self).spec_pending() == old(self).spec_pending(),
    {
        let ready = self.has_frame(mode);
        match grab_wait(ready, closed, self.pending.is_some(), minimized, deadline_passed) {
            GrabStep::Ready => Ok(true),
            GrabStep::Wait => Ok(false),
            GrabStep::Closed => Err(Error::Closed),
            GrabStep::Failed => match self.pending.take() {
                Some(e) => Err(e),
                None => Ok(false),
            },
            GrabStep::Minimized => Err(Error::Minimized),
            GrabStep::TimedOut => Err(Error::Timeout(timeout_ms)),
        }
    }
}

/// Whether the crop for content of `size` can be computed from `geo` within `i32`.
pub fn can_crop(geo: &Geometry, size: (i32, i32)) -> (r: bool)
    ensures
        r == crop_computable(*geo, size),
{
    let ww = geo.window.2 as i64 - geo.window.0 as i64;
    let wh = geo.window.3 as i64 - geo.window.1 as i64;
    let ew = geo.extended.2 as i64 - geo.extended.0 as i64;
    let eh = geo.extended.3 as i64 - geo.extended.1 as i64;
    let lo = i32::MIN as i64;
    let hi = i32::MAX as i64;
    if ww < lo || ww > hi || wh < lo || wh > hi || ew < lo || ew > hi || eh < lo || eh > hi {
        return false;
    }
    let origin = if size.0 as i64 == ww && size.1 as i64 == wh {
        (geo.window.0, geo.window.1)
    } else if size.0 as i64 == ew && size.1 as i64 == eh {
        (geo.extended.0, geo.extended.1)
    } else {
        (geo.window.0, geo.window.1)
    };
    let dx = geo.client_origin.0 as i64 - origin.0 as i64;
    let dy = geo.client_origin.1 as i64 - origin.1 as i64;
    lo <= dx && dx <= hi && lo <= dy && dy <= hi && size.0 > i32::MIN && size.1 > i32::MIN
}

/// Whether the monitor's size can be computed within `i32`.
pub fn monitor_fits(monitor: Option<(i32, i32, i32, i32)>) -> (r: bool)
    ensures
        r == monitor_in_range(monitor),
{
    match monitor {
        Some((l, t, r, b)) => {
            let w = r as i64 - l as i64;
            let h = b as i64 - t as i64;
            i32::MIN as i64 <= w && w <= i32::MAX as i64 && i32::MIN as i64 <= h && h
                <= i32::MAX as i64
        },
        None => true,
    }
}

} // verus!
