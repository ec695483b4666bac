use vstd::prelude::*;
use vstd::string::{StrSliceExecFns, StringExecFns};

verus! {

/// A capturable top-level window as listed by the system.
#[derive(Debug, Clone)]
pub struct WindowInfo {
    pub hwnd: isize,
    pub title: String,
    pub process: String,
    pub pid: u32,
    pub width: i32,
    pub height: i32,
    pub is_minimized: bool,
}

/// How a window to capture is chosen.
#[derive(Debug, Clone)]
pub enum Selector {
    /// By its handle.
    Hwnd(isize),
    /// The first window (topmost first) whose title contains this text, ignoring case.
    Title(String),
    /// The largest window of the process with this executable name, ignoring case.
    Process(String),
}

/// All rects are (left, top, right, bottom) in physical screen pixels.
#[derive(Debug, Clone, Copy)]
pub struct Geometry {
    pub window: (i32, i32, i32, i32),
    pub extended: (i32, i32, i32, i32),
    pub client_origin: (i32, i32),
    pub client_size: (i32, i32),
}

/// A rectangle of a captured frame, relative to the frame's top-left corner.
#[derive(Debug, Clone, Copy, PartialEq, Eq, Structural)]
pub struct Crop {
    pub x: u32,
    pub y: u32,
    pub width: u32,
    pub height: u32,
}

/// Whether an integer fits in an `i32`.
pub open spec fn fits_i32(v: int) -> bool {
    i32::MIN <= v <= i32::MAX
}

/// `v` limited to `lo..=hi` (for `lo <= hi`).
pub open spec fn clamp(v: int, lo: int, hi: int) -> int {
    if v < lo {
        lo
    } else if v > hi {
        hi
    } else {
        v
    }
}

/// The larger of two integers.
pub open spec fn max(a: int, b: int) -> int {
    if a >= b {
        a
    } else {
        b
    }
}

/// Whether the client-area crop against a frame at `origin` can be computed without
/// leaving the `i32` range.
pub open spec fn crop_in_range(geo: Geometry, origin: (i32, i32), content_w: i32, content_h: i32) -> bool {
    &&& fits_i32(geo.client_origin.0 - origin.0)
    &&& fits_i32(geo.client_origin.1 - origin.1)
    &&& content_w > i32::MIN
    &&& content_h > i32::MIN
}

/// Client-area crop of a `content_w` x `content_h` frame whose top-left sits at `origin`:
/// the client origin relative to the frame, clamped into the frame, and the client size,
/// clamped so that the crop stays inside the frame and is never empty.
pub open spec fn spec_client_crop(
    geo: Geometry,
    origin: (i32, i32),
    content_w: i32,
    content_h: i32,
) -> Crop {
    let x = clamp(geo.client_origin.0 - origin.0, 0, max(content_w - 1, 0));
    let y = clamp(geo.client_origin.1 - origin.1, 0, max(content_h - 1, 0));
    let width = clamp(geo.client_size.0 as int, 1, max(content_w - x, 1));
    let height = clamp(geo.client_size.1 as int, 1, max(content_h - y, 1));
    Crop { x: x as u32, y: y as u32, width: width as u32, height: height as u32 }
}

/// Width and height of a (left, top, right, bottom) rectangle.
pub open spec fn rect_size(r: (i32, i32, i32, i32)) -> (int, int) {
    (r.2 - r.0, r.3 - r.1)
}

/// Whether both rectangles' sizes fit in `i32`.
pub open spec fn sizes_in_range(geo: Geometry) -> bool {
    &&& fits_i32(rect_size(geo.window).0)
    &&& fits_i32(rect_size(geo.window).1)
    &&& fits_i32(rect_size(geo.extended).0)
    &&& fits_i32(rect_size(geo.extended).1)
}

/// The frame origin for content of the given size: the window rect's corner when the
/// content has the window rect's size, else the extended bounds' corner when it has their
/// size, else the window rect's corner.
pub open spec fn frame_origin(geo: Geometry, content_w: i32, content_h: i32) -> (i32, i32) {
    if (content_w as int, content_h as int) == rect_size(geo.window) {
        (geo.window.0, geo.window.1)
    } else if (content_w as int, content_h as int) == rect_size(geo.extended) {
        (geo.extended.0, geo.extended.1)
    } else {
        (geo.window.0, geo.window.1)
    }
}

fn clamp_i32(v: i32, lo: i32, hi: i32) -> (r: i32)
    requires
        lo <= hi,
    ensures
        r == clamp(v as int, lo as int, hi as int),
{
    if v < lo {
        lo
    } else if v > hi {
        hi
    } else {
        v
    }
}

fn max_i32(a: i32, b: i32) -> (r: i32)
    ensures
        r == max(a as int, b as int),
{
    if a >= b {
        a
    } else {
        b
    }
}

/// Client-area crop of a `content_w` x `content_h` frame whose top-left sits at `origin` in
/// screen coordinates (a window frame origin or a monitor origin), clamped to the frame and
/// never empty.
pub fn clamp_client_crop(geo: &Geometry, origin: (i32, i32), content_w: i32, content_h: i32) -> (c:
    Crop)
    requires
        crop_in_range(*geo, origin, content_w, content_h),
    ensures
        c == spec_client_crop(*geo, origin, content_w, content_h),
{
    let x = clamp_i32(geo.client_origin.0 - origin.0, 0, max_i32(content_w - 1, 0));
    let y = clamp_i32(geo.client_origin.1 - origin.1, 0, max_i32(content_h - 1, 0));
    let width = clamp_i32(geo.client_size.0, 1, max_i32(content_w - x, 1));
    let height = clamp_i32(geo.client_size.1, 1, max_i32(content_h - y, 1));
    Crop { x: x as u32, y: y as u32, width: width as u32, height: height as u32 }
}

/// Chooses the frame origin (window rect vs extended frame bounds) by matching the
/// content size, then returns the client-area crop clamped to the content.
pub fn crop_for(geo: &Geometry, content_w: i32, content_h: i32) -> (c: Crop)
    requires
        sizes_in_range(*geo),
        crop_in_range(*geo, frame_origin(*geo, content_w, content_h), content_w, content_h),
    ensures
        c == spec_client_crop(*geo, frame_origin(*geo, content_w, content_h), content_w, content_h),
{
    let win_size = (geo.window.2 - geo.window.0, geo.window.3 - geo.window.1);
    let ext_size = (geo.extended.2 - geo.extended.0, geo.extended.3 - geo.extended.1);
    let origin = if content_w == win_size.0 && content_h == win_size.1 {
        (geo.window.0, geo.window.1)
    } else if content_w == ext_size.0 && content_h == ext_size.1 {
        (geo.extended.0, geo.extended.1)
    } else {
        (geo.window.0, geo.window.1)
    };
    clamp_client_crop(geo, origin, content_w, content_h)
}

/// The crop always lies inside a non-empty frame and is never empty.
pub proof fn law_crop_inside_frame(geo: Geometry, origin: (i32, i32), content_w: i32, content_h: i32)
    requires
        crop_in_range(geo, origin, content_w, content_h),
    ensures
        spec_client_crop(geo, origin, content_w, content_h).width >= 1,
        spec_client_crop(geo, origin, content_w, content_h).height >= 1,
        content_w >= 1 ==> spec_client_crop(geo, origin, content_w, content_h).x
            + spec_client_crop(geo, origin, content_w, content_h).width <= content_w,
        content_h >= 1 ==> spec_client_crop(geo, origin, content_w, content_h).y
            + spec_client_crop(geo, origin, content_w, content_h).height <= content_h,
{
}

/// A client area that lies wholly inside the frame is cropped exactly.
pub proof fn law_client_inside_is_exact(geo: Geometry, origin: (i32, i32), content_w: i32, content_h: i32)
    requires
        crop_in_range(geo, origin, content_w, content_h),
        0 <= geo.client_origin.0 - origin.0,
        0 <= geo.client_origin.1 - origin.1,
        1 <= geo.client_size.0,
        1 <= geo.client_size.1,
        geo.client_origin.0 - origin.0 + geo.client_size.0 <= content_w,
        geo.client_origin.1 - origin.1 + geo.client_size.1 <= content_h,
    ensures
        spec_client_crop(geo, origin, content_w, content_h) == (Crop {
            x: (geo.client_origin.0 - origin.0) as u32,
            y: (geo.client_origin.1 - origin.1) as u32,
            width: geo.client_size.0 as u32,
            height: geo.client_size.1 as u32,
        }),
{
}

/// The lower case of a string by the Unicode `Lowercase` property, as `str::to_lowercase`
/// computes it.
pub uninterp spec fn unicode_lowercase(s: Seq<char>) -> Seq<char>;

/// `str::to_lowercase`: the result is claimed to be the named Unicode lower case of the
/// argument, which std defines per character and independently of any locale.
#[verifier::external_body]
fn to_lowercase(s: &str) -> (r: String)
    ensures
        r@ == unicode_lowercase(s@),
{
    s.to_lowercase()
}

/// Whether `needle` occurs in `hay` as a contiguous run.
pub open spec fn occurs_in(needle: Seq<char>, hay: Seq<char>) -> bool {
    exists|i: int|
        0 <= i && i + needle.len() <= hay.len() && #[trigger] hay.subrange(i, i + needle.len())
            == needle
}

/// Whether a window's title contains `needle`, ignoring case.
pub open spec fn title_matches(w: WindowInfo, needle: Seq<char>) -> bool {
    occurs_in(unicode_lowercase(needle), unicode_lowercase(w.title@))
}

/// Whether a window belongs to the process named `name`, ignoring case.
pub open spec fn process_matches(w: WindowInfo, name: Seq<char>) -> bool {
    unicode_lowercase(w.process@) == unicode_lowercase(name)
}

/// Client area of a window in pixels.
pub open spec fn area(w: WindowInfo) -> int {
    w.width * w.height
}

/// `r` is the first window (in list order) whose title matches `needle`, or `None` when no
/// title matches.
pub open spec fn selected_by_title(windows: Seq<WindowInfo>, needle: Seq<char>, r: Option<usize>) -> bool {
    match r {
        Some(i) => i < windows.len() && title_matches(windows[i as int], needle) && forall|j: int|
            0 <= j < i ==> !#[trigger] title_matches(windows[j], needle),
        None => forall|j: int| 0 <= j < windows.len() ==> !#[trigger] title_matches(windows[j], needle),
    }
}

/// `r` is the largest window (by area) of the process named `name`, the last of equally
/// large ones, or `None` when no window belongs to that process.
pub open spec fn selected_by_process(windows: Seq<WindowInfo>, name: Seq<char>, r: Option<usize>) -> bool {
    match r {
        Some(i) => {
            &&& i < windows.len()
            &&& process_matches(windows[i as int], name)
            &&& forall|j: int|
                0 <= j < windows.len() && #[trigger] process_matches(windows[j], name) ==> area(
                    windows[j],
                ) <= area(windows[i as int]) && (j > i ==> area(windows[j]) < area(windows[i as int]))
        },
        None => forall|j: int| 0 <= j < windows.len() ==> !#[trigger] process_matches(windows[j], name),
    }
}

/// Whether a window matches a title selector depends on its title alone: a selected
/// window's lower-cased title contains the lower-cased needle, every window before it has
/// a lower-cased title without it, and windows with the same title match alike whatever
/// their process or size.
pub proof fn law_title_selection_reads_titles(windows: Seq<WindowInfo>, needle: Seq<char>, r: Option<usize>)
    requires
        selected_by_title(windows, needle, r),
    ensures
        r matches Some(i) ==> exists|k: int|
            0 <= k && k + unicode_lowercase(needle).len() <= unicode_lowercase(windows[i as int].title@).len()
                && #[trigger] unicode_lowercase(windows[i as int].title@).subrange(
                k,
                k + unicode_lowercase(needle).len(),
            ) == unicode_lowercase(needle),
        forall|j: int, k: int|
            0 <= j < windows.len() && (r matches Some(i) ==> j < i) && 0 <= k && k
                + unicode_lowercase(needle).len() <= unicode_lowercase(windows[j].title@).len()
                ==> #[trigger] unicode_lowercase(windows[j].title@).subrange(
                k,
                k + unicode_lowercase(needle).len(),
            ) != unicode_lowercase(needle),
        forall|a: WindowInfo, b: WindowInfo|
            a.title@ == b.title@ ==> #[trigger] title_matches(a, needle) == #[trigger] title_matches(
                b,
                needle,
            ),
{
    assert forall|j: int, k: int|
        0 <= j < windows.len() && (r matches Some(i) ==> j < i) && 0 <= k && k
            + unicode_lowercase(needle).len() <= unicode_lowercase(windows[j].title@).len()
            implies #[trigger] unicode_lowercase(windows[j].title@).subrange(
            k,
            k + unicode_lowercase(needle).len(),
        ) != unicode_lowercase(needle) by {
        assert(!title_matches(windows[j], needle));
    }
}

/// The window picked for a process has the largest client area, width times height, of all
/// windows whose lower-cased executable name equals the lower-cased name; a later window of
/// the process is strictly smaller. Whether a window belongs to the process depends on its
/// executable name alone.
pub proof fn law_process_selection_ranks_by_area(windows: Seq<WindowInfo>, name: Seq<char>, r: Option<usize>)
    requires
        selected_by_process(windows, name, r),
    ensures
        r matches Some(i) ==> unicode_lowercase(windows[i as int].process@) == unicode_lowercase(
            name,
        ),
        r matches Some(i) ==> forall|j: int|
            0 <= j < windows.len() && unicode_lowercase(#[trigger] windows[j].process@)
                == unicode_lowercase(name) ==> windows[j].width * windows[j].height
                <= windows[i as int].width * windows[i as int].height && (j > i
                ==> windows[j].width * windows[j].height < windows[i as int].width
                * windows[i as int].height),
        r is None ==> forall|j: int|
            0 <= j < windows.len() ==> unicode_lowercase(#[trigger] windows[j].process@)
                != unicode_lowercase(name),
        forall|a: WindowInfo, b: WindowInfo|
            a.process@ == b.process@ ==> #[trigger] process_matches(a, name) == #[trigger] process_matches(
                b,
                name,
            ),
{
    if let Some(i) = r {
        assert forall|j: int|
            0 <= j < windows.len() && unicode_lowercase(#[trigger] windows[j].process@)
                == unicode_lowercase(name) implies windows[j].width * windows[j].height
            <= windows[i as int].width * windows[i as int].height && (j > i
            ==> windows[j].width * windows[j].height < windows[i as int].width
            * windows[i as int].height) by {
            assert(process_matches(windows[j], name));
        }
    } else {
        assert forall|j: int| 0 <= j < windows.len() implies unicode_lowercase(
            #[trigger] windows[j].process@,
        ) != unicode_lowercase(name) by {
            assert(!process_matches(windows[j], name));
        }
    }
}

/// The frame origin follows the content size: the window rect's top-left corner when the
/// content has the window rect's width and height; otherwise the extended bounds' top-left
/// corner (both coordinates) when it has their width and height; otherwise the window
/// rect's corner. The crop is then the client origin relative to that corner, clamped into
/// the frame: in particular with the extended bounds' size (and not the window rect's) the
/// crop starts at `client_origin - extended corner` whenever that lies in the frame.
pub proof fn law_crop_origin_follows_content_size(geo: Geometry, content_w: i32, content_h: i32)
    requires
        sizes_in_range(geo),
        crop_in_range(geo, frame_origin(geo, content_w, content_h), content_w, content_h),
    ensures
        (content_w == geo.window.2 - geo.window.0 && content_h == geo.window.3 - geo.window.1)
            ==> frame_origin(geo, content_w, content_h) == (geo.window.0, geo.window.1),
        !(content_w == geo.window.2 - geo.window.0 && content_h == geo.window.3 - geo.window.1)
            && content_w == geo.extended.2 - geo.extended.0 && content_h == geo.extended.3
            - geo.extended.1 ==> frame_origin(geo, content_w, content_h) == (
            geo.extended.0,
            geo.extended.1,
        ),
        !(content_w == geo.window.2 - geo.window.0 && content_h == geo.window.3 - geo.window.1)
            && !(content_w == geo.extended.2 - geo.extended.0 && content_h == geo.extended.3
            - geo.extended.1) ==> frame_origin(geo, content_w, content_h) == (
            geo.window.0,
            geo.window.1,
        ),
        ({
            let o = frame_origin(geo, content_w, content_h);
            let c = spec_client_crop(geo, o, content_w, content_h);
            let dx = geo.client_origin.0 - o.0;
            let dy = geo.client_origin.1 - o.1;
            &&& 0 <= dx < content_w ==> c.x == dx
            &&& dx < 0 ==> c.x == 0
            &&& dx >= content_w >= 1 ==> c.x == content_w - 1
            &&& 0 <= dy < content_h ==> c.y == dy
            &&& dy < 0 ==> c.y == 0
            &&& dy >= content_h >= 1 ==> c.y == content_h - 1
            &&& 1 <= geo.client_size.0 <= content_w - c.x ==> c.width == geo.client_size.0
            &&& 1 <= geo.client_size.1 <= content_h - c.y ==> c.height == geo.client_size.1
        }),
        !(content_w == geo.window.2 - geo.window.0 && content_h == geo.window.3 - geo.window.1)
            && content_w == geo.extended.2 - geo.extended.0 && content_h == geo.extended.3
            - geo.extended.1 && 0 <= geo.client_origin.1 - geo.extended.1 < content_h ==> spec_client_crop(
            geo,
            frame_origin(geo, content_w, content_h),
            content_w,
            content_h,
        ).y == geo.client_origin.1 - geo.extended.1,
{
}

/// The characters of a string.
fn chars_of(s: &str) -> (v: Vec<char>)
    ensures
        v@ == s@,
{
    let n = s.unicode_len();
    let mut v: Vec<char> = Vec::new();
    let mut i: usize = 0;
    while i < n
        invariant
            n == s@.len(),
            i <= n,
            v@ == s@.subrange(0, i as int),
        decreases n - i,
    {
        v.push(s.get_char(i));
        i = i + 1;
    }
    v
}

/// Whether `needle` occurs in `hay` at position `at`.
fn occurs_at(needle: &Vec<char>, hay: &Vec<char>, at: usize) -> (r: bool)
    requires
        at + needle@.len() <= hay@.len(),
    ensures
        r == (hay@.subrange(at as int, at + needle@.len()) == needle@),
{
    let hay_len = hay.len();
    let mut k: usize = 0;
    while k < needle.len()
        invariant
            hay_len == hay@.len(),
            at + needle@.len() <= hay@.len(),
            k <= needle@.len(),
            forall|j: int| 0 <= j < k ==> hay@[at + j] == needle@[j],
        decreases needle@.len() - k,
    {
        if hay[at + k] != needle[k] {
            assert(hay@.subrange(at as int, at + needle@.len())[k as int] != needle@[k as int]);
            return false;
        }
        k = k + 1;
    }
    assert(hay@.subrange(at as int, at + needle@.len()) =~= needle@);
    true
}

/// Whether `needle` occurs in `hay` (the empty string occurs in every string).
pub fn contains(hay: &str, needle: &str) -> (r: bool)
    ensures
        r == occurs_in(needle@, hay@),
{
    let h = chars_of(hay);
    let n = chars_of(needle);
    if n.len() > h.len() {
        return false;
    }
    let last = h.len() - n.len();
    let mut i: usize = 0;
    while i <= last
        invariant
            h@ == hay@,
            n@ == needle@,
            last == h@.len() - n@.len(),
            n@.len() <= h@.len(),
            forall|j: int| 0 <= j < i ==> #[trigger] h@.subrange(j, j + n@.len()) != n@,
        decreases last + 1 - i,
    {
        if occurs_at(&n, &h, i) {
            return true;
        }
        if i == last {
            return false;
        }
        i = i + 1;
    }
    false
}

/// Index of the first window (in list order, topmost first) whose title contains `title`,
/// ignoring case.
pub fn find_by_title(windows: &Vec<WindowInfo>, title: &str) -> (r: Option<usize>)
    ensures
        selected_by_title(windows@, title@, r),
{
    let needle = to_lowercase(title);
    let mut i: usize = 0;
    while i < windows.len()
        invariant
            needle@ == unicode_lowercase(title@),
            i <= windows@.len(),
            forall|j: int| 0 <= j < i ==> !#[trigger] title_matches(windows@[j], title@),
        decreases windows@.len() - i,
    {
        let lowered = to_lowercase(windows[i].title.as_str());
        if contains(lowered.as_str(), needle.as_str()) {
            return Some(i);
        }
        i = i + 1;
    }
    None
}

/// Index of the largest window (by client area) whose process is `process`, ignoring case;
/// among equally large ones the last in list order.
pub fn find_by_process(windows: &Vec<WindowInfo>, process: &str) -> (r: Option<usize>)
    ensures
        selected_by_process(windows@, process@, r),
{
    let needle = to_lowercase(process);
    let mut best: Option<usize> = None;
    let mut best_area: i64 = 0;
    let mut i: usize = 0;
    while i < windows.len()
        invariant
            needle@ == unicode_lowercase(process@),
            i <= windows@.len(),
            match best {
                Some(b) => {
                    &&& b < i
                    &&& process_matches(windows@[b as int], process@)
                    &&& best_area == area(windows@[b as int])
                    &&& forall|j: int|
                        0 <= j < i && #[trigger] process_matches(windows@[j], process@) ==> area(
                            windows@[j],
                        ) <= best_area && (j > b ==> area(windows@[j]) < best_area)
                },
                None => forall|j: int|
                    0 <= j < i ==> !#[trigger] process_matches(windows@[j], process@),
            },
        decreases windows@.len() - i,
    {
        let lowered = to_lowercase(windows[i].process.as_str());
        if lowered == needle {
            let w = &windows[i];
            proof {
                assert(-0x8000_0000 * 0x7fff_ffff <= w.width * w.height <= 0x8000_0000 * 0x8000_0000)
                    by (nonlinear_arith)
                    requires
                        i32::MIN <= w.width <= i32::MAX,
                        i32::MIN <= w.height <= i32::MAX,
                ;
            }
            let a = w.width as i64 * w.height as i64;
            let take = match best {
                None => true,
                Some(_) => a >= best_area,
            };
            if take {
                best = Some(i);
                best_area = a;
            }
        }
        i = i + 1;
    }
    best
}

/// The extended window style bit of tool windows (floating toolbars and the like).
pub const TOOL_WINDOW_STYLE: u32 = 0x80;

/// Whether a top-level window is offered for capture: it is visible, has a title, is not
/// a tool window, and is not cloaked (when the cloak state could be read).
pub open spec fn spec_capturable(visible: bool, title_len: i32, ex_style: u32, cloaked: Option<u32>) -> bool {
    &&& visible
    &&& title_len != 0
    &&& ex_style & TOOL_WINDOW_STYLE == 0
    &&& !(cloaked matches Some(c) && c != 0)
}

/// Whether a window with these properties is listed as capturable.
pub fn capturable(visible: bool, title_len: i32, ex_style: u32, cloaked: Option<u32>) -> (r: bool)
    ensures
        r == spec_capturable(visible, title_len, ex_style, cloaked),
{
    if !visible || title_len == 0 {
        return false;
    }
    if ex_style & TOOL_WINDOW_STYLE != 0 {
        return false;
    }
    match cloaked {
        Some(c) => c == 0,
        None => true,
    }
}

/// Whether a character separates path components.
pub open spec fn is_separator(c: char) -> bool {
    c == '\\' || c == '/'
}

/// Whether `name` is the last component of `path`: a suffix of it without separators that
/// is the whole path or follows a separator.
pub open spec fn is_last_component(path: Seq<char>, name: Seq<char>) -> bool {
    let start = path.len() - name.len();
    &&& name.len() <= path.len()
    &&& path.subrange(start, path.len() as int) == name
    &&& forall|i: int| 0 <= i < name.len() ==> !is_separator(#[trigger] name[i])
    &&& (start == 0 || is_separator(path[start - 1]))
}

/// The file name of an executable path: what follows its last `\` or `/`.
pub fn file_name(path: &str) -> (r: String)
    ensures
        is_last_component(path@, r@),
{
    let n = path.unicode_len();
    let mut start: usize = n;
    while start > 0
        invariant
            n == path@.len(),
            start <= n,
            forall|i: int| start <= i < n ==> !is_separator(#[trigger] path@[i]),
        ensures
            start <= n,
            forall|i: int| start <= i < n ==> !is_separator(#[trigger] path@[i]),
            start == 0 || is_separator(path@[start - 1]),
        decreases start,
    {
        let c = path.get_char(start - 1);
        if c == '\\' || c == '/' {
            break;
        }
        start = start - 1;
    }
    let r = String::from_str(path.substring_char(start, n));
    proof {
        assert(r@ =~= path@.subrange(start as int, n as int));
        assert(forall|i: int| 0 <= i < r@.len() ==> r@[i] == path@[start + i]);
    }
    r
}

} // verus!
