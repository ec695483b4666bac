use grabwin::window::{
    capturable, clamp_client_crop, crop_for, file_name, find_by_process, find_by_title, Crop, Geometry,
    WindowInfo,
};

fn geo() -> Geometry {
    Geometry {
        // GetWindowRect: includes 7px invisible borders on left/right/bottom
        window: (93, 100, 907, 707),
        // DWM extended frame bounds: visible frame only
        extended: (100, 100, 900, 700),
        // client area starts below a 30px title bar
        client_origin: (100, 130),
        client_size: (800, 570),
    }
}

#[test]
fn crop_when_content_matches_window_rect() {
    // content = GetWindowRect size (814x607) -> origin is window.left/top
    let c = crop_for(&geo(), 814, 607);
    assert_eq!(
        c,
        Crop {
            x: 7,
            y: 30,
            width: 800,
            height: 570
        }
    );
}

#[test]
fn crop_when_content_matches_extended_bounds() {
    // content = DWM bounds size (800x600) -> origin is extended.left/top
    let c = crop_for(&geo(), 800, 600);
    assert_eq!(
        c,
        Crop {
            x: 0,
            y: 30,
            width: 800,
            height: 570
        }
    );
}

#[test]
fn crop_is_clamped_to_content() {
    // content smaller than expected: crop must never exceed content bounds
    let c = crop_for(&geo(), 400, 300);
    assert_eq!(c.x + c.width, 400);
    assert_eq!(c.y + c.height, 300);
}

#[test]
fn crop_never_zero_sized() {
    let mut g = geo();
    g.client_size = (0, 0);
    let c = crop_for(&g, 814, 607);
    assert!(c.width >= 1 && c.height >= 1);
}

#[test]
fn clamp_client_crop_with_monitor_origin() {
    // Window on a second monitor at (1920, 0), 1920x1080: client at (1950, 130), 1900x1000.
    // The crop is relative to the monitor origin and clamped to the monitor's content.
    let g = Geometry {
        window: (1943, 100, 3857, 1207),
        extended: (1950, 100, 3850, 1200),
        client_origin: (1950, 130),
        client_size: (1900, 1000),
    };
    let c = clamp_client_crop(&g, (1920, 0), 1920, 1080);
    assert_eq!(
        c,
        Crop {
            x: 30,
            y: 130,
            width: 1890,
            height: 950
        }
    );
}

#[test]
fn crop_for_unmatched_content_uses_window_origin() {
    let c = crop_for(&geo(), 1000, 900);
    assert_eq!(c, Crop { x: 7, y: 30, width: 800, height: 570 });
}

#[test]
fn crop_in_degenerate_frames() {
    let c = crop_for(&geo(), 0, 0);
    assert_eq!(c, Crop { x: 0, y: 0, width: 1, height: 1 });
    let mut g = geo();
    g.client_origin = (50, 50); // left of and above the frame origin
    let c = clamp_client_crop(&g, (93, 100), 814, 607);
    assert_eq!(c, Crop { x: 0, y: 0, width: 800, height: 570 });
    let c = clamp_client_crop(&g, (93, 100), -5, 10);
    assert_eq!(c, Crop { x: 0, y: 0, width: 1, height: 10 });
}

fn win(hwnd: isize, title: &str, process: &str, width: i32, height: i32) -> WindowInfo {
    WindowInfo {
        hwnd,
        title: title.to_string(),
        process: process.to_string(),
        pid: 1,
        width,
        height,
        is_minimized: false,
    }
}

#[test]
fn title_selects_first_match_ignoring_case() {
    let list = vec![
        win(1, "Editor", "code.exe", 10, 10),
        win(2, "My GAME window", "game.exe", 10, 10),
        win(3, "another game", "game.exe", 100, 100),
    ];
    assert_eq!(find_by_title(&list, "game"), Some(1));
    assert_eq!(find_by_title(&list, "ÉDITOR"), None);
    assert_eq!(find_by_title(&list, "EDIT"), Some(0));
    assert_eq!(find_by_title(&list, ""), Some(0));
    assert_eq!(find_by_title(&list, "browser"), None);
    assert_eq!(find_by_title(&[].to_vec(), "x"), None);
}

#[test]
fn title_lowercases_unicode() {
    let list = vec![win(1, "ÉTÉ", "a.exe", 1, 1)];
    assert_eq!(find_by_title(&list, "été"), Some(0));
}

#[test]
fn process_selects_largest_last_on_ties() {
    let list = vec![
        win(1, "a", "Game.exe", 10, 10),
        win(2, "b", "other.exe", 1000, 1000),
        win(3, "c", "game.EXE", 20, 5),
        win(4, "d", "game.exe", 5, 20),
        win(5, "e", "game.exe", 2, 2),
    ];
    assert_eq!(find_by_process(&list, "GAME.exe"), Some(3));
    assert_eq!(find_by_process(&list, "other.exe"), Some(1));
    assert_eq!(find_by_process(&list, "game"), None);
}

#[test]
fn capturable_windows() {
    assert!(capturable(true, 5, 0, None));
    assert!(capturable(true, 5, 0x100, Some(0)));
    assert!(!capturable(false, 5, 0, None));
    assert!(!capturable(true, 0, 0, None));
    assert!(!capturable(true, 5, 0x80, None));
    assert!(!capturable(true, 5, 0x180, Some(0)));
    assert!(!capturable(true, 5, 0, Some(2)));
}

#[test]
fn file_name_of_executable_path() {
    assert_eq!(file_name(r"C:\Program Files\Game\game.exe"), "game.exe");
    assert_eq!(file_name("/usr/bin/chrome"), "chrome");
    assert_eq!(file_name(r"C:\mixed/dir\x.exe"), "x.exe");
    assert_eq!(file_name("plain.exe"), "plain.exe");
    assert_eq!(file_name(r"C:\dir\"), "");
    assert_eq!(file_name(""), "");
    assert_eq!(file_name(r"C:\Прога\игра.exe"), "игра.exe");
}

#[test]
fn substring_search() {
    assert!(grabwin::window::contains("my game window", "game"));
    assert!(grabwin::window::contains("abc", ""));
    assert!(grabwin::window::contains("", ""));
    assert!(!grabwin::window::contains("", "a"));
    assert!(!grabwin::window::contains("ab", "abc"));
    assert!(grabwin::window::contains("aaab", "aab"));
    assert!(!grabwin::window::contains("Game", "game"));
}
