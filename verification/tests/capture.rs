use grabwin::capture::{
    can_crop, copy_region, frame_step, monitor_fits, grab_start, grab_wait, has_frame, pool_size, selector_from_args, FrameStep,
    GrabStep, Mode, Session,
};
use grabwin::window::{Crop, Geometry, Selector};
use grabwin::{Error, InvalidArgument};

#[test]
fn mode_names() {
    assert_eq!(Mode::parse("on_demand").unwrap(), Mode::OnDemand);
    assert_eq!(Mode::parse("live").unwrap(), Mode::Live);
    match Mode::parse("Live") {
        Err(Error::Invalid(InvalidArgument::Mode(m))) => assert_eq!(m, "Live"),
        other => panic!("unexpected {:?}", other),
    }
    assert_eq!(Mode::OnDemand.name(), "on_demand");
    assert_eq!(Mode::Live.name(), "live");
}

#[test]
fn exactly_one_selector() {
    assert!(matches!(selector_from_args(Some(5), None, None), Ok(Selector::Hwnd(5))));
    assert!(matches!(selector_from_args(None, Some("t".into()), None), Ok(Selector::Title(t)) if t == "t"));
    assert!(matches!(selector_from_args(None, None, Some("p".into())), Ok(Selector::Process(p)) if p == "p"));
    assert!(matches!(
        selector_from_args(None, None, None),
        Err(Error::Invalid(InvalidArgument::Selector))
    ));
    assert!(matches!(
        selector_from_args(Some(1), Some("t".into()), None),
        Err(Error::Invalid(InvalidArgument::Selector))
    ));
}

#[test]
fn pool_covers_monitor() {
    assert_eq!(pool_size((800, 600), Some((0, 0, 1920, 1080))), (1920, 1080));
    assert_eq!(pool_size((2500, 600), Some((1920, 0, 3840, 1080))), (2500, 1080));
    assert_eq!(pool_size((800, 600), None), (800, 600));
}

#[test]
fn frame_steps() {
    let pool = (1920, 1080);
    assert_eq!(frame_step((0, 10), false, pool, (800, 600)), FrameStep::Skip);
    assert_eq!(frame_step((800, 600), true, pool, (800, 600)), FrameStep::Skip);
    assert_eq!(frame_step((2000, 600), false, pool, (800, 600)), FrameStep::Recreate);
    assert_eq!(frame_step((3000, 2000), true, pool, (800, 600)), FrameStep::Skip);
    assert_eq!(frame_step((900, 600), false, pool, (800, 600)), FrameStep::Recrop);
    assert_eq!(frame_step((800, 600), false, pool, (800, 600)), FrameStep::Copy);
}

#[test]
fn grab_steps() {
    assert_eq!(grab_start(false, false, true, false), GrabStep::Wait);
    assert_eq!(grab_start(true, false, true, false), GrabStep::Closed);
    assert_eq!(grab_start(false, false, false, true), GrabStep::Closed);
    assert_eq!(grab_start(false, false, true, true), GrabStep::Failed);
    assert_eq!(grab_wait(true, true, true, true, true), GrabStep::Ready);
    assert_eq!(grab_wait(false, true, true, true, true), GrabStep::Closed);
    assert_eq!(grab_wait(false, false, true, true, true), GrabStep::Failed);
    assert_eq!(grab_wait(false, false, false, true, true), GrabStep::Minimized);
    assert_eq!(grab_wait(false, false, false, false, true), GrabStep::TimedOut);
    assert_eq!(grab_wait(false, false, false, false, false), GrabStep::Wait);
    assert!(has_frame(Mode::OnDemand, true, false));
    assert!(!has_frame(Mode::Live, true, false));
    assert!(has_frame(Mode::Live, false, true));
}

#[test]
fn copy_box_of_crop() {
    let c = Crop { x: 7, y: 30, width: 800, height: 570 };
    assert_eq!(copy_region(c), (7, 30, 807, 600));
}

fn geo() -> Geometry {
    Geometry {
        window: (93, 100, 907, 707),
        extended: (100, 100, 900, 700),
        client_origin: (100, 130),
        client_size: (800, 570),
    }
}

#[test]
fn session_follows_frames() {
    let mut s = Session::start((814, 607), Some((0, 0, 1920, 1080)), &geo());
    assert_eq!(s.pool(), (1920, 1080));
    assert_eq!(s.content(), (814, 607));
    assert_eq!(s.crop(), Crop { x: 7, y: 30, width: 800, height: 570 });
    assert!(s.needs_buffers());
    assert!(!s.has_frame(Mode::OnDemand));
    assert_eq!(s.step((814, 607), false), FrameStep::Copy);
    s.frame_copied();
    assert!(!s.needs_buffers());
    assert!(s.has_frame(Mode::OnDemand));
    assert!(!s.has_frame(Mode::Live));
    // a mapped buffer with 4 bytes of padding per row
    let pitch = 800 * 4 + 4;
    let rows: Vec<u8> = (0..pitch * 570).map(|i| (i % 251) as u8).collect();
    assert!(!s.keep_read_back(&rows[..100], pitch));
    assert!(!s.has_frame(Mode::Live));
    assert!(s.keep_read_back(&rows, pitch));
    assert!(s.has_frame(Mode::Live));
    let f = s.live_frame().unwrap();
    assert_eq!((f.width, f.height, f.bgra.len()), (800, 570, 800 * 570 * 4));
    assert_eq!(&f.bgra[3200..3208], &rows[pitch..pitch + 8]);
    let g = s.read_frame(&rows, pitch).unwrap();
    assert_eq!(g.bgra, f.bgra);
    assert!(s.read_frame(&rows[..pitch * 569], pitch).is_none());
    assert!(s.read_frame(&rows[..pitch * 569 + 3200], pitch).is_some());
    assert_eq!(s.region(), (7, 30, 807, 600));

    // resized within the pool: new crop, buffers dropped
    assert_eq!(s.step((800, 600), false), FrameStep::Recrop);
    s.recrop((800, 600), &geo());
    assert_eq!(s.content(), (800, 600));
    assert_eq!(s.crop(), Crop { x: 0, y: 30, width: 800, height: 570 });
    assert!(s.needs_buffers());
    assert!(!s.has_frame(Mode::Live));
    assert!(s.live_frame().is_none());
    assert_eq!(s.pool(), (1920, 1080));

    // outgrew the pool: recreated larger, buffers dropped
    assert_eq!(s.step((2000, 1200), false), FrameStep::Recreate);
    assert_eq!(s.step((2000, 1200), true), FrameStep::Skip);
    s.frame_copied();
    s.recreate((2000, 1200), (2000, 1200), &geo());
    assert_eq!(s.pool(), (2000, 1200));
    assert_eq!(s.content(), (2000, 1200));
    assert!(!s.has_frame(Mode::OnDemand));
    let c = s.crop();
    assert!(c.x + c.width <= 2000 && c.y + c.height <= 1200);
}

#[test]
fn session_without_monitor() {
    let s = Session::start((400, 300), None, &geo());
    assert_eq!(s.pool(), (400, 300));
    let c = s.crop();
    assert_eq!((c.x + c.width, c.y + c.height), (400, 300));
}

#[test]
fn pending_failure_is_reported_once() {
    let mut s = Session::start((814, 607), None, &geo());
    assert!(s.begin_grab(false, false, true).is_ok());
    s.record_failure(Error::Encode("first".into()));
    s.record_failure(Error::Encode("second".into()));
    // a closed capture reports Closed and keeps the failure
    assert!(matches!(s.begin_grab(false, true, true), Err(Error::Closed)));
    match s.begin_grab(false, false, true) {
        Err(Error::Encode(m)) => assert_eq!(m, "second"),
        other => panic!("unexpected {:?}", other),
    }
    assert!(s.begin_grab(false, false, true).is_ok());
    assert_eq!(s.wait_step(Mode::OnDemand, false, false, false, 250).unwrap(), false);
    s.record_failure(Error::Timeout(1));
    assert!(matches!(s.wait_step(Mode::OnDemand, false, true, true, 250), Err(Error::Timeout(1))));
    assert!(matches!(s.wait_step(Mode::OnDemand, false, true, true, 250), Err(Error::Minimized)));
    assert!(matches!(s.wait_step(Mode::OnDemand, false, false, true, 250), Err(Error::Timeout(250))));
    assert!(matches!(s.wait_step(Mode::OnDemand, true, false, true, 250), Err(Error::Closed)));
    s.frame_copied();
    s.record_failure(Error::Closed);
    // a buffered frame is served before the failure
    assert_eq!(s.wait_step(Mode::OnDemand, true, true, true, 250).unwrap(), true);
}

#[test]
fn overflow_checks() {
    assert!(can_crop(&geo(), (814, 607)));
    let mut g = geo();
    g.window = (i32::MIN, 0, i32::MAX, 10);
    assert!(!can_crop(&g, (10, 10)));
    let mut g = geo();
    g.client_origin = (i32::MIN, 0);
    assert!(!can_crop(&g, (814, 607)));
    assert!(!can_crop(&geo(), (i32::MIN, 5)));
    assert!(monitor_fits(None));
    assert!(monitor_fits(Some((0, 0, 1920, 1080))));
    assert!(!monitor_fits(Some((i32::MIN, 0, 1, 1))));
}
