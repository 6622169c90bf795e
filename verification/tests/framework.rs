use std::cell::RefCell;
use std::rc::Rc;

use vstd::seq::Seq;

use trowel::apps::App;
use trowel::buttons::{Button, Buttons};
use trowel::caps::{FileStore, InputLines, PixelSurface, TimeSource};
use trowel::compose::join;
use trowel::errors::AppError;
use trowel::input::{sample, snapshot_from_levels, LineLevels};
use trowel::overlay::{frame_rate, rate_text, FpsApp};
use trowel::runtime::Runtime;
use trowel::storage::FileTextApp;

type Log = Rc<RefCell<Vec<String>>>;

fn new_log() -> Log {
    Rc::new(RefCell::new(Vec::new()))
}

/// A surface that records every call made on it.
struct LogSurface {
    log: Log,
    selected: bool,
    fail_draw: bool,
}

impl LogSurface {
    fn new(log: Log) -> LogSurface {
        LogSurface { log, selected: false, fail_draw: false }
    }
}

impl PixelSurface for LogSurface {
    fn select(&mut self) {
        assert!(!self.selected, "select while already selected");
        self.selected = true;
        self.log.borrow_mut().push("select".to_string());
    }

    fn deselect(&mut self) {
        assert!(self.selected, "deselect while not selected");
        self.selected = false;
        self.log.borrow_mut().push("deselect".to_string());
    }

    fn draw_text(&mut self, _x: i32, _y: i32, text: &Vec<u8>) -> Result<(), AppError> {
        if self.fail_draw {
            return Err(AppError::Display);
        }
        let shown = String::from_utf8(text.clone()).unwrap();
        self.log.borrow_mut().push(format!("text:{}", shown));
        Ok(())
    }

    fn blit(&mut self, _x: i32, _y: i32, _width: u32, _pixels: &Vec<u16>) -> Result<(), AppError> {
        self.log.borrow_mut().push("blit".to_string());
        Ok(())
    }
}

/// A store over a fixed list of files; optionally failing outright.
struct MapStore {
    files: Vec<(String, Vec<u8>)>,
    fail: bool,
    log: Log,
}

impl FileStore for MapStore {
    fn read_file(&mut self, name: &str) -> Result<Option<Vec<u8>>, AppError> {
        self.log.borrow_mut().push(format!("read:{}", name));
        if self.fail {
            return Err(AppError::Store);
        }
        for (n, data) in &self.files {
            if n == name {
                return Ok(Some(data.clone()));
            }
        }
        Ok(None)
    }

    fn write_file(&mut self, name: &str, data: &Vec<u8>) -> Result<(), AppError> {
        self.log.borrow_mut().push(format!("write:{}", name));
        if self.fail {
            return Err(AppError::Store);
        }
        for (n, old) in &mut self.files {
            if n == name {
                *old = data.clone();
                return Ok(());
            }
        }
        self.files.push((name.to_string(), data.clone()));
        Ok(())
    }
}

/// Lines with a settable level per button; defaults to everything high
/// (nothing pressed: the hardware is active-low).
struct FixedLines {
    low: Vec<Button>,
}

impl InputLines for FixedLines {
    fn read_level(&mut self, line: Button) -> bool {
        !self.low.contains(&line)
    }
}

/// A clock that hands out a scripted list of instants.
struct ScriptClock {
    instants: Vec<u64>,
    next: usize,
    fail: bool,
}

impl TimeSource for ScriptClock {
    fn try_now(&mut self) -> Result<u64, AppError> {
        if self.fail {
            return Err(AppError::ClockBorrow);
        }
        let t = self.instants[self.next.min(self.instants.len() - 1)];
        self.next += 1;
        Ok(t)
    }
}

/// An application that records which operations ran on it, and can be told
/// to fail one operation on one frame.
struct ProbeApp {
    name: &'static str,
    log: Log,
    frame: u64,
    fail_update_on: Option<u64>,
    fail_init: bool,
    error: AppError,
}

impl ProbeApp {
    fn new(name: &'static str, log: Log) -> ProbeApp {
        ProbeApp {
            name,
            log,
            frame: 0,
            fail_update_on: None,
            fail_init: false,
            error: AppError::Decode,
        }
    }
}

impl App for ProbeApp {
    // Ghost call history; never called at run time.
    fn calls(&self) -> Seq<trowel::apps::AppOp> {
        unreachable!()
    }

    fn init(&mut self) -> Result<(), AppError> {
        self.log.borrow_mut().push(format!("{}.init", self.name));
        if self.fail_init {
            return Err(self.error);
        }
        Ok(())
    }

    fn update(&mut self, _buttons: Buttons) -> Result<(), AppError> {
        self.frame += 1;
        self.log.borrow_mut().push(format!("{}.update", self.name));
        if self.fail_update_on == Some(self.frame) {
            return Err(self.error);
        }
        Ok(())
    }

    fn draw<Surface: PixelSurface>(&mut self, _surface: &mut Surface) -> Result<(), AppError> {
        self.log.borrow_mut().push(format!("{}.draw", self.name));
        Ok(())
    }

    fn read_write<Store: FileStore>(&mut self, _store: &mut Store) -> Result<(), AppError> {
        self.log.borrow_mut().push(format!("{}.rw", self.name));
        Ok(())
    }
}

fn entries(log: &Log) -> Vec<String> {
    log.borrow().clone()
}

#[test]
fn single_app_sees_fixed_operation_order() {
    let log = new_log();
    let app = ProbeApp::new("a", log.clone());
    let surface = LogSurface::new(log.clone());
    let lines = FixedLines { low: vec![] };
    let store = MapStore { files: vec![], fail: false, log: log.clone() };
    let mut rt = Runtime::new(app, surface, Some(store), lines);
    rt.start().unwrap();
    rt.run_frames(2).unwrap();
    assert_eq!(
        entries(&log),
        vec![
            "a.init",
            "a.update",
            "select",
            "a.draw",
            "deselect",
            "a.rw",
            "a.update",
            "select",
            "a.draw",
            "deselect",
            "a.rw",
        ]
    );
    assert!(!rt.is_halted());
}

#[test]
fn composition_order_is_associative() {
    let log_left = new_log();
    let left = join(
        join(
            ProbeApp::new("a", log_left.clone()),
            ProbeApp::new("b", log_left.clone()),
        ),
        ProbeApp::new("c", log_left.clone()),
    );
    let log_right = new_log();
    let right = join(
        ProbeApp::new("a", log_right.clone()),
        join(
            ProbeApp::new("b", log_right.clone()),
            ProbeApp::new("c", log_right.clone()),
        ),
    );

    let mut surface_l = LogSurface::new(new_log());
    let mut surface_r = LogSurface::new(new_log());
    let mut store_l = MapStore { files: vec![], fail: false, log: new_log() };
    let mut store_r = MapStore { files: vec![], fail: false, log: new_log() };

    let mut left = left;
    let mut right = right;
    left.init().unwrap();
    right.init().unwrap();
    left.update(Buttons::empty()).unwrap();
    right.update(Buttons::empty()).unwrap();
    surface_l.select();
    surface_r.select();
    left.draw(&mut surface_l).unwrap();
    right.draw(&mut surface_r).unwrap();
    surface_l.deselect();
    surface_r.deselect();
    left.read_write(&mut store_l).unwrap();
    right.read_write(&mut store_r).unwrap();

    let want = vec![
        "a.init", "b.init", "c.init", "a.update", "b.update", "c.update", "a.draw", "b.draw",
        "c.draw", "a.rw", "b.rw", "c.rw",
    ];
    assert_eq!(entries(&log_left), want);
    assert_eq!(entries(&log_right), want);
}

#[test]
fn failed_primary_update_short_circuits_secondary() {
    let log = new_log();
    let mut a = ProbeApp::new("a", log.clone());
    a.fail_update_on = Some(1);
    a.error = AppError::Decode;
    let b = ProbeApp::new("b", log.clone());
    let mut pair = join(a, b);
    pair.init().unwrap();
    let r = pair.update(Buttons::empty());
    assert_eq!(r, Err(AppError::Decode));
    assert_eq!(entries(&log), vec!["a.init", "b.init", "a.update"]);
}

#[test]
fn failed_update_halts_frame_without_redraw() {
    let log = new_log();
    let mut a = ProbeApp::new("a", log.clone());
    a.fail_update_on = Some(2);
    let b = ProbeApp::new("b", log.clone());
    let pair = join(a, b);
    let surface = LogSurface::new(log.clone());
    let lines = FixedLines { low: vec![] };
    let mut rt: Runtime<_, _, MapStore, _> = Runtime::new(pair, surface, None, lines);
    rt.start().unwrap();
    rt.run_frames(1).unwrap();
    let r = rt.run_frames(5);
    assert_eq!(r, Err(AppError::Decode));
    assert!(rt.is_halted());
    // Frame one ran whole; frame two stops at a's failed update: b's update
    // never runs that frame, and no draw of either app is revisited.
    assert_eq!(
        entries(&log),
        vec![
            "a.init",
            "b.init",
            "a.update",
            "b.update",
            "select",
            "a.draw",
            "b.draw",
            "deselect",
            "a.update",
        ]
    );
}

#[test]
fn snapshot_reflects_only_held_lines() {
    let levels = LineLevels {
        w: false,  // held
        a: true,
        s: true,
        d: true,
        i: true,
        j: true,
        k: false,  // held
        l: true,
    };
    let set = snapshot_from_levels(levels);
    assert!(set.contains(Button::W));
    assert!(set.contains(Button::K));
    assert!(!set.contains(Button::A));
    assert!(!set.contains(Button::S));
    assert!(!set.contains(Button::D));
    assert!(!set.contains(Button::I));
    assert!(!set.contains(Button::J));
    assert!(!set.contains(Button::L));
}

#[test]
fn snapshot_has_no_edge_memory() {
    let mut lines = FixedLines { low: vec![Button::W] };
    let first = sample(&mut lines);
    assert!(first.contains(Button::W));
    // Pressed and released between frames: at the next sampling instant no
    // line is held, so the snapshot is empty.
    lines.low.clear();
    let second = sample(&mut lines);
    assert!(second.is_empty());
}

#[test]
fn buttons_set_operations() {
    let wa = Buttons::empty().insert(Button::W).insert(Button::A);
    let aj = Buttons::empty().insert(Button::A).insert(Button::J);
    let union = wa.union(aj);
    assert!(union.contains(Button::W));
    assert!(union.contains(Button::A));
    assert!(union.contains(Button::J));
    assert!(!union.contains(Button::K));
    let both = wa.intersection(aj);
    assert!(both.contains(Button::A));
    assert!(!both.contains(Button::W));
    assert!(!both.contains(Button::J));
    assert!(Buttons::empty().is_empty());
    assert!(!wa.is_empty());
}

#[test]
fn missing_file_leaves_fallback_text() {
    let log = new_log();
    let mut store = MapStore { files: vec![], fail: false, log };
    let mut app = FileTextApp::new("missing.txt".to_string());
    assert_eq!(app.text().as_slice(), b"No filesystem");
    let r: Result<(), AppError> = app.read_write(&mut store);
    assert_eq!(r, Ok(()));
    assert_eq!(app.text().as_slice(), b"No filesystem");
}

#[test]
fn present_file_replaces_text() {
    let log = new_log();
    let mut store = MapStore {
        files: vec![("hello.txt".to_string(), b"hi there".to_vec())],
        fail: false,
        log,
    };
    let mut app = FileTextApp::new("hello.txt".to_string());
    let r: Result<(), AppError> = app.read_write(&mut store);
    assert_eq!(r, Ok(()));
    assert_eq!(app.text().as_slice(), b"hi there");
}

#[test]
fn failing_store_halts_and_keeps_text() {
    let log = new_log();
    let app = FileTextApp::new("hello.txt".to_string());
    let surface = LogSurface::new(log.clone());
    let lines = FixedLines { low: vec![] };
    let store = MapStore { files: vec![], fail: true, log: log.clone() };
    let mut rt = Runtime::new(app, surface, Some(store), lines);
    rt.start().unwrap();
    let r = rt.run_frames(3);
    assert_eq!(r, Err(AppError::Store));
    assert!(rt.is_halted());
}

#[test]
fn frame_rate_of_one_million_ticks_is_one() {
    assert_eq!(frame_rate(1_000_000, 1_000_000), Some(1));
}

#[test]
fn frame_rate_of_sixty_hertz_gap_rounds_to_sixty() {
    assert_eq!(frame_rate(16_667, 1_000_000), Some(60));
}

#[test]
fn frame_rate_zero_gap_reports_no_rate() {
    assert_eq!(frame_rate(0, 1_000_000), None);
}

#[test]
fn rate_text_renders_digits() {
    assert_eq!(rate_text(60).as_slice(), b"FPS: 60");
    assert_eq!(rate_text(0).as_slice(), b"FPS: 0");
    assert_eq!(rate_text(12345).as_slice(), b"FPS: 12345");
}

#[test]
fn overlay_draws_rate_over_primary() {
    let log = new_log();
    let clock = ScriptClock { instants: vec![0, 1_000_000, 2_000_000], next: 0, fail: false };
    let primary = FileTextApp::new("missing.txt".to_string());
    let overlay = FpsApp::new(clock, 1_000_000);
    let app = join(primary, overlay);
    let surface = LogSurface::new(log.clone());
    let lines = FixedLines { low: vec![] };
    let mut rt: Runtime<_, _, MapStore, _> = Runtime::new(app, surface, None, lines);
    rt.start().unwrap();
    rt.run_frames(2).unwrap();
    // First frame: only one instant recorded, so the overlay draws nothing.
    // Second frame: the instants lie 1,000,000 ticks apart, a rate of 1,
    // drawn after (over) the primary application's text.
    assert_eq!(
        entries(&log),
        vec![
            "select",
            "text:No filesystem",
            "deselect",
            "select",
            "text:No filesystem",
            "text:FPS: 1",
            "deselect",
        ]
    );
}

#[test]
fn busy_clock_halts_with_borrow_error() {
    let log = new_log();
    let clock = ScriptClock { instants: vec![0], next: 0, fail: true };
    let app: FpsApp<ScriptClock> = FpsApp::new(clock, 1_000_000);
    let surface = LogSurface::new(log.clone());
    let lines = FixedLines { low: vec![] };
    let mut rt: Runtime<_, _, MapStore, _> = Runtime::new(app, surface, None, lines);
    rt.start().unwrap();
    let r = rt.run_frames(1);
    assert_eq!(r, Err(AppError::ClockBorrow));
    assert!(rt.is_halted());
}

#[test]
fn failing_display_halts_with_display_error() {
    let log = new_log();
    let app = FileTextApp::new("missing.txt".to_string());
    let mut surface = LogSurface::new(log.clone());
    surface.fail_draw = true;
    let lines = FixedLines { low: vec![] };
    let mut rt: Runtime<_, _, MapStore, _> = Runtime::new(app, surface, None, lines);
    rt.start().unwrap();
    let r = rt.run_frames(1);
    assert_eq!(r, Err(AppError::Display));
    assert!(rt.is_halted());
    // The chip-select bracket is released on the failure path too.
    assert_eq!(entries(&log), vec!["select", "deselect"]);
}

#[test]
fn failing_init_halts_before_any_frame() {
    let log = new_log();
    let mut app = ProbeApp::new("a", log.clone());
    app.fail_init = true;
    app.error = AppError::Decode;
    let surface = LogSurface::new(log.clone());
    let lines = FixedLines { low: vec![] };
    let mut rt: Runtime<_, _, MapStore, _> = Runtime::new(app, surface, None, lines);
    let r = rt.start();
    assert_eq!(r, Err(AppError::Decode));
    assert!(rt.is_halted());
    assert_eq!(entries(&log), vec!["a.init"]);
}

#[test]
fn no_store_never_reaches_read_write() {
    let log = new_log();
    let primary = FileTextApp::new("missing.txt".to_string());
    let probe = ProbeApp::new("p", log.clone());
    let app = join(primary, probe);
    let surface = LogSurface::new(log.clone());
    let lines = FixedLines { low: vec![] };
    let mut rt: Runtime<_, _, MapStore, _> = Runtime::new(app, surface, None, lines);
    rt.start().unwrap();
    rt.run_frames(4).unwrap();
    assert!(!rt.is_halted());
    let log_entries = entries(&log);
    assert!(log_entries.iter().all(|e| !e.ends_with(".rw") && !e.starts_with("read:")));
    // The primary application's fallback text is displayed unchanged on
    // every frame.
    let texts: Vec<&String> = log_entries.iter().filter(|e| e.starts_with("text:")).collect();
    assert_eq!(texts.len(), 4);
    assert!(texts.iter().all(|t| t.as_str() == "text:No filesystem"));
}

#[test]
fn file_text_app_counts_its_own_frames() {
    let mut app = FileTextApp::new("missing.txt".to_string());
    assert_eq!(app.frame(), 0);
    app.update(Buttons::empty()).unwrap();
    app.update(Buttons::empty()).unwrap();
    assert_eq!(app.frame(), 2);
}

#[test]
fn lookup_answer_governs_the_text() {
    let mut app = FileTextApp::new("hello.txt".to_string());
    app.apply_lookup(None);
    assert_eq!(app.text().as_slice(), b"No filesystem");
    app.apply_lookup(Some(b"hi there".to_vec()));
    assert_eq!(app.text().as_slice(), b"hi there");
    app.apply_lookup(None);
    assert_eq!(app.text().as_slice(), b"hi there");
}
