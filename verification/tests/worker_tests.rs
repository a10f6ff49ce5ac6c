use open_pdf_studio::engine::{Command, Engine, BASE_RENDER_WIDTH};
use open_pdf_studio::worker::{Action, Worker, MAX_RENDER_WIDTH, MIN_RENDER_WIDTH, THUMB_WIDTH};
use std::path::PathBuf;
use std::sync::mpsc;

fn render(w: &mut Worker, id: u32, index: i32) -> Option<(u32, i32, i32)> {
    match w.handle(Command::Render { id, index }) {
        Action::Render { id, index, width } => Some((id, index, width)),
        Action::Idle => None,
        _ => panic!("unexpected action"),
    }
}

fn thumb(w: &mut Worker, id: u32, index: i32) -> Option<(u32, i32, i32)> {
    match w.handle(Command::RenderThumb { id, index }) {
        Action::RenderThumb { id, index, width } => Some((id, index, width)),
        Action::Idle => None,
        _ => panic!("unexpected action"),
    }
}

fn set_width(w: &mut Worker, id: u32, width: i32) {
    assert!(matches!(w.handle(Command::SetRenderWidth { id, width }), Action::Idle));
}

#[test]
fn open_asks_for_a_load() {
    let mut w = Worker::new(BASE_RENDER_WIDTH);
    match w.handle(Command::Open { id: 7, path: PathBuf::from("/tmp/x.pdf") }) {
        Action::Load { id, path } => {
            assert_eq!(id, 7);
            assert_eq!(path, PathBuf::from("/tmp/x.pdf"));
        }
        _ => panic!("expected a load"),
    }
    // Nothing is known of the document until it has loaded.
    assert_eq!(render(&mut w, 7, 0), None);
}

#[test]
fn pages_render_once_per_resolution() {
    let mut w = Worker::new(BASE_RENDER_WIDTH);
    w.loaded(1, 3);
    assert_eq!(render(&mut w, 1, 0), Some((1, 0, 1100)));
    // Not yet reported as rendered: asked again.
    assert_eq!(render(&mut w, 1, 0), Some((1, 0, 1100)));
    w.page_rendered(1, 0);
    assert_eq!(render(&mut w, 1, 0), None);
    assert_eq!(render(&mut w, 1, 2), Some((1, 2, 1100)));
}

#[test]
fn out_of_range_pages_are_ignored() {
    let mut w = Worker::new(BASE_RENDER_WIDTH);
    w.loaded(1, 3);
    assert_eq!(render(&mut w, 1, -1), None);
    assert_eq!(render(&mut w, 1, 3), None);
    assert_eq!(render(&mut w, 2, 0), None);
    assert_eq!(thumb(&mut w, 1, 3), None);
}

#[test]
fn width_changes_are_clamped_and_rerender() {
    let mut w = Worker::new(BASE_RENDER_WIDTH);
    w.loaded(1, 2);
    w.page_rendered(1, 0);
    set_width(&mut w, 1, 1100);
    assert_eq!(render(&mut w, 1, 0), None);
    set_width(&mut w, 1, 99_999);
    assert_eq!(render(&mut w, 1, 0), Some((1, 0, MAX_RENDER_WIDTH)));
    w.page_rendered(1, 0);
    set_width(&mut w, 1, 5000);
    assert_eq!(render(&mut w, 1, 0), None);
    set_width(&mut w, 1, -20);
    assert_eq!(render(&mut w, 1, 0), Some((1, 0, MIN_RENDER_WIDTH)));
    set_width(&mut w, 1, 2200);
    assert_eq!(render(&mut w, 1, 1), Some((1, 1, 2200)));
}

#[test]
fn thumbnails_ignore_zoom() {
    let mut w = Worker::new(BASE_RENDER_WIDTH);
    w.loaded(4, 2);
    assert_eq!(thumb(&mut w, 4, 1), Some((4, 1, THUMB_WIDTH)));
    w.thumb_rendered(4, 1);
    assert_eq!(thumb(&mut w, 4, 1), None);
    set_width(&mut w, 4, 3000);
    assert_eq!(thumb(&mut w, 4, 1), None);
    assert_eq!(thumb(&mut w, 4, 0), Some((4, 0, THUMB_WIDTH)));
}

#[test]
fn close_releases_and_forgets() {
    let mut w = Worker::new(BASE_RENDER_WIDTH);
    w.loaded(1, 2);
    w.loaded(2, 2);
    assert!(matches!(w.handle(Command::Close { id: 1 }), Action::Release { id: 1 }));
    assert_eq!(render(&mut w, 1, 0), None);
    assert_eq!(render(&mut w, 2, 0), Some((2, 0, 1100)));
}

#[test]
fn reloading_starts_afresh() {
    let mut w = Worker::new(BASE_RENDER_WIDTH);
    w.loaded(1, 2);
    set_width(&mut w, 1, 800);
    w.page_rendered(1, 0);
    w.loaded(1, 5);
    // Rendered pages are forgotten; the document keeps its width.
    assert_eq!(render(&mut w, 1, 0), Some((1, 0, 800)));
    assert_eq!(render(&mut w, 1, 4), Some((1, 4, 800)));
}

#[test]
fn engine_posts_each_command() {
    let (tx, rx) = mpsc::channel();
    let mut engine = Engine::new(tx);
    let mut other = engine.clone();
    engine.open(3, PathBuf::from("a.pdf"));
    engine.render(3, 5);
    other.render_thumb(3, 6);
    engine.set_render_width(3, 2000);
    other.close(3);
    match rx.recv().unwrap() {
        Command::Open { id, path } => assert_eq!((id, path), (3, PathBuf::from("a.pdf"))),
        _ => panic!("open expected"),
    }
    assert!(matches!(rx.recv().unwrap(), Command::Render { id: 3, index: 5 }));
    assert!(matches!(rx.recv().unwrap(), Command::RenderThumb { id: 3, index: 6 }));
    assert!(matches!(rx.recv().unwrap(), Command::SetRenderWidth { id: 3, width: 2000 }));
    assert!(matches!(rx.recv().unwrap(), Command::Close { id: 3 }));
    drop(rx);
    // A closed channel is not an error for the sender.
    engine.render(3, 0);
}

#[test]
fn width_asked_before_load_applies_on_load() {
    let mut w = Worker::new(BASE_RENDER_WIDTH);
    set_width(&mut w, 5, 2000);
    w.loaded(5, 2);
    assert_eq!(render(&mut w, 5, 0), Some((5, 0, 2000)));
    // Closing forgets the width; a later load starts at the initial width.
    assert!(matches!(w.handle(Command::Close { id: 5 }), Action::Release { id: 5 }));
    set_width(&mut w, 6, 100);
    w.loaded(5, 1);
    assert_eq!(render(&mut w, 5, 0), Some((5, 0, 1100)));
    w.loaded(6, 1);
    assert_eq!(render(&mut w, 6, 0), Some((6, 0, MIN_RENDER_WIDTH)));
}

#[test]
fn reloading_keeps_the_width() {
    let mut w = Worker::new(BASE_RENDER_WIDTH);
    w.loaded(1, 2);
    set_width(&mut w, 1, 700);
    w.loaded(1, 2);
    assert_eq!(render(&mut w, 1, 1), Some((1, 1, 700)));
}
