use docker_manager::app::App;
use docker_manager::frame::{render, Body, Frame, Page};

fn s(text: &str) -> String {
    text.to_string()
}

fn logs() -> Vec<String> {
    vec![s("Initialized watcher..."), s("File change detected: a.txt")]
}

fn files() -> Vec<String> {
    vec![s("a.txt"), s("b.txt"), s("sub/c.txt")]
}

fn tab_row(frame: &Frame) -> Vec<(String, String, bool)> {
    frame.tabs.iter().map(|t| (t.label.clone(), t.hint.clone(), t.active)).collect()
}

fn expected_tabs(active: usize) -> Vec<(String, String, bool)> {
    vec![
        (s(" Console "), s("<1>"), active == 0),
        (s(" File Observer "), s("<2>"), active == 1),
        (s(" Container Manager "), s("<3>"), active == 2),
        (s(" Quit "), s("<Q> "), false),
    ]
}

fn lines(frame: &Frame) -> Vec<String> {
    match &frame.body {
        Body::Lines(lines) => lines.clone(),
        Body::Text(text) => panic!("a paragraph where a list was expected: {}", text),
    }
}

#[test]
fn the_console_lists_the_log() {
    let frame = render(Page::Console, &logs(), &files());
    assert_eq!(tab_row(&frame), expected_tabs(0));
    assert_eq!(frame.caption, s(" Docker Manager "));
    assert_eq!(lines(&frame), logs());
}

#[test]
fn the_file_observer_lists_the_watched_files() {
    let frame = render(Page::FileObserver, &logs(), &files());
    assert_eq!(tab_row(&frame), expected_tabs(1));
    assert_eq!(frame.caption, s(" Docker Manager "));
    assert_eq!(lines(&frame), files());
}

#[test]
fn the_container_manager_shows_its_text() {
    let frame = render(Page::ContainerManager, &logs(), &files());
    assert_eq!(tab_row(&frame), expected_tabs(2));
    assert_eq!(frame.caption, s(" Docker Manager "));
    match frame.body {
        Body::Text(text) => assert_eq!(text, s("Blabla3")),
        Body::Lines(_) => panic!("a list where a paragraph was expected"),
    }
}

#[test]
fn empty_snapshots_give_empty_lists() {
    let none: Vec<String> = Vec::new();
    assert!(lines(&render(Page::Console, &none, &files())).is_empty());
    assert!(lines(&render(Page::FileObserver, &logs(), &none)).is_empty());
}

#[test]
fn exactly_one_page_tab_is_marked() {
    for page in [Page::Console, Page::FileObserver, Page::ContainerManager] {
        let frame = render(page, &logs(), &files());
        assert_eq!(frame.tabs.len(), 4);
        assert_eq!(frame.tabs.iter().filter(|t| t.active).count(), 1);
        assert!(!frame.tabs[3].active);
    }
}

#[test]
fn the_app_renders_its_selected_page() {
    let mut app = App::new();
    assert_eq!(lines(&app.render(&logs(), &files())), logs());
    app.change_page(Page::FileObserver);
    let frame = app.render(&logs(), &files());
    assert_eq!(tab_row(&frame), expected_tabs(1));
    assert_eq!(lines(&frame), files());
}

#[test]
fn rendering_reads_the_snapshot_it_is_given() {
    let mut log = logs();
    let before = lines(&render(Page::Console, &log, &files()));
    log.push(s("Rebuilding and restarting containers..."));
    let after = lines(&render(Page::Console, &log, &files()));
    assert_eq!(before.len() + 1, after.len());
    assert_eq!(&after[..before.len()], &before[..]);
}
