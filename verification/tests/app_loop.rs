use docker_manager::app::{Action, App, InputEvent, KeyCode, KeyEvent, KeyEventKind, LoopEvent};
use docker_manager::frame::Page;

fn press(c: char) -> LoopEvent {
    LoopEvent::Input(InputEvent::Key(KeyEvent { code: KeyCode::Char(c), kind: KeyEventKind::Press }))
}

fn key(c: char, kind: KeyEventKind) -> KeyEvent {
    KeyEvent { code: KeyCode::Char(c), kind }
}

#[test]
fn startup_shows_the_console_and_runs() {
    let app = App::new();
    assert_eq!(app.selected_page(), Page::Console);
    assert!(!app.should_exit());
}

#[test]
fn two_three_q_walks_the_pages_and_leaves() {
    let mut app = App::new();
    assert_eq!(app.selected_page(), Page::Console);
    assert_eq!(app.step(press('2')), Action::Wait);
    assert_eq!(app.selected_page(), Page::FileObserver);
    assert_eq!(app.step(press('3')), Action::Wait);
    assert_eq!(app.selected_page(), Page::ContainerManager);
    assert_eq!(app.step(press('q')), Action::Quit);
    assert!(app.should_exit());
}

#[test]
fn run_over_two_three_q_takes_all_three_events() {
    let mut app = App::new();
    let actions = app.run(&vec![press('2'), press('3'), press('q')]);
    assert_eq!(actions, vec![Action::Wait, Action::Wait, Action::Quit]);
    assert_eq!(app.selected_page(), Page::ContainerManager);
    assert!(app.should_exit());
}

#[test]
fn run_takes_no_event_after_the_quit_key() {
    let mut app = App::new();
    let actions = app.run(&vec![press('3'), press('q'), press('1'), LoopEvent::Tick]);
    assert_eq!(actions, vec![Action::Wait, Action::Quit]);
    assert_eq!(app.selected_page(), Page::ContainerManager);
    assert!(app.should_exit());
}

#[test]
fn run_without_the_quit_key_takes_every_event_and_keeps_running() {
    let mut app = App::new();
    let actions = app.run(&vec![LoopEvent::Tick, press('2'), LoopEvent::Tick]);
    assert_eq!(
        actions,
        vec![
            Action::Draw { page: Page::Console, relayout: false },
            Action::Wait,
            Action::Draw { page: Page::FileObserver, relayout: false },
        ]
    );
    assert!(!app.should_exit());
}

#[test]
fn run_over_nothing_does_nothing() {
    let mut app = App::new();
    assert!(app.run(&Vec::new()).is_empty());
    assert_eq!(app.selected_page(), Page::Console);
    assert!(!app.should_exit());
}

#[test]
fn the_page_is_that_of_the_last_page_key() {
    let cases: Vec<(Vec<char>, Page)> = vec![
        (vec![], Page::Console),
        (vec!['x', 'y'], Page::Console),
        (vec!['1'], Page::Console),
        (vec!['2'], Page::FileObserver),
        (vec!['3'], Page::ContainerManager),
        (vec!['3', '2', '1'], Page::Console),
        (vec!['1', '2', '3'], Page::ContainerManager),
        (vec!['2', '2', 'x', '4', '0'], Page::FileObserver),
        (vec!['3', 'Q', '9'], Page::ContainerManager),
    ];
    for (keys, page) in cases {
        let mut app = App::new();
        let events: Vec<LoopEvent> = keys.iter().map(|c| press(*c)).collect();
        let actions = app.run(&events);
        assert_eq!(actions.len(), events.len());
        assert_eq!(app.selected_page(), page);
        assert!(!app.should_exit());
    }
}

#[test]
fn other_keys_change_nothing() {
    let mut app = App::new();
    app.change_page(Page::FileObserver);
    for c in ['0', '4', 'a', 'Q', ' ', '\n'] {
        assert_eq!(app.step(press(c)), Action::Wait);
        assert_eq!(app.selected_page(), Page::FileObserver);
        assert!(!app.should_exit());
    }
    let other = KeyEvent { code: KeyCode::Other, kind: KeyEventKind::Press };
    assert_eq!(app.step(LoopEvent::Input(InputEvent::Key(other))), Action::Wait);
    assert_eq!(app.selected_page(), Page::FileObserver);
    assert!(!app.should_exit());
}

#[test]
fn key_events_that_are_no_press_change_nothing() {
    let mut app = App::new();
    for kind in [KeyEventKind::Release, KeyEventKind::Repeat] {
        for c in ['q', '2', '3'] {
            app.handle_input_event(InputEvent::Key(key(c, kind)));
            assert_eq!(app.selected_page(), Page::Console);
            assert!(!app.should_exit());
        }
    }
    assert_eq!(app.step(LoopEvent::Input(InputEvent::Other)), Action::Wait);
    assert_eq!(app.selected_page(), Page::Console);
}

#[test]
fn handle_key_event_acts_on_the_four_keys() {
    let mut app = App::new();
    app.handle_key_event(key('3', KeyEventKind::Press));
    assert_eq!(app.selected_page(), Page::ContainerManager);
    app.handle_key_event(key('1', KeyEventKind::Press));
    assert_eq!(app.selected_page(), Page::Console);
    app.handle_key_event(key('2', KeyEventKind::Press));
    assert_eq!(app.selected_page(), Page::FileObserver);
    assert!(!app.should_exit());
    app.handle_key_event(key('q', KeyEventKind::Press));
    assert!(app.should_exit());
    assert_eq!(app.selected_page(), Page::FileObserver);
}

#[test]
fn exit_and_change_page_touch_only_their_own_part() {
    let mut app = App::new();
    app.change_page(Page::ContainerManager);
    assert!(!app.should_exit());
    app.exit();
    assert!(app.should_exit());
    assert_eq!(app.selected_page(), Page::ContainerManager);
}

#[test]
fn a_tick_draws_the_selected_page_and_changes_nothing() {
    let mut app = App::new();
    assert_eq!(app.step(LoopEvent::Tick), Action::Draw { page: Page::Console, relayout: false });
    app.step(press('3'));
    assert_eq!(
        app.step(LoopEvent::Tick),
        Action::Draw { page: Page::ContainerManager, relayout: false }
    );
    assert_eq!(app.selected_page(), Page::ContainerManager);
    assert!(!app.should_exit());
}

#[test]
fn a_resize_is_laid_out_on_the_next_tick_only() {
    let mut app = App::new();
    assert_eq!(app.step(LoopEvent::Input(InputEvent::Resize)), Action::Wait);
    assert_eq!(app.step(press('2')), Action::Wait);
    assert_eq!(
        app.step(LoopEvent::Tick),
        Action::Draw { page: Page::FileObserver, relayout: true }
    );
    assert_eq!(
        app.step(LoopEvent::Tick),
        Action::Draw { page: Page::FileObserver, relayout: false }
    );
}

#[test]
fn once_left_the_loop_stays_left() {
    let mut app = App::new();
    app.step(press('2'));
    assert_eq!(app.step(press('q')), Action::Quit);
    assert_eq!(app.step(press('1')), Action::Quit);
    assert_eq!(app.step(LoopEvent::Tick), Action::Quit);
    assert_eq!(app.step(LoopEvent::Input(InputEvent::Resize)), Action::Quit);
    assert_eq!(app.selected_page(), Page::FileObserver);
    assert!(app.should_exit());
    assert!(app.run(&vec![press('1'), LoopEvent::Tick]).is_empty());
    assert_eq!(app.selected_page(), Page::FileObserver);
}
