//! The application loop as a state machine.
//!
//! The loop waits for whichever of a render tick and an input event comes
//! first and hands it to [`App::step`], which moves the state on and says
//! what to do: draw a frame, wait for the next event, or quit. Waiting,
//! drawing and reading the keyboard are the caller's part.

use vstd::prelude::*;
use crate::frame::{frame_of, render, Frame, Page};
use crate::text::lines_of;

verus! {

/// A key of the keyboard, as far as the dashboard tells keys apart.
#[derive(Clone, Copy, Debug, PartialEq, Eq, Structural)]
pub enum KeyCode {
    /// A character key.
    Char(char),
    /// Any other key.
    Other,
}

/// What was done to a key.
#[derive(Clone, Copy, Debug, PartialEq, Eq, Structural)]
pub enum KeyEventKind {
    /// The key went down.
    Press,
    /// The key is held and repeats.
    Repeat,
    /// The key came up.
    Release,
}

/// A key event.
#[derive(Clone, Copy, Debug, PartialEq, Eq, Structural)]
pub struct KeyEvent {
    pub code: KeyCode,
    pub kind: KeyEventKind,
}

/// An event of the input source.
#[derive(Clone, Copy, Debug, PartialEq, Eq, Structural)]
pub enum InputEvent {
    /// A key event.
    Key(KeyEvent),
    /// The terminal changed its size.
    Resize,
    /// Anything else: the mouse, focus, pasted text.
    Other,
}

/// An event of the loop: the tick source fired, or the input source
/// produced an event.
#[derive(Clone, Copy, Debug, PartialEq, Eq, Structural)]
pub enum LoopEvent {
    Tick,
    Input(InputEvent),
}

/// What the loop is to do after an event.
#[derive(Clone, Copy, Debug, PartialEq, Eq, Structural)]
pub enum Action {
    /// Draw the frame of `page`; lay it out anew first if `relayout` is set.
    Draw { page: Page, relayout: bool },
    /// Nothing to draw: wait for the next event.
    Wait,
    /// Leave the loop.
    Quit,
}

/// The model of the application state: the selected page, whether the loop
/// has been left, and whether a resize awaits the next tick.
pub struct AppState {
    pub page: Page,
    pub exited: bool,
    pub relayout_due: bool,
}

/// The page that a character key selects, if it selects one.
pub open spec fn page_of_key(c: char) -> Option<Page> {
    if c == '1' {
        Some(Page::Console)
    } else if c == '2' {
        Some(Page::FileObserver)
    } else if c == '3' {
        Some(Page::ContainerManager)
    } else {
        None
    }
}

/// The state after the key of `key` was pressed: `q` leaves the loop, a
/// page key selects its page, any other key changes nothing.
pub open spec fn after_key(s: AppState, key: KeyEvent) -> AppState {
    match key.code {
        KeyCode::Char(c) => if c == 'q' {
            AppState { page: s.page, exited: true, relayout_due: s.relayout_due }
        } else {
            match page_of_key(c) {
                Some(page) => AppState { page, exited: s.exited, relayout_due: s.relayout_due },
                None => s,
            }
        },
        KeyCode::Other => s,
    }
}

/// The state after an input event: a key press acts as its key says, a
/// resize is noted for the next tick, everything else changes nothing.
pub open spec fn after_input(s: AppState, event: InputEvent) -> AppState {
    match event {
        InputEvent::Key(key) => if key.kind is Press {
            after_key(s, key)
        } else {
            s
        },
        InputEvent::Resize => AppState { page: s.page, exited: s.exited, relayout_due: true },
        InputEvent::Other => s,
    }
}

/// The state after one event of the loop. Once the loop has been left no
/// event changes anything.
pub open spec fn after_loop_event(s: AppState, event: LoopEvent) -> AppState {
    if s.exited {
        s
    } else {
        match event {
            LoopEvent::Tick => AppState { page: s.page, exited: false, relayout_due: false },
            LoopEvent::Input(input) => after_input(s, input),
        }
    }
}

/// What the loop is to do for one event: a tick draws the selected page,
/// the event that leaves the loop quits, every other event waits.
pub open spec fn action_for(s: AppState, event: LoopEvent) -> Action {
    if s.exited {
        Action::Quit
    } else {
        match event {
            LoopEvent::Tick => Action::Draw { page: s.page, relayout: s.relayout_due },
            LoopEvent::Input(input) => if after_input(s, input).exited {
                Action::Quit
            } else {
                Action::Wait
            },
        }
    }
}

/// The state in which the loop ends when it is fed `events`: it takes them
/// one by one until it has been left or none remains.
pub open spec fn after_run(s: AppState, events: Seq<LoopEvent>) -> AppState
    decreases events.len(),
{
    if s.exited || events.len() == 0 {
        s
    } else {
        after_run(after_loop_event(s, events.first()), events.drop_first())
    }
}

/// The actions of the loop when it is fed `events`, one per event taken.
pub open spec fn actions_of_run(s: AppState, events: Seq<LoopEvent>) -> Seq<Action>
    decreases events.len(),
{
    if s.exited || events.len() == 0 {
        Seq::empty()
    } else {
        seq![action_for(s, events.first())] + actions_of_run(
            after_loop_event(s, events.first()),
            events.drop_first(),
        )
    }
}

/// Whether `event` is a press of the quit key.
pub open spec fn is_quit(event: LoopEvent) -> bool {
    event matches LoopEvent::Input(InputEvent::Key(key)) && key.kind is Press && key.code
        == KeyCode::Char('q')
}

/// The page that `event` selects, if it is a press of a page key.
pub open spec fn page_pressed(event: LoopEvent) -> Option<Page> {
    match event {
        LoopEvent::Input(InputEvent::Key(key)) => if key.kind is Press {
            match key.code {
                KeyCode::Char(c) => page_of_key(c),
                KeyCode::Other => None,
            }
        } else {
            None
        },
        _ => None,
    }
}

/// The page of the last page key pressed in `events`, if one was pressed.
pub open spec fn last_page_pressed(events: Seq<LoopEvent>) -> Option<Page>
    decreases events.len(),
{
    if events.len() == 0 {
        None
    } else {
        match page_pressed(events.last()) {
            Some(page) => Some(page),
            None => last_page_pressed(events.drop_last()),
        }
    }
}

/// The position of the first press of the quit key in `events`, or their
/// number if it is never pressed.
pub open spec fn first_quit(events: Seq<LoopEvent>) -> int
    decreases events.len(),
{
    if events.len() == 0 {
        0
    } else if is_quit(events.first()) {
        0
    } else {
        1 + first_quit(events.drop_first())
    }
}

/// The state of the dashboard's loop.
pub struct App {
    selected_page: Page,
    exit: bool,
    relayout_due: bool,
}

impl View for App {
    type V = AppState;

    closed spec fn view(&self) -> AppState {
        AppState { page: self.selected_page, exited: self.exit, relayout_due: self.relayout_due }
    }
}

impl App {
    /// The state at startup: the console is selected and the loop runs.
    pub fn new() -> (app: App)
        ensures
            app@ == (AppState { page: Page::Console, exited: false, relayout_due: false }),
    {
        App { selected_page: Page::Console, exit: false, relayout_due: false }
    }

    /// The selected page.
    pub fn selected_page(&self) -> (page: Page)
        ensures
            page == self@.page,
    {
        self.selected_page
    }

    /// Whether the loop has been left.
    pub fn should_exit(&self) -> (exited: bool)
        ensures
            exited == self@.exited,
    {
        self.exit
    }

    /// Leaves the loop.
    pub fn exit(&mut self)
        ensures
            final(self)@ == (AppState {
                page: old(self)@.page,
                exited: true,
                relayout_due: old(self)@.relayout_due,
            }),
    {
        self.exit = true;
    }

    /// Selects `page`.
    pub fn change_page(&mut self, page: Page)
        ensures
            final(self)@ == (AppState {
                page,
                exited: old(self)@.exited,
                relayout_due: old(self)@.relayout_due,
            }),
    {
        self.selected_page = page;
    }

    /// Acts on the press of a key.
    pub fn handle_key_event(&mut self, key: KeyEvent)
        ensures
            final(self)@ == after_key(old(self)@, key),
    {
        match key.code {
            KeyCode::Char(c) => {
                if c == 'q' {
                    self.exit();
                } else if c == '1' {
                    self.change_page(Page::Console);
                } else if c == '2' {
                    self.change_page(Page::FileObserver);
                } else if c == '3' {
                    self.change_page(Page::ContainerManager);
                }
            },
            KeyCode::Other => {},
        }
    }

    /// Acts on an event of the input source.
    pub fn handle_input_event(&mut self, event: InputEvent)
        ensures
            final(self)@ == after_input(old(self)@, event),
    {
        match event {
            InputEvent::Key(key) => {
                match key.kind {
                    KeyEventKind::Press => self.handle_key_event(key),
                    KeyEventKind::Repeat => {},
                    KeyEventKind::Release => {},
                }
            },
            InputEvent::Resize => {
                self.relayout_due = true;
            },
            InputEvent::Other => {},
        }
    }

    /// Takes one event of the loop and says what the loop is to do.
    pub fn step(&mut self, event: LoopEvent) -> (action: Action)
        ensures
            final(self)@ == after_loop_event(old(self)@, event),
            action == action_for(old(self)@, event),
    {
        if self.exit {
            return Action::Quit;
        }
        match event {
            LoopEvent::Tick => {
                let action = Action::Draw { page: self.selected_page, relayout: self.relayout_due };
                self.relayout_due = false;
                action
            },
            LoopEvent::Input(input) => {
                self.handle_input_event(input);
                if self.exit {
                    Action::Quit
                } else {
                    Action::Wait
                }
            },
        }
    }

    /// Runs the loop over a recorded sequence of events: takes them one by
    /// one until the loop has been left or none remains, and gives back
    /// the action of each event taken.
    pub fn run(&mut self, events: &Vec<LoopEvent>) -> (actions: Vec<Action>)
        ensures
            final(self)@ == after_run(old(self)@, events@),
            actions@ == actions_of_run(old(self)@, events@),
    {
        let mut actions: Vec<Action> = Vec::new();
        let mut i: usize = 0;
        assert(events@.skip(0) =~= events@);
        while !self.exit && i < events.len()
            invariant
                i <= events.len(),
                after_run(old(self)@, events@) == after_run(self@, events@.skip(i as int)),
                actions_of_run(old(self)@, events@) == actions@ + actions_of_run(
                    self@,
                    events@.skip(i as int),
                ),
            decreases events.len() - i,
        {
            proof {
                assert(events@.skip(i as int).drop_first() =~= events@.skip(i + 1));
            }
            let action = self.step(events[i]);
            actions.push(action);
            i = i + 1;
        }
        actions
    }

    /// Renders the selected page from a snapshot of the log and of the
    /// watched files.
    pub fn render(&self, logs: &Vec<String>, files: &Vec<String>) -> (frame: Frame)
        ensures
            frame@ == frame_of(self@.page, lines_of(logs@), lines_of(files@)),
    {
        render(self.selected_page, logs, files)
    }
}

/// A single event that is not a press of the quit key leaves the loop
/// running and selects the page of its key, if it is a press of a page key.
pub proof fn lemma_event_without_quit(s: AppState, event: LoopEvent)
    requires
        !s.exited,
        !is_quit(event),
    ensures
        !after_loop_event(s, event).exited,
        after_loop_event(s, event).page == match page_pressed(event) {
            Some(page) => page,
            None => s.page,
        },
{
}

/// Putting an event in front of a sequence changes the last page pressed
/// only if the sequence holds no press of a page key.
pub proof fn lemma_last_page_pressed_front(event: LoopEvent, events: Seq<LoopEvent>)
    ensures
        last_page_pressed(seq![event] + events) == match last_page_pressed(events) {
            Some(page) => Some(page),
            None => page_pressed(event),
        },
    decreases events.len(),
{
    let all = seq![event] + events;
    if events.len() == 0 {
        assert(all.last() == event);
        assert(all.drop_last() =~= Seq::<LoopEvent>::empty());
        assert(last_page_pressed(all.drop_last()) == None::<Page>);
    } else {
        assert(all.last() == events.last());
        assert(all.drop_last() =~= seq![event] + events.drop_last());
        lemma_last_page_pressed_front(event, events.drop_last());
    }
}

/// Page navigation: whatever sequence of events a running loop is fed,
/// it ends on the page of the last page key pressed before the first press
/// of the quit key, or on the page it started on if none was pressed; and
/// it has been left exactly if the quit key was pressed, in which case it
/// took no event after that press.
pub proof fn lemma_page_follows_last_key(s: AppState, events: Seq<LoopEvent>)
    requires
        !s.exited,
    ensures
        0 <= first_quit(events) <= events.len(),
        first_quit(events) < events.len() ==> is_quit(events[first_quit(events)]),
        after_run(s, events).page == match last_page_pressed(events.take(first_quit(events))) {
            Some(page) => page,
            None => s.page,
        },
        after_run(s, events).exited == (first_quit(events) < events.len()),
        actions_of_run(s, events).len() == if first_quit(events) < events.len() {
            first_quit(events) + 1
        } else {
            events.len() as int
        },
    decreases events.len(),
{
    if events.len() == 0 {
        assert(events.take(0) =~= Seq::<LoopEvent>::empty());
    } else {
        let first = events.first();
        let rest = events.drop_first();
        let next = after_loop_event(s, first);
        if is_quit(first) {
            assert(events.take(0) =~= Seq::<LoopEvent>::empty());
            assert(next.exited && next.page == s.page);
            assert(after_run(next, rest) == next);
            assert(actions_of_run(next, rest) =~= Seq::<Action>::empty());
        } else {
            lemma_event_without_quit(s, first);
            lemma_page_follows_last_key(next, rest);
            let cut = first_quit(rest);
            assert(events.take(cut + 1) =~= seq![first] + rest.take(cut));
            lemma_last_page_pressed_front(first, rest.take(cut));
            if cut < rest.len() {
                assert(events[cut + 1] == rest[cut]);
            }
        }
    }
}

} // verus!
