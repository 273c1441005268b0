//! What a frame of the dashboard shows, as plain data.
//!
//! Rendering decides the content of a frame: the row of tabs with the
//! selected one marked, the caption, and the body of the selected page.
//! Turning that content into styled cells on a screen is left to the
//! rendering back end.

use vstd::prelude::*;
use vstd::string::*;
use crate::text::{copy_lines, lines_of};

verus! {

/// The pages of the dashboard. Exactly one is selected at any time.
#[derive(Clone, Copy, Debug, PartialEq, Eq, Structural)]
pub enum Page {
    /// The status log.
    Console,
    /// The inventory of watched files.
    FileObserver,
    /// The container manager.
    ContainerManager,
}

/// One entry of the tab row: a label, the key that selects it, and whether
/// it is the selected one.
#[derive(Debug)]
pub struct Tab {
    pub label: String,
    pub hint: String,
    pub active: bool,
}

/// The body of a frame.
#[derive(Debug)]
pub enum Body {
    /// A list of lines, shown top to bottom.
    Lines(Vec<String>),
    /// A paragraph of text.
    Text(String),
}

/// The content of one frame.
#[derive(Debug)]
pub struct Frame {
    /// The tab row, left to right.
    pub tabs: Vec<Tab>,
    /// The caption at the bottom of the frame.
    pub caption: String,
    /// The body of the selected page.
    pub body: Body,
}

/// The model of a tab.
pub struct TabModel {
    pub label: Seq<char>,
    pub hint: Seq<char>,
    pub active: bool,
}

/// The model of a body.
#[verifier::ext_equal]
pub enum BodyModel {
    Lines(Seq<Seq<char>>),
    Text(Seq<char>),
}

/// The model of a frame.
#[verifier::ext_equal]
pub struct FrameModel {
    pub tabs: Seq<TabModel>,
    pub caption: Seq<char>,
    pub body: BodyModel,
}

impl View for Tab {
    type V = TabModel;

    open spec fn view(&self) -> TabModel {
        TabModel { label: self.label@, hint: self.hint@, active: self.active }
    }
}

impl View for Body {
    type V = BodyModel;

    open spec fn view(&self) -> BodyModel {
        match *self {
            Body::Lines(lines) => BodyModel::Lines(lines_of(lines@)),
            Body::Text(text) => BodyModel::Text(text@),
        }
    }
}

impl View for Frame {
    type V = FrameModel;

    open spec fn view(&self) -> FrameModel {
        FrameModel {
            tabs: self.tabs@.map_values(|t: Tab| t@),
            caption: self.caption@,
            body: self.body@,
        }
    }
}

/// The tab row when `page` is selected: one tab per page, then the quit
/// entry, which is never marked.
pub open spec fn tab_row(page: Page) -> Seq<TabModel> {
    seq![
        TabModel { label: " Console "@, hint: "<1>"@, active: page is Console },
        TabModel { label: " File Observer "@, hint: "<2>"@, active: page is FileObserver },
        TabModel { label: " Container Manager "@, hint: "<3>"@, active: page is ContainerManager },
        TabModel { label: " Quit "@, hint: "<Q> "@, active: false },
    ]
}

/// The body of `page`: the console lists the log, the file observer lists
/// the watched files, and the container manager shows its standing text.
pub open spec fn body_of(page: Page, logs: Seq<Seq<char>>, files: Seq<Seq<char>>) -> BodyModel {
    match page {
        Page::Console => BodyModel::Lines(logs),
        Page::FileObserver => BodyModel::Lines(files),
        Page::ContainerManager => BodyModel::Text("Blabla3"@),
    }
}

/// The frame for `page`, given the log and the inventory of watched files.
pub open spec fn frame_of(page: Page, logs: Seq<Seq<char>>, files: Seq<Seq<char>>) -> FrameModel {
    FrameModel { tabs: tab_row(page), caption: " Docker Manager "@, body: body_of(page, logs, files) }
}

fn tab(label: &str, hint: &str, active: bool) -> (t: Tab)
    ensures
        t@ == (TabModel { label: label@, hint: hint@, active }),
{
    Tab { label: String::from_str(label), hint: String::from_str(hint), active }
}

/// Renders `page` from a snapshot of the log and of the watched files.
pub fn render(page: Page, logs: &Vec<String>, files: &Vec<String>) -> (frame: Frame)
    ensures
        frame@ == frame_of(page, lines_of(logs@), lines_of(files@)),
{
    let mut tabs: Vec<Tab> = Vec::new();
    tabs.push(tab(" Console ", "<1>", matches!(page, Page::Console)));
    tabs.push(tab(" File Observer ", "<2>", matches!(page, Page::FileObserver)));
    tabs.push(tab(" Container Manager ", "<3>", matches!(page, Page::ContainerManager)));
    tabs.push(tab(" Quit ", "<Q> ", false));
    let body = match page {
        Page::Console => Body::Lines(copy_lines(logs)),
        Page::FileObserver => Body::Lines(copy_lines(files)),
        Page::ContainerManager => Body::Text(String::from_str("Blabla3")),
    };
    Frame { tabs, caption: String::from_str(" Docker Manager "), body }
}

} // verus!
