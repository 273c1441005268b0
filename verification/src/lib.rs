//! Core of a rebuild-on-change dashboard: the watch set, the debounce filter,
//! the serialised rebuild dispatcher, the append-only status log and the
//! page-navigation state machine, each with a machine-checked contract.
//!
//! Nothing here touches the file system, the clock or the terminal. Callers
//! hand in plain values (scan entries, change notifications, a millisecond
//! timestamp, key presses) and act on the plain values that come back.
//!
//! * [`watch_set`]: the directory scanner and the set of watched files.
//! * [`debounce`]: the registry that swallows rapid-fire events per path.
//! * [`dispatcher`]: one rebuild in flight, the others queued in order.
//! * [`log_store`]: the status log, which only grows.
//! * [`watcher`]: the four above as one state machine.
//! * [`stream`]: what the watcher does over whole streams of notifications.
//! * [`app`]: the loop's state machine: pages, keys, ticks, quitting.
//! * [`frame`]: the content of a rendered frame.
//! * [`text`]: lines of text and their models.

pub mod text;
pub mod log_store;
pub mod watch_set;
pub mod debounce;
pub mod dispatcher;
pub mod watcher;
pub mod stream;
pub mod frame;
pub mod app;

pub use crate::app::App;
pub use crate::watcher::FileWatcher;
