//! A poller for waitable objects: it keeps the list of wait commands that the
//! kernel sleeps on, and turns the commands that became ready into events.

pub mod error;
pub mod event;
pub mod hash_key;
pub mod ids;
pub mod laws;
pub mod notify;
pub mod poller;
pub mod signals;
pub mod slots;
pub mod wps;

pub use error::Error;
pub use event::{cvt_mode_as_remove, Event, EventExtra, Events, PollFlags, PollMode};
pub use hash_key::HashKey;
pub use ids::{BorrowedTwizzlerWaitable, UniqueIds};
pub use notify::{Notify, WaitItem};
pub use poller::Poller;
pub use signals::{Signals, WaitStep};
pub use slots::WaitItems;
pub use wps::{Operation, WpData, Wps};
