//! Tails an appended text stream and turns new bytes into structured domain
//! events: bytes are decoded to UTF-8 characters, assembled into complete
//! lines, rewritten by an ordered filter chain, and matched against a
//! registry of pattern rules whose handlers emit events on a channel.

pub mod error;
pub mod events;
pub mod filter;
pub mod manager;
pub mod pattern;
pub mod poll;
pub mod text;

pub use error::EventError;
pub use events::{PoeEvent, PoeEvents, PoeLogLineInfo};
pub use filter::LineFilter;
pub use manager::{EventAction, EventManager};
pub use poll::{BytePoll, CharPoll, StringLinePoll};
