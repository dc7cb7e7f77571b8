//! A typing-speed test: text layout, the keystroke state machine, the
//! countdown and the words-per-minute figures of a session.
pub mod layout;
pub mod session;
pub mod timer;
pub mod metrics;
pub mod driver;
pub mod source;
