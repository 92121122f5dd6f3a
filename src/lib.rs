//! Completion coordination for a modal text editor: deciding when to ask
//! language servers for completions, debouncing the requests, merging the
//! replies of several servers and keeping the displayed list current while
//! the user types.

pub mod diagnostic;
pub mod text;
pub mod trigger;
pub mod debounce;
pub mod request;
pub mod popup;
pub mod hooks;
