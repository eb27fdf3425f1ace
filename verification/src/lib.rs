//! A minimal command interpreter core: resolving an input line to a typed
//! command and deciding the effect each command has.
//!
//! The crate is split into the textual groundwork (`text`), the search-path
//! lookup (`lookup`), the resolver (`command`), the ambient process state
//! handed in by the caller (`context`), and the dispatcher (`dispatch`).

pub mod command;
pub mod context;
pub mod dispatch;
pub mod lookup;
pub mod text;
