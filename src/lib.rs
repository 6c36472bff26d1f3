//! X11 clipboard transfer logic: the selection store, the owner's reply and
//! INCR chunking rules, the requestor's reassembly of a converted selection,
//! and the laws that tie the two halves together.

pub mod bytes;
pub mod error;
pub mod laws;
pub mod loader;
pub mod owner;
pub mod store;

use vstd::prelude::*;

pub use error::ErrorKind;
pub use loader::{timed_out, ChunkStep, Loader, PropertyState, ReplyStep};
pub use owner::{
    max_transfer_size, ownership_verdict, IncrState, OwnerLoop, PropertyWrite, RequestReply,
};
pub use store::SelectionStore;

verus! {

/// An X atom: a server-assigned identifier, compared only for equality.
pub type Atom = u64;

/// The atom value that stands for "no atom".
pub const NONE_ATOM: u64 = 0;

/// Bytes served per PropertyNotify(PropertyDelete) during an INCR transfer.
pub const INCR_CHUNK_SIZE: usize = 4000;

/// Milliseconds the requestor parks when no event is pending.
pub const POLL_DURATION: u64 = 50;

/// The interned atoms that the transfer protocol uses.
#[derive(Clone, Copy, Debug, PartialEq, Eq, Structural)]
pub struct Atoms {
    pub primary: Atom,
    pub clipboard: Atom,
    pub property: Atom,
    pub targets: Atom,
    pub string: Atom,
    pub utf8_string: Atom,
    pub incr: Atom,
}

} // verus!
