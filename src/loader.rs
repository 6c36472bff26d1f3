use vstd::prelude::*;
use crate::bytes::append_bytes;
use crate::error::ErrorKind;
use crate::NONE_ATOM;

verus! {

/// The `state` field of a PropertyNotify event.
#[derive(Clone, Copy, Debug, PartialEq, Eq, Structural)]
pub enum PropertyState {
    NewValue,
    Delete,
}

/// What the requestor does after reading the reply property.
#[derive(Clone, Copy, Debug, PartialEq, Eq, Structural)]
pub enum ReplyStep {
    /// The reply was of another type: keep waiting.
    Ignore,
    /// The owner announced INCR: delete the property to ask for the first
    /// chunk, then wait for chunks.
    AwaitChunks,
    /// The whole value has arrived.
    Done,
}

/// What the requestor does after reading one INCR chunk.
#[derive(Clone, Copy, Debug, PartialEq, Eq, Structural)]
pub enum ChunkStep {
    /// Delete the property to ask for the next chunk.
    More,
    /// The empty chunk ended the stream.
    Done,
}

/// Whether a load that started `elapsed_ms` ago has run past its timeout.
pub fn timed_out(elapsed_ms: u64, timeout_ms: Option<u64>) -> (r: bool)
    ensures
        r == (match timeout_ms {
            Some(t) => elapsed_ms >= t,
            None => false,
        }),
{
    match timeout_ms {
        Some(t) => elapsed_ms >= t,
        None => false,
    }
}

/// The requestor side of one selection conversion: it decides on each event
/// and reassembles the value, by a single reply or by INCR chunks.
pub struct Loader {
    selection: u64,
    target: u64,
    incr_atom: u64,
    targets_atom: u64,
    atom_type: u64,
    buf: Vec<u8>,
    incr: bool,
    reserved: usize,
}

impl Loader {
    /// The bytes received so far.
    pub closed spec fn received(&self) -> Seq<u8> {
        self.buf@
    }

    /// Whether the owner announced an INCR transfer.
    pub closed spec fn in_incr(&self) -> bool {
        self.incr
    }

    pub closed spec fn selection_spec(&self) -> u64 {
        self.selection
    }

    pub closed spec fn target_spec(&self) -> u64 {
        self.target
    }

    pub closed spec fn incr_atom_spec(&self) -> u64 {
        self.incr_atom
    }

    pub closed spec fn targets_atom_spec(&self) -> u64 {
        self.targets_atom
    }

    pub closed spec fn atom_type_spec(&self) -> u64 {
        self.atom_type
    }

    /// The capacity reserved on the INCR announcement's size hint.
    pub closed spec fn reserved_spec(&self) -> usize {
        self.reserved
    }

    /// Whether a reply of type `kind` carries the value: one of the target's
    /// own type, or, for a TARGETS request, the list of ATOM items.
    pub open spec fn accepts(&self, kind: u64) -> bool {
        kind == self.target_spec() || (self.target_spec() == self.targets_atom_spec() && kind
            == self.atom_type_spec())
    }

    /// Whether two loaders serve the same conversion.
    pub open spec fn same_request(&self, other: &Loader) -> bool {
        &&& self.selection_spec() == other.selection_spec()
        &&& self.target_spec() == other.target_spec()
        &&& self.incr_atom_spec() == other.incr_atom_spec()
        &&& self.targets_atom_spec() == other.targets_atom_spec()
        &&& self.atom_type_spec() == other.atom_type_spec()
    }

    /// A conversion of `selection` to `target` that has received nothing yet;
    /// `incr_atom`, `targets_atom` and `atom_type` are the INCR, TARGETS and
    /// ATOM atoms.
    pub fn new(selection: u64, target: u64, incr_atom: u64, targets_atom: u64, atom_type: u64) -> (r:
        Loader)
        ensures
            r.received() == Seq::<u8>::empty(),
            !r.in_incr(),
            r.reserved_spec() == 0,
            r.selection_spec() == selection,
            r.target_spec() == target,
            r.incr_atom_spec() == incr_atom,
            r.targets_atom_spec() == targets_atom,
            r.atom_type_spec() == atom_type,
    {
        Loader {
            selection,
            target,
            incr_atom,
            targets_atom,
            atom_type,
            buf: Vec::new(),
            incr: false,
            reserved: 0,
        }
    }

    /// Whether the owner announced an INCR transfer.
    pub fn is_incr(&self) -> (r: bool)
        ensures
            r == self.in_incr(),
    {
        self.incr
    }

    /// The capacity hint that the INCR announcement carried, once honoured.
    pub fn reserved(&self) -> (r: usize)
        ensures
            r == self.reserved_spec(),
    {
        self.reserved
    }

    /// The bytes received so far.
    pub fn bytes(&self) -> (r: &Vec<u8>)
        ensures
            r@ == self.received(),
    {
        &self.buf
    }

    /// The received value.
    pub fn into_bytes(self) -> (r: Vec<u8>)
        ensures
            r@ == self.received(),
    {
        self.buf
    }

    /// Decides on a SelectionNotify for `selection` naming `property`:
    /// `Ok(false)` ignores a notify of another selection, `Err(BadTarget)`
    /// reports a refusal, `Ok(true)` asks for the property to be read.
    pub fn on_selection_notify(&self, selection: u64, property: u64) -> (r: Result<bool, ErrorKind>)
        ensures
            r == (if selection != self.selection_spec() {
                Ok::<bool, ErrorKind>(false)
            } else if property == NONE_ATOM {
                Err(ErrorKind::BadTarget)
            } else {
                Ok(true)
            }),
    {
        if selection != self.selection {
            Ok(false)
        } else if property == NONE_ATOM {
            Err(ErrorKind::BadTarget)
        } else {
            Ok(true)
        }
    }

    /// Takes in the reply property, of type `kind` and holding `data` (for
    /// format 32, each item as four bytes). An INCR reply carries a lower
    /// bound on the value's size in `size_hint`, which is reserved when it is
    /// a non-negative int32.
    pub fn on_reply(&mut self, kind: u64, data: &Vec<u8>, size_hint: Option<i64>) -> (r: ReplyStep)
        ensures
            final(self).same_request(old(self)),
            kind == old(self).incr_atom_spec() ==> r == ReplyStep::AwaitChunks && final(self).in_incr()
                && final(self).received() == old(self).received() && final(self).reserved_spec() == (
            match size_hint {
                Some(h) => if 0 <= h <= 0x7fff_ffff {
                    h as usize
                } else {
                    old(self).reserved_spec()
                },
                None => old(self).reserved_spec(),
            }),
            kind != old(self).incr_atom_spec() && old(self).accepts(kind) ==> r == ReplyStep::Done
                && final(self).in_incr() == old(self).in_incr() && final(self).received()
                == old(self).received() + data@ && final(self).reserved_spec()
                == old(self).reserved_spec(),
            kind != old(self).incr_atom_spec() && !old(self).accepts(kind) ==> r == ReplyStep::Ignore
                && final(self).in_incr() == old(self).in_incr() && final(self).received()
                == old(self).received() && final(self).reserved_spec() == old(self).reserved_spec(),
    {
        if kind == self.incr_atom {
            match size_hint {
                Some(h) => {
                    if 0 <= h && h <= 0x7fff_ffff {
                        self.buf.reserve(h as usize);
                        self.reserved = h as usize;
                    }
                },
                None => {},
            }
            self.incr = true;
            ReplyStep::AwaitChunks
        } else if kind == self.target || (self.target == self.targets_atom && kind == self.atom_type) {
            append_bytes(&mut self.buf, data);
            ReplyStep::Done
        } else {
            ReplyStep::Ignore
        }
    }

    /// Whether a PropertyNotify in `state` brings an INCR chunk to read.
    pub fn wants_chunk(&self, state: PropertyState) -> (r: bool)
        ensures
            r == (self.in_incr() && state == PropertyState::NewValue),
    {
        self.incr && state == PropertyState::NewValue
    }

    /// Takes in one INCR chunk: a non-empty one is appended, the empty one
    /// ends the stream.
    pub fn on_chunk(&mut self, data: &Vec<u8>) -> (r: ChunkStep)
        ensures
            final(self).same_request(old(self)),
            final(self).reserved_spec() == old(self).reserved_spec(),
            final(self).in_incr() == old(self).in_incr(),
            final(self).received() == old(self).received() + data@,
            r == (if data@.len() == 0 { ChunkStep::Done } else { ChunkStep::More }),
    {
        if data.len() == 0 {
            assert(self.buf@ =~= self.buf@ + data@);
            ChunkStep::Done
        } else {
            append_bytes(&mut self.buf, data);
            ChunkStep::More
        }
    }
}

} // verus!
