use std::collections::HashMap;
use vstd::prelude::*;
use vstd::std_specs::hash::obeys_key_model;
use crate::bytes::copy_range;
use crate::error::ErrorKind;
use crate::loader::PropertyState;
use crate::store::SelectionStore;
use crate::INCR_CHUNK_SIZE;

verus! {

broadcast use vstd::std_specs::hash::group_hash_axioms;

/// The progress of one outgoing INCR transfer.
#[derive(Clone, Copy, Debug, PartialEq, Eq, Structural)]
pub struct IncrState {
    pub selection: u64,
    pub requestor: u64,
    pub property: u64,
    pub pos: usize,
}

/// What the owner answers to a SelectionRequest.
#[derive(Debug)]
pub enum RequestReply {
    /// No payload is stored for the selection: refuse with a SelectionNotify
    /// whose property is None.
    Refuse,
    /// The target is not supported: write nothing and notify nobody.
    Ignore,
    /// Write these atoms (type ATOM, format 32) to the requestor's property,
    /// then notify.
    Targets { atoms: Vec<u64> },
    /// Write these bytes (type `kind`, format 8) to the requestor's property,
    /// then notify.
    Data { kind: u64, bytes: Vec<u8> },
    /// Watch the requestor's properties, write an empty INCR-typed property
    /// (format 32), then notify; chunks follow on PropertyDelete.
    BeginIncr,
}

/// One property write: `bytes` with type `kind` and format 8 on `window`.
#[derive(Debug)]
pub struct PropertyWrite {
    pub window: u64,
    pub property: u64,
    pub kind: u64,
    pub bytes: Vec<u8>,
}

/// The INCR chunk that is served from offset `pos` of `payload`.
pub open spec fn incr_chunk(payload: Seq<u8>, pos: int) -> Seq<u8> {
    if pos + INCR_CHUNK_SIZE <= payload.len() {
        payload.subrange(pos, pos + INCR_CHUNK_SIZE)
    } else {
        payload.subrange(pos, payload.len() as int)
    }
}

/// The transfer maps with any transfer of `selection` torn down.
pub open spec fn drop_spec(idx: Map<u64, u64>, tr: Map<u64, IncrState>, selection: u64) -> (
    Map<u64, u64>,
    Map<u64, IncrState>,
) {
    if idx.contains_key(selection) {
        (idx.remove(selection), tr.remove(idx[selection]))
    } else {
        (idx, tr)
    }
}

/// The transfer maps once transfer `st` has started: any earlier transfer of
/// its selection, and any transfer that used its property, are torn down.
pub open spec fn begin_spec(idx: Map<u64, u64>, tr: Map<u64, IncrState>, st: IncrState) -> (
    Map<u64, u64>,
    Map<u64, IncrState>,
) {
    let (idx1, tr1) = drop_spec(idx, tr, st.selection);
    let (idx2, tr2) = if tr1.contains_key(st.property) {
        drop_spec(idx1, tr1, tr1[st.property].selection)
    } else {
        (idx1, tr1)
    };
    (idx2.insert(st.selection, st.property), tr2.insert(st.property, st))
}

/// The index (selection to property) and the transfer states (property to
/// state) describe the same set of transfers.
pub open spec fn maps_agree(idx: Map<u64, u64>, tr: Map<u64, IncrState>) -> bool {
    &&& forall|s: u64| #[trigger]
        idx.contains_key(s) ==> tr.contains_key(idx[s]) && tr[idx[s]].selection == s
    &&& forall|p: u64| #[trigger]
        tr.contains_key(p) ==> tr[p].property == p && idx.contains_key(tr[p].selection)
            && idx[tr[p].selection] == p
}

/// Tearing down the transfer of a selection keeps the index and the
/// transfer states in agreement.
pub proof fn lemma_drop_agrees(idx: Map<u64, u64>, tr: Map<u64, IncrState>, selection: u64)
    requires
        maps_agree(idx, tr),
    ensures
        maps_agree(drop_spec(idx, tr, selection).0, drop_spec(idx, tr, selection).1),
{
    if idx.contains_key(selection) {
        let p = idx[selection];
        let (idx1, tr1) = drop_spec(idx, tr, selection);
        assert forall|q: u64| #[trigger] tr1.contains_key(q) implies tr1[q].property == q
            && idx1.contains_key(tr1[q].selection) && idx1[tr1[q].selection] == q by {
            assert(tr.contains_key(q) && q != p);
            assert(idx.contains_key(tr[q].selection));
        };
    }
}

/// Starting transfer `st` keeps the index and the transfer states in
/// agreement, and records `st` under its property and selection.
pub proof fn lemma_begin_agrees(idx: Map<u64, u64>, tr: Map<u64, IncrState>, st: IncrState)
    requires
        maps_agree(idx, tr),
    ensures
        maps_agree(begin_spec(idx, tr, st).0, begin_spec(idx, tr, st).1),
        begin_spec(idx, tr, st).0[st.selection] == st.property,
        begin_spec(idx, tr, st).1[st.property] == st,
{
    let (idx1, tr1) = drop_spec(idx, tr, st.selection);
    lemma_drop_agrees(idx, tr, st.selection);
    let (idx2, tr2) = if tr1.contains_key(st.property) {
        lemma_drop_agrees(idx1, tr1, tr1[st.property].selection);
        drop_spec(idx1, tr1, tr1[st.property].selection)
    } else {
        (idx1, tr1)
    };
    assert(!idx2.contains_key(st.selection));
    assert(!tr2.contains_key(st.property));
    let idx3 = idx2.insert(st.selection, st.property);
    let tr3 = tr2.insert(st.property, st);
    assert forall|s: u64| #[trigger] idx3.contains_key(s) implies tr3.contains_key(idx3[s])
        && tr3[idx3[s]].selection == s by {
        if s != st.selection {
            assert(idx2.contains_key(s));
        }
    };
    assert forall|q: u64| #[trigger] tr3.contains_key(q) implies tr3[q].property == q
        && idx3.contains_key(tr3[q].selection) && idx3[tr3[q].selection] == q by {
        if q != st.property {
            assert(tr2.contains_key(q));
        }
    };
}

/// The largest payload served in one property write, from the server's
/// maximum request length in 4-byte units.
pub open spec fn max_transfer_spec(server_max: int) -> int {
    (if server_max > 65536 { server_max } else { 65536 }) * 4 - 100
}

/// Bytes of payload that may be written in one request, from the server's
/// maximum request length in 4-byte units.
pub fn max_transfer_size(server_max: u64) -> (r: u64)
    requires
        server_max <= u64::MAX / 4,
    ensures
        r == max_transfer_spec(server_max as int),
{
    let m: u64 = if server_max > 65536 { server_max } else { 65536 };
    m * 4 - 100
}

/// The outcome of claiming a selection: success exactly when the owner that
/// the server reports afterwards is our window.
pub fn ownership_verdict(owner: u64, window: u64) -> (r: Result<(), ErrorKind>)
    ensures
        r == (if owner == window { Ok::<(), ErrorKind>(()) } else { Err(ErrorKind::BadOwner) }),
{
    if owner == window {
        Ok(())
    } else {
        Err(ErrorKind::BadOwner)
    }
}

/// The owner side of selection transfer: answers requests from the selection
/// store and drives outgoing INCR transfers.
pub struct OwnerLoop {
    targets: u64,
    max: usize,
    index: HashMap<u64, u64>,
    transfers: HashMap<u64, IncrState>,
}

impl OwnerLoop {
    /// Selection to transfer property, for transfers in flight.
    pub closed spec fn index_map(&self) -> Map<u64, u64> {
        self.index@
    }

    /// Transfer property to transfer state, for transfers in flight.
    pub closed spec fn transfer_map(&self) -> Map<u64, IncrState> {
        self.transfers@
    }

    /// Payloads of this many bytes or more go by INCR.
    pub closed spec fn max_spec(&self) -> usize {
        self.max
    }

    /// The TARGETS atom.
    pub closed spec fn targets_spec(&self) -> u64 {
        self.targets
    }

    pub open spec fn wf(&self) -> bool {
        maps_agree(self.index_map(), self.transfer_map())
    }

    /// An owner with no transfer in flight.
    pub fn new(targets: u64, max: usize) -> (r: OwnerLoop)
        ensures
            r.wf(),
            r.targets_spec() == targets,
            r.max_spec() == max,
            r.index_map() == Map::<u64, u64>::empty(),
            r.transfer_map() == Map::<u64, IncrState>::empty(),
    {
        OwnerLoop { targets, max, index: HashMap::new(), transfers: HashMap::new() }
    }

    /// The state of the transfer that writes `property`, if one is in flight.
    pub fn transfer(&self, property: u64) -> (r: Option<IncrState>)
        ensures
            r == (if self.transfer_map().contains_key(property) {
                Some(self.transfer_map()[property])
            } else {
                None
            }),
    {
        assert(obeys_key_model::<u64>());
        match self.transfers.get(&property) {
            Some(st) => Some(*st),
            None => None,
        }
    }

    /// Tears down any INCR transfer of `selection`; this is what a store on
    /// that selection announces before it claims ownership.
    pub fn invalidate(&mut self, selection: u64)
        requires
            old(self).wf(),
        ensures
            final(self).wf(),
            final(self).targets_spec() == old(self).targets_spec(),
            final(self).max_spec() == old(self).max_spec(),
            (final(self).index_map(), final(self).transfer_map()) == drop_spec(
                old(self).index_map(),
                old(self).transfer_map(),
                selection,
            ),
    {
        assert(obeys_key_model::<u64>());
        let found = self.index.remove(&selection);
        match found {
            Some(property) => {
                self.transfers.remove(&property);
            },
            None => {},
        }
        proof {
            lemma_drop_agrees(old(self).index_map(), old(self).transfer_map(), selection);
        }
    }

    /// Starts transfer `st`, tearing down any earlier transfer of its
    /// selection and any transfer that wrote its property.
    fn begin_transfer(&mut self, st: IncrState)
        requires
            old(self).wf(),
        ensures
            final(self).wf(),
            final(self).targets_spec() == old(self).targets_spec(),
            final(self).max_spec() == old(self).max_spec(),
            (final(self).index_map(), final(self).transfer_map()) == begin_spec(
                old(self).index_map(),
                old(self).transfer_map(),
                st,
            ),
    {
        self.invalidate(st.selection);
        match self.transfer(st.property) {
            Some(other) => {
                self.invalidate(other.selection);
            },
            None => {},
        }
        let ghost idx2 = self.index_map();
        let ghost tr2 = self.transfer_map();
        assert(obeys_key_model::<u64>());
        self.index.insert(st.selection, st.property);
        self.transfers.insert(st.property, st);
        proof {
            lemma_begin_agrees(old(self).index_map(), old(self).transfer_map(), st);
        }
    }

    /// Answers a SelectionRequest for `target` of `selection`, written to
    /// `property` on `requestor`, from what `store` holds.
    pub fn on_selection_request(
        &mut self,
        store: &SelectionStore,
        selection: u64,
        target: u64,
        property: u64,
        requestor: u64,
    ) -> (r: RequestReply)
        requires
            old(self).wf(),
        ensures
            final(self).wf(),
            final(self).targets_spec() == old(self).targets_spec(),
            final(self).max_spec() == old(self).max_spec(),
            !store@.contains_key(selection) ==> r is Refuse,
            store@.contains_key(selection) && target == old(self).targets_spec() ==> (match r {
                RequestReply::Targets { atoms } => atoms@ == seq![
                    old(self).targets_spec(),
                    store@[selection].0,
                ],
                _ => false,
            }),
            store@.contains_key(selection) && target != old(self).targets_spec() && target
                == store@[selection].0 && store@[selection].1.len() < old(self).max_spec() ==> (
            match r {
                RequestReply::Data { kind, bytes } => kind == target && bytes@
                    == store@[selection].1,
                _ => false,
            }),
            store@.contains_key(selection) && target != old(self).targets_spec() && target
                == store@[selection].0 && store@[selection].1.len() >= old(self).max_spec() ==> r is BeginIncr,
            store@.contains_key(selection) && target != old(self).targets_spec() && target
                != store@[selection].0 ==> r is Ignore,
            r is BeginIncr ==> (final(self).index_map(), final(self).transfer_map()) == begin_spec(
                old(self).index_map(),
                old(self).transfer_map(),
                IncrState { selection, requestor, property, pos: 0 },
            ),
            !(r is BeginIncr) ==> final(self).index_map() == old(self).index_map()
                && final(self).transfer_map() == old(self).transfer_map(),
    {
        match store.lookup(selection) {
            None => RequestReply::Refuse,
            Some(entry) => {
                let stored_target = entry.0;
                if target == self.targets {
                    let mut atoms: Vec<u64> = Vec::new();
                    atoms.push(self.targets);
                    atoms.push(stored_target);
                    assert(atoms@ =~= seq![self.targets, stored_target]);
                    RequestReply::Targets { atoms }
                } else if target == stored_target {
                    if entry.1.len() < self.max {
                        let bytes = copy_range(&entry.1, 0, entry.1.len());
                        assert(entry.1@.subrange(0, entry.1@.len() as int) =~= entry.1@);
                        RequestReply::Data { kind: stored_target, bytes }
                    } else {
                        self.begin_transfer(IncrState { selection, requestor, property, pos: 0 });
                        RequestReply::BeginIncr
                    }
                } else {
                    RequestReply::Ignore
                }
            },
        }
    }

    /// Answers a PropertyNotify on `atom`: on a deletion that belongs to a
    /// transfer in flight, the next chunk of its payload is written; once the
    /// empty chunk that ends the stream has been written, the transfer ends.
    /// A transfer whose payload is gone, or shorter than its offset, ends
    /// without a write.
    pub fn on_property_notify(&mut self, store: &SelectionStore, atom: u64, state: PropertyState) -> (r:
        Option<PropertyWrite>)
        requires
            old(self).wf(),
        ensures
            final(self).wf(),
            final(self).targets_spec() == old(self).targets_spec(),
            final(self).max_spec() == old(self).max_spec(),
            ({
                let idx = old(self).index_map();
                let tr = old(self).transfer_map();
                if state != PropertyState::Delete || !tr.contains_key(atom) {
                    r is None && final(self).index_map() == idx && final(self).transfer_map() == tr
                } else {
                    let st = tr[atom];
                    if !store@.contains_key(st.selection) || st.pos > store@[st.selection].1.len() {
                        r is None && (final(self).index_map(), final(self).transfer_map())
                            == drop_spec(idx, tr, st.selection)
                    } else {
                        let payload = store@[st.selection].1;
                        let chunk = incr_chunk(payload, st.pos as int);
                        &&& r matches Some(w)
                        &&& w.window == st.requestor
                        &&& w.property == st.property
                        &&& w.kind == store@[st.selection].0
                        &&& w.bytes@ == chunk
                        &&& if chunk.len() == 0 {
                            (final(self).index_map(), final(self).transfer_map()) == drop_spec(
                                idx,
                                tr,
                                st.selection,
                            )
                        } else {
                            &&& final(self).transfer_map().contains_key(atom)
                            &&& final(self).transfer_map()[atom].pos == st.pos + chunk.len()
                            &&& final(self).index_map() == idx
                            &&& final(self).transfer_map() == tr.insert(
                                atom,
                                IncrState { pos: final(self).transfer_map()[atom].pos, ..st },
                            )
                        }
                    }
                }
            }),
    {
        if state != PropertyState::Delete {
            return None;
        }
        let st = match self.transfer(atom) {
            Some(st) => st,
            None => {
                return None;
            },
        };
        let entry = match store.lookup(st.selection) {
            Some(entry) => entry,
            None => {
                self.invalidate(st.selection);
                return None;
            },
        };
        let len = entry.1.len();
        if st.pos > len {
            self.invalidate(st.selection);
            return None;
        }
        let end: usize = if len - st.pos >= INCR_CHUNK_SIZE { st.pos + INCR_CHUNK_SIZE } else { len };
        let bytes = copy_range(&entry.1, st.pos, end);
        let w = PropertyWrite { window: st.requestor, property: st.property, kind: entry.0, bytes };
        if end == st.pos {
            self.invalidate(st.selection);
        } else {
            assert(obeys_key_model::<u64>());
            self.transfers.insert(atom, IncrState { pos: end, ..st });
            proof {
                let tr = self.transfer_map();
                let idx = self.index_map();
                assert forall|s: u64| #[trigger]
                    idx.contains_key(s) implies tr.contains_key(idx[s]) && tr[idx[s]].selection == s by {
                    assert(old(self).transfer_map().contains_key(idx[s]));
                };
                assert forall|q: u64| #[trigger]
                    tr.contains_key(q) implies tr[q].property == q && idx.contains_key(tr[q].selection)
                    && idx[tr[q].selection] == q by {
                    assert(old(self).transfer_map().contains_key(q));
                };
            }
        }
        Some(w)
    }

    /// Answers a SelectionClear: the selection is no longer ours, so its
    /// transfer is torn down and its payload forgotten.
    pub fn on_selection_clear(&mut self, store: &mut SelectionStore, selection: u64)
        requires
            old(self).wf(),
        ensures
            final(self).wf(),
            final(self).targets_spec() == old(self).targets_spec(),
            final(self).max_spec() == old(self).max_spec(),
            (final(self).index_map(), final(self).transfer_map()) == drop_spec(
                old(self).index_map(),
                old(self).transfer_map(),
                selection,
            ),
            final(store)@ == old(store)@.remove(selection),
    {
        self.invalidate(selection);
        store.erase(selection);
    }
}

} // verus!
