use x11_clipboard::{
    max_transfer_size, ownership_verdict, timed_out, ChunkStep, ErrorKind, Loader, OwnerLoop,
    PropertyState, ReplyStep, RequestReply, SelectionStore, INCR_CHUNK_SIZE, NONE_ATOM,
};

const CLIPBOARD: u64 = 100;
const PRIMARY: u64 = 1;
const UTF8_STRING: u64 = 101;
const TARGETS: u64 = 102;
const INCR: u64 = 103;
const PROPERTY: u64 = 104;
const STRING: u64 = 31;
const REQUESTOR: u64 = 500;
const ATOM: u64 = 4;

/// Plays one conversion between an owner and a requestor, standing in for the
/// server. `None` means that no SelectionNotify came, so the load would time out.
fn convert(
    owner: &mut OwnerLoop,
    store: &SelectionStore,
    selection: u64,
    target: u64,
) -> Option<Result<Vec<u8>, ErrorKind>> {
    let mut loader = Loader::new(selection, target, INCR, TARGETS, ATOM);
    let reply = owner.on_selection_request(store, selection, target, PROPERTY, REQUESTOR);
    let (notified, kind, data, hint) = match reply {
        RequestReply::Ignore => return None,
        RequestReply::Refuse => (NONE_ATOM, 0, Vec::new(), None),
        RequestReply::Targets { atoms } => {
            let mut data = Vec::new();
            for a in atoms {
                data.extend_from_slice(&(a as u32).to_ne_bytes());
            }
            (PROPERTY, ATOM, data, None)
        }
        RequestReply::Data { kind, bytes } => (PROPERTY, kind, bytes, None),
        RequestReply::BeginIncr => {
            let len = store.read(selection).map(|e| e.1.len()).unwrap_or(0);
            (PROPERTY, INCR, Vec::new(), Some(len as i64))
        }
    };
    match loader.on_selection_notify(selection, notified) {
        Err(e) => return Some(Err(e)),
        Ok(false) => return None,
        Ok(true) => {}
    }
    match loader.on_reply(kind, &data, hint) {
        ReplyStep::Done => return Some(Ok(loader.into_bytes())),
        ReplyStep::Ignore => return None,
        ReplyStep::AwaitChunks => {}
    }
    loop {
        let w = owner.on_property_notify(store, PROPERTY, PropertyState::Delete)?;
        assert_eq!(w.window, REQUESTOR);
        assert_eq!(w.property, PROPERTY);
        assert_eq!(w.kind, target);
        assert!(w.bytes.len() <= INCR_CHUNK_SIZE);
        assert!(loader.wants_chunk(PropertyState::NewValue));
        if loader.on_chunk(&w.bytes) == ChunkStep::Done {
            break;
        }
    }
    assert!(owner.transfer(PROPERTY).is_none());
    Some(Ok(loader.into_bytes()))
}

fn load(owner: &mut OwnerLoop, store: &SelectionStore, selection: u64, target: u64) -> Vec<u8> {
    convert(owner, store, selection, target).unwrap().unwrap()
}

fn default_max() -> usize {
    max_transfer_size(0) as usize
}

fn round_trip(len: usize, max: usize) {
    let payload: Vec<u8> = (0..len).map(|i| (i % 251) as u8).collect();
    let mut store = SelectionStore::new();
    let mut owner = OwnerLoop::new(TARGETS, max);
    store.write(CLIPBOARD, UTF8_STRING, payload.clone());
    assert_eq!(load(&mut owner, &store, CLIPBOARD, UTF8_STRING), payload);
}

#[test]
fn store_then_load_hello() {
    let mut store = SelectionStore::new();
    let mut owner = OwnerLoop::new(TARGETS, default_max());
    store.write(CLIPBOARD, UTF8_STRING, b"hello".to_vec());
    let out = load(&mut owner, &store, CLIPBOARD, UTF8_STRING);
    assert_eq!(out, vec![0x68, 0x65, 0x6c, 0x6c, 0x6f]);
}

#[test]
fn million_bytes_go_by_incr() {
    let mut store = SelectionStore::new();
    let mut owner = OwnerLoop::new(TARGETS, default_max());
    store.write(CLIPBOARD, UTF8_STRING, vec![0xAB; 1_000_000]);
    let reply = owner.on_selection_request(&store, CLIPBOARD, UTF8_STRING, PROPERTY, REQUESTOR);
    assert!(matches!(reply, RequestReply::BeginIncr));
    let st = owner.transfer(PROPERTY).unwrap();
    assert_eq!((st.selection, st.requestor, st.property, st.pos), (CLIPBOARD, REQUESTOR, PROPERTY, 0));
    let out = load(&mut owner, &store, CLIPBOARD, UTF8_STRING);
    assert_eq!(out.len(), 1_000_000);
    assert!(out.iter().all(|&b| b == 0xAB));
}

#[test]
fn second_store_wins() {
    let mut store = SelectionStore::new();
    let mut owner = OwnerLoop::new(TARGETS, default_max());
    store.write(CLIPBOARD, UTF8_STRING, b"v1".to_vec());
    owner.invalidate(CLIPBOARD);
    store.write(CLIPBOARD, UTF8_STRING, b"v2".to_vec());
    assert_eq!(load(&mut owner, &store, CLIPBOARD, UTF8_STRING), b"v2".to_vec());
}

#[test]
fn store_during_incr_drops_old_transfer() {
    let mut store = SelectionStore::new();
    let mut owner = OwnerLoop::new(TARGETS, 10);
    store.write(CLIPBOARD, UTF8_STRING, vec![1; 50]);
    owner.on_selection_request(&store, CLIPBOARD, UTF8_STRING, PROPERTY, REQUESTOR);
    assert!(owner.on_property_notify(&store, PROPERTY, PropertyState::Delete).is_some());
    owner.invalidate(CLIPBOARD);
    assert!(owner.transfer(PROPERTY).is_none());
    store.write(CLIPBOARD, UTF8_STRING, vec![2; 30]);
    assert!(owner.on_property_notify(&store, PROPERTY, PropertyState::Delete).is_none());
    assert_eq!(load(&mut owner, &store, CLIPBOARD, UTF8_STRING), vec![2; 30]);
}

#[test]
fn load_twice_gives_same_bytes() {
    let mut store = SelectionStore::new();
    let mut owner = OwnerLoop::new(TARGETS, 100);
    store.write(CLIPBOARD, UTF8_STRING, vec![7; 1000]);
    let a = load(&mut owner, &store, CLIPBOARD, UTF8_STRING);
    let b = load(&mut owner, &store, CLIPBOARD, UTF8_STRING);
    assert_eq!(a, vec![7; 1000]);
    assert_eq!(a, b);
}

#[test]
fn incr_boundaries() {
    let max = default_max();
    for len in [
        INCR_CHUNK_SIZE - 1,
        INCR_CHUNK_SIZE,
        INCR_CHUNK_SIZE + 1,
        2 * INCR_CHUNK_SIZE,
        3 * INCR_CHUNK_SIZE,
        max - 1,
        max,
        max + 1,
    ] {
        round_trip(len, max);
    }
}

#[test]
fn incr_boundaries_small_limit() {
    for len in [0, 1, INCR_CHUNK_SIZE - 1, INCR_CHUNK_SIZE, INCR_CHUNK_SIZE + 1, 4 * INCR_CHUNK_SIZE] {
        round_trip(len, 0);
    }
}

#[test]
fn incr_chunks_have_the_chunk_size() {
    let mut store = SelectionStore::new();
    let mut owner = OwnerLoop::new(TARGETS, 0);
    store.write(CLIPBOARD, STRING, vec![9; 2 * INCR_CHUNK_SIZE + 5]);
    owner.on_selection_request(&store, CLIPBOARD, STRING, PROPERTY, REQUESTOR);
    let sizes: Vec<usize> = (0..4)
        .map(|_| owner.on_property_notify(&store, PROPERTY, PropertyState::Delete).unwrap().bytes.len())
        .collect();
    assert_eq!(sizes, vec![4000, 4000, 5, 0]);
    assert!(owner.on_property_notify(&store, PROPERTY, PropertyState::Delete).is_none());
}

#[test]
fn property_new_value_is_not_a_request_for_more() {
    let mut store = SelectionStore::new();
    let mut owner = OwnerLoop::new(TARGETS, 0);
    store.write(CLIPBOARD, STRING, vec![9; 10]);
    owner.on_selection_request(&store, CLIPBOARD, STRING, PROPERTY, REQUESTOR);
    assert!(owner.on_property_notify(&store, PROPERTY, PropertyState::NewValue).is_none());
    assert_eq!(owner.transfer(PROPERTY).unwrap().pos, 0);
}

#[test]
fn max_transfer_size_formula() {
    assert_eq!(max_transfer_size(0), 262_044);
    assert_eq!(max_transfer_size(65_536), 262_044);
    assert_eq!(max_transfer_size(4_194_303), 16_777_112);
}

#[test]
fn timeout_decision() {
    assert!(timed_out(100, Some(100)));
    assert!(timed_out(150, Some(100)));
    assert!(!timed_out(99, Some(100)));
    assert!(!timed_out(1_000_000, None));
}

#[test]
fn no_owner_means_timeout() {
    // With no owner the server answers nothing; the load only ends by its deadline.
    let loader = Loader::new(CLIPBOARD, UTF8_STRING, INCR, TARGETS, ATOM);
    let mut elapsed = 0;
    while !timed_out(elapsed, Some(100)) {
        elapsed += x11_clipboard::POLL_DURATION;
    }
    assert!(elapsed >= 100 && elapsed < 100 + x11_clipboard::POLL_DURATION);
    assert!(loader.bytes().is_empty());
}

#[test]
fn refused_conversion_is_bad_target() {
    let store = SelectionStore::new();
    let mut owner = OwnerLoop::new(TARGETS, default_max());
    assert_eq!(convert(&mut owner, &store, CLIPBOARD, UTF8_STRING), Some(Err(ErrorKind::BadTarget)));
    let loader = Loader::new(CLIPBOARD, UTF8_STRING, INCR, TARGETS, ATOM);
    assert_eq!(loader.on_selection_notify(CLIPBOARD, NONE_ATOM), Err(ErrorKind::BadTarget));
    assert_eq!(loader.on_selection_notify(PRIMARY, NONE_ATOM), Ok(false));
    assert_eq!(loader.on_selection_notify(CLIPBOARD, PROPERTY), Ok(true));
}

#[test]
fn unsupported_target_is_ignored() {
    let mut store = SelectionStore::new();
    let mut owner = OwnerLoop::new(TARGETS, default_max());
    store.write(CLIPBOARD, UTF8_STRING, b"x".to_vec());
    assert_eq!(convert(&mut owner, &store, CLIPBOARD, STRING), None);
}

#[test]
fn bad_owner_verdict() {
    assert_eq!(ownership_verdict(42, 42), Ok(()));
    assert_eq!(ownership_verdict(43, 42), Err(ErrorKind::BadOwner));
}

#[test]
fn targets_lists_two_atoms() {
    let mut store = SelectionStore::new();
    let mut owner = OwnerLoop::new(TARGETS, default_max());
    store.write(CLIPBOARD, UTF8_STRING, b"abc".to_vec());
    match owner.on_selection_request(&store, CLIPBOARD, TARGETS, PROPERTY, REQUESTOR) {
        RequestReply::Targets { atoms } => assert_eq!(atoms, vec![TARGETS, UTF8_STRING]),
        other => panic!("unexpected reply {:?}", other),
    }
}

#[test]
fn empty_payload_round_trip() {
    let mut store = SelectionStore::new();
    let mut owner = OwnerLoop::new(TARGETS, default_max());
    store.write(CLIPBOARD, UTF8_STRING, Vec::new());
    let reply = owner.on_selection_request(&store, CLIPBOARD, UTF8_STRING, PROPERTY, REQUESTOR);
    assert!(matches!(reply, RequestReply::Data { kind: UTF8_STRING, ref bytes } if bytes.is_empty()));
    assert_eq!(load(&mut owner, &store, CLIPBOARD, UTF8_STRING), Vec::<u8>::new());
}

#[test]
fn selection_clear_forgets_payload_and_transfer() {
    let mut store = SelectionStore::new();
    let mut owner = OwnerLoop::new(TARGETS, 0);
    store.write(CLIPBOARD, UTF8_STRING, vec![1; 10]);
    store.write(PRIMARY, STRING, vec![2; 3]);
    owner.on_selection_request(&store, CLIPBOARD, UTF8_STRING, PROPERTY, REQUESTOR);
    owner.on_selection_clear(&mut store, CLIPBOARD);
    assert!(owner.transfer(PROPERTY).is_none());
    assert_eq!(store.read(CLIPBOARD), None);
    assert_eq!(store.read(PRIMARY), Some((STRING, vec![2; 3])));
    assert_eq!(convert(&mut owner, &store, CLIPBOARD, UTF8_STRING), Some(Err(ErrorKind::BadTarget)));
}

#[test]
fn incr_hint_is_reserved() {
    let mut loader = Loader::new(CLIPBOARD, UTF8_STRING, INCR, TARGETS, ATOM);
    assert_eq!(loader.on_reply(INCR, &Vec::new(), Some(5000)), ReplyStep::AwaitChunks);
    assert!(loader.is_incr());
    assert_eq!(loader.reserved(), 5000);
    assert_eq!(loader.on_reply(STRING, &vec![1, 2], None), ReplyStep::Ignore);
    assert!(!loader.wants_chunk(PropertyState::Delete));
    assert_eq!(loader.on_chunk(&vec![1, 2, 3]), ChunkStep::More);
    assert_eq!(loader.on_chunk(&Vec::new()), ChunkStep::Done);
    assert_eq!(loader.into_bytes(), vec![1, 2, 3]);
}

#[test]
fn error_descriptions() {
    assert_eq!(ErrorKind::Timeout.description(), "Load selection timeout");
    assert_eq!(ErrorKind::BadOwner.description(), "Bad selection owner");
}

#[test]
fn targets_load_returns_atom_items() {
    let mut store = SelectionStore::new();
    let mut owner = OwnerLoop::new(TARGETS, default_max());
    store.write(CLIPBOARD, UTF8_STRING, b"hello".to_vec());
    let out = load(&mut owner, &store, CLIPBOARD, TARGETS);
    let mut expected = Vec::new();
    expected.extend_from_slice(&(TARGETS as u32).to_ne_bytes());
    expected.extend_from_slice(&(UTF8_STRING as u32).to_ne_bytes());
    assert_eq!(out, expected);
}

#[test]
fn atom_reply_is_ignored_for_other_targets() {
    let mut loader = Loader::new(CLIPBOARD, UTF8_STRING, INCR, TARGETS, ATOM);
    assert_eq!(loader.on_reply(ATOM, &vec![1, 0, 0, 0], None), ReplyStep::Ignore);
    assert!(loader.bytes().is_empty());
}

#[test]
fn million_bytes_take_250_chunks() {
    let mut store = SelectionStore::new();
    let mut owner = OwnerLoop::new(TARGETS, default_max());
    store.write(CLIPBOARD, UTF8_STRING, vec![0xAB; 1_000_000]);
    let reply = owner.on_selection_request(&store, CLIPBOARD, UTF8_STRING, PROPERTY, REQUESTOR);
    assert!(matches!(reply, RequestReply::BeginIncr));
    let mut sizes = Vec::new();
    while let Some(w) = owner.on_property_notify(&store, PROPERTY, PropertyState::Delete) {
        assert!(w.bytes.iter().all(|&b| b == 0xAB));
        sizes.push(w.bytes.len());
    }
    assert_eq!(sizes.len(), 251);
    assert!(sizes[..250].iter().all(|&n| n == 4000));
    assert_eq!(sizes[250], 0);
    assert!(owner.transfer(PROPERTY).is_none());
}

#[test]
fn incr_reservation_out_of_range_is_skipped() {
    let mut loader = Loader::new(CLIPBOARD, UTF8_STRING, INCR, TARGETS, ATOM);
    assert_eq!(loader.reserved(), 0);
    assert_eq!(loader.on_reply(INCR, &Vec::new(), Some(-1)), ReplyStep::AwaitChunks);
    assert_eq!(loader.reserved(), 0);
    assert_eq!(loader.on_reply(INCR, &Vec::new(), Some(0x8000_0000)), ReplyStep::AwaitChunks);
    assert_eq!(loader.reserved(), 0);
}
