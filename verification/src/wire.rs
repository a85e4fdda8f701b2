//! The binary form in which envelopes and snapshots travel.
//!
//! The bytes are bincode's, in its default configuration. An envelope
//! travels as the tuple of its fields, its kind as a 32-bit tag; a snapshot
//! as the slots and the cursor of the history followed by the directory's
//! pairs. This module turns the library's values into such tuples and back,
//! and checks what comes back; only the byte layout itself is left to
//! bincode.

use crate::directory::{lemma_upserted_all_distinct, upserted_all, PeerDirectory};
use crate::history::{slots_well_formed, History, HISTORY_SIZE};
use crate::state::{slot_views, MessageType, Msg, MsgView, SnapshotView, State};
use vstd::prelude::*;

verus! {

/// The error of bincode, carried through as it is.
#[verifier::external_type_specification]
#[verifier::external_body]
pub struct ExErrorKind(bincode::ErrorKind);

/// The fields that bincode reads from `raw` as an envelope, or `None` where
/// it rejects the bytes.
pub uninterp spec fn decoded_envelope(raw: Seq<u8>) -> Option<
    (u32, Seq<u8>, Option<Seq<char>>, Seq<char>),
>;

/// The parts that bincode reads from `raw` as a snapshot, or `None` where
/// it rejects the bytes: the slots and the cursor of the history, then the
/// pairs of the directory.
pub uninterp spec fn decoded_snapshot(raw: Seq<u8>) -> Option<
    (
        (Seq<Option<(u32, Seq<u8>, Option<Seq<char>>, Seq<char>)>>, usize),
        Seq<(Seq<char>, Seq<char>)>,
    ),
>;

/// Why received bytes were dropped.
#[derive(Debug, Clone, Copy, PartialEq, Eq, Structural)]
pub enum DecodeError {
    /// The codec rejected the bytes.
    Codec,
    /// A kind tag names no kind of envelope.
    Kind,
    /// The slots and the cursor of a history are such as no log can have.
    Layout,
}

/// The tag under which a kind travels.
pub open spec fn kind_tag(kind: MessageType) -> u32 {
    match kind {
        MessageType::Message => 0,
        MessageType::State => 1,
    }
}

/// The fields of an envelope as they travel.
pub open spec fn envelope_to_wire(m: MsgView) -> (u32, Seq<u8>, Option<Seq<char>>, Seq<char>) {
    (kind_tag(m.message_type), m.data, m.addressee, m.source)
}

/// The envelope that travelling fields stand for, if their tag names a kind.
pub open spec fn envelope_from_wire(w: (u32, Seq<u8>, Option<Seq<char>>, Seq<char>)) -> Option<
    MsgView,
> {
    if w.0 == 0 {
        Some(MsgView { message_type: MessageType::Message, data: w.1, addressee: w.2, source: w.3 })
    } else if w.0 == 1 {
        Some(MsgView { message_type: MessageType::State, data: w.1, addressee: w.2, source: w.3 })
    } else {
        None
    }
}

/// What received bytes are as an envelope.
pub open spec fn envelope_of_bytes(raw: Seq<u8>) -> Result<MsgView, DecodeError> {
    match decoded_envelope(raw) {
        None => Err(DecodeError::Codec),
        Some(w) => match envelope_from_wire(w) {
            None => Err(DecodeError::Kind),
            Some(m) => Ok(m),
        },
    }
}

/// A slot of a history as it travels.
pub open spec fn slot_to_wire(slot: Option<MsgView>) -> Option<
    (u32, Seq<u8>, Option<Seq<char>>, Seq<char>),
> {
    match slot {
        Some(m) => Some(envelope_to_wire(m)),
        None => None,
    }
}

/// The slot that a travelling slot stands for.
pub open spec fn slot_from_wire(slot: Option<(u32, Seq<u8>, Option<Seq<char>>, Seq<char>)>) -> Option<
    MsgView,
> {
    match slot {
        Some(w) => envelope_from_wire(w),
        None => None,
    }
}

/// A travelling slot is empty or holds fields whose tag names a kind.
pub open spec fn slot_kind_known(slot: Option<(u32, Seq<u8>, Option<Seq<char>>, Seq<char>)>) -> bool {
    slot matches Some(w) ==> envelope_from_wire(w) is Some
}

/// The parts of a snapshot as they travel.
pub open spec fn snapshot_to_wire(s: SnapshotView) -> (
    (Seq<Option<(u32, Seq<u8>, Option<Seq<char>>, Seq<char>)>>, usize),
    Seq<(Seq<char>, Seq<char>)>,
) {
    ((s.slots.map_values(|slot: Option<MsgView>| slot_to_wire(slot)), s.cursor as usize), s.names)
}

/// The snapshot that travelling parts stand for. An unknown kind in any
/// slot is refused first, then slots and a cursor that no log can have. Of
/// two pairs that name one peer the later wins.
pub open spec fn snapshot_from_wire(
    w: (
        (Seq<Option<(u32, Seq<u8>, Option<Seq<char>>, Seq<char>)>>, usize),
        Seq<(Seq<char>, Seq<char>)>,
    ),
) -> Result<SnapshotView, DecodeError> {
    let slots = w.0.0.map_values(
        |slot: Option<(u32, Seq<u8>, Option<Seq<char>>, Seq<char>)>| slot_from_wire(slot),
    );
    if exists|i: int| 0 <= i < w.0.0.len() && !slot_kind_known(#[trigger] w.0.0[i]) {
        Err(DecodeError::Kind)
    } else if !slots_well_formed(slots, w.0.1 as int) {
        Err(DecodeError::Layout)
    } else {
        Ok(
            SnapshotView {
                slots,
                cursor: w.0.1 as int,
                names: upserted_all(Seq::empty(), w.1),
            },
        )
    }
}

/// What received bytes are as a snapshot.
pub open spec fn snapshot_of_bytes(raw: Seq<u8>) -> Result<SnapshotView, DecodeError> {
    match decoded_snapshot(raw) {
        None => Err(DecodeError::Codec),
        Some(w) => snapshot_from_wire(w),
    }
}

/// Calls `bincode::deserialize` for the nested tuple of a snapshot's parts.
/// Trusted: what comes back is what [`decoded_snapshot`] names for these
/// bytes, an error standing for `None`.
#[verifier::external_body]
fn decode_snapshot_parts(
    raw: &Vec<u8>,
) -> (parts: Result<
    (([Option<(u32, Vec<u8>, Option<String>, String)>; 32], usize), Vec<(String, String)>),
    Box<bincode::ErrorKind>,
>)
    ensures
        match parts {
            Ok(p) => decoded_snapshot(raw@) == Some(p.deep_view()),
            Err(_) => decoded_snapshot(raw@) is None,
        },
{
    bincode::deserialize(raw)
}

/// Calls `bincode::serialize` on the nested tuple of a snapshot's parts.
/// Trusted: the call succeeds on such a tuple, and bincode reads the same
/// parts back from the bytes it wrote.
#[verifier::external_body]
fn encode_snapshot_parts(
    parts: &(([Option<(u32, Vec<u8>, Option<String>, String)>; 32], usize), Vec<(String, String)>),
) -> (bytes: Result<Vec<u8>, Box<bincode::ErrorKind>>)
    ensures
        bytes is Ok,
        bytes matches Ok(b) ==> decoded_snapshot(b@) == Some(parts.deep_view()),
{
    bincode::serialize(parts)
}

/// Calls `bincode::deserialize` for the tuple of an envelope's fields.
/// Trusted: what comes back is what [`decoded_envelope`] names for these
/// bytes, an error standing for `None`.
#[verifier::external_body]
fn decode_envelope_parts(
    raw: &Vec<u8>,
) -> (parts: Result<(u32, Vec<u8>, Option<String>, String), Box<bincode::ErrorKind>>)
    ensures
        match parts {
            Ok(p) => decoded_envelope(raw@) == Some(p.deep_view()),
            Err(_) => decoded_envelope(raw@) is None,
        },
{
    bincode::deserialize(raw)
}

/// Calls `bincode::serialize` on the tuple of an envelope's fields.
/// Trusted: the call succeeds on such a tuple, and bincode reads the same
/// fields back from the bytes it wrote.
#[verifier::external_body]
fn encode_envelope_parts(
    parts: &(u32, Vec<u8>, Option<String>, String),
) -> (bytes: Result<Vec<u8>, Box<bincode::ErrorKind>>)
    ensures
        bytes is Ok,
        bytes matches Ok(b) ==> decoded_envelope(b@) == Some(parts.deep_view()),
{
    bincode::serialize(parts)
}

impl Msg {
    /// The fields of the envelope as they travel.
    pub fn to_wire(&self) -> (parts: (u32, Vec<u8>, Option<String>, String))
        ensures
            parts.deep_view() == envelope_to_wire(self@),
    {
        let tag: u32 = match self.message_type {
            MessageType::Message => 0,
            MessageType::State => 1,
        };
        let addressee = match &self.addressee {
            Some(peer_id) => Some(peer_id.clone()),
            None => None,
        };
        (tag, self.data.clone(), addressee, self.source.clone())
    }

    /// The envelope that travelling fields stand for. Fields whose tag names
    /// no kind give `None`.
    pub fn from_wire(parts: &(u32, Vec<u8>, Option<String>, String)) -> (envelope: Option<Msg>)
        ensures
            envelope is Some <==> envelope_from_wire(parts.deep_view()) is Some,
            envelope matches Some(m) ==> Some(m@) == envelope_from_wire(parts.deep_view()),
    {
        let message_type = if parts.0 == 0 {
            MessageType::Message
        } else if parts.0 == 1 {
            MessageType::State
        } else {
            return None;
        };
        let addressee = match &parts.2 {
            Some(peer_id) => Some(peer_id.clone()),
            None => None,
        };
        let m = Msg { message_type, data: parts.1.clone(), addressee, source: parts.3.clone() };
        assert(m.data@ =~= parts.1.deep_view());
        Some(m)
    }

    /// The bytes under which the envelope travels.
    pub fn encode(&self) -> (bytes: Vec<u8>)
        ensures
            envelope_of_bytes(bytes@) == Ok::<MsgView, DecodeError>(self@),
    {
        let parts = self.to_wire();
        match encode_envelope_parts(&parts) {
            Ok(bytes) => bytes,
            Err(_) => unreached(),
        }
    }

    /// Reads received bytes as an envelope.
    pub fn decode(raw: &Vec<u8>) -> (envelope: Result<Msg, DecodeError>)
        ensures
            match envelope {
                Ok(m) => envelope_of_bytes(raw@) == Ok::<MsgView, DecodeError>(m@),
                Err(e) => envelope_of_bytes(raw@) == Err::<MsgView, DecodeError>(e),
            },
    {
        match decode_envelope_parts(raw) {
            Err(_) => Err(DecodeError::Codec),
            Ok(parts) => match Msg::from_wire(&parts) {
                Some(m) => Ok(m),
                None => Err(DecodeError::Kind),
            },
        }
    }
}

/// A snapshot that travelled is read back as it was.
pub proof fn lemma_snapshot_round_trip(s: SnapshotView)
    requires
        s.well_formed(),
    ensures
        snapshot_from_wire(snapshot_to_wire(s)) == Ok::<SnapshotView, DecodeError>(s),
{
    let w = snapshot_to_wire(s);
    let slots = w.0.0.map_values(
        |slot: Option<(u32, Seq<u8>, Option<Seq<char>>, Seq<char>)>| slot_from_wire(slot),
    );
    assert forall|i: int| 0 <= i < w.0.0.len() implies slot_kind_known(#[trigger] w.0.0[i]) by {
        assert(w.0.0[i] == slot_to_wire(s.slots[i]));
    }
    assert(slots =~= s.slots);
    lemma_upserted_all_distinct(s.names);
}

impl State {
    /// The parts of the state as they travel.
    pub fn to_wire(&self) -> (parts: (
        ([Option<(u32, Vec<u8>, Option<String>, String)>; 32], usize),
        Vec<(String, String)>,
    ))
        requires
            self.well_formed(),
        ensures
            parts.deep_view() == snapshot_to_wire(self.snapshot()),
    {
        let mut slots: [Option<(u32, Vec<u8>, Option<String>, String)>; 32] = [
            None, None, None, None, None, None, None, None,
            None, None, None, None, None, None, None, None,
            None, None, None, None, None, None, None, None,
            None, None, None, None, None, None, None, None,
        ];
        let ghost plain = self.snapshot().slots;
        let mut i: usize = 0;
        while i < HISTORY_SIZE
            invariant
                i <= HISTORY_SIZE,
                self.well_formed(),
                plain == self.snapshot().slots,
                slots@.len() == HISTORY_SIZE,
                forall|j: int| 0 <= j < i ==> (#[trigger] slots@[j]).deep_view() == slot_to_wire(plain[j]),
                forall|j: int| i <= j < HISTORY_SIZE ==> (#[trigger] slots@[j]) is None,
            decreases HISTORY_SIZE - i,
        {
            match self.history.get(i) {
                Some(m) => {
                    slots[i] = Some(m.to_wire());
                },
                None => {},
            }
            i += 1;
        }
        let mut names: Vec<(String, String)> = Vec::new();
        let n = self.usernames.len();
        let mut k: usize = 0;
        while k < n
            invariant
                k <= n,
                n == self.usernames.entries().len(),
                names.deep_view() == self.usernames.entries().take(k as int),
            decreases n - k,
        {
            let (peer_id, name) = self.usernames.entry(k);
            let ghost before = names.deep_view();
            names.push((peer_id.clone(), name.clone()));
            assert(names.deep_view() =~= before.push((peer_id@, name@)));
            k += 1;
        }
        ((slots, self.history.cursor_position()), names)
    }

    /// The state that travelling parts stand for, or why they stand for none.
    pub fn from_wire(
        parts: &(
            ([Option<(u32, Vec<u8>, Option<String>, String)>; 32], usize),
            Vec<(String, String)>,
        ),
    ) -> (state: Result<State, DecodeError>)
        ensures
            match state {
                Ok(s) => s.well_formed() && snapshot_from_wire(parts.deep_view()) == Ok::<
                    SnapshotView,
                    DecodeError,
                >(s.snapshot()),
                Err(e) => snapshot_from_wire(parts.deep_view()) == Err::<SnapshotView, DecodeError>(
                    e,
                ),
            },
    {
        let ghost wire = parts.deep_view();
        let mut slots: Vec<Option<Msg>> = Vec::new();
        let mut i: usize = 0;
        while i < HISTORY_SIZE
            invariant
                i <= HISTORY_SIZE,
                wire == parts.deep_view(),
                wire.0.0.len() == HISTORY_SIZE,
                slots@.len() == i,
                forall|j: int| 0 <= j < i ==> slot_kind_known(#[trigger] wire.0.0[j]),
                forall|j: int|
                    0 <= j < i ==> (#[trigger] slot_views(slots@)[j]) == slot_from_wire(wire.0.0[j]),
            decreases HISTORY_SIZE - i,
        {
            let ghost before = slots@;
            match &parts.0.0[i] {
                None => {
                    slots.push(None);
                },
                Some(fields) => {
                    match Msg::from_wire(fields) {
                        Some(m) => {
                            slots.push(Some(m));
                        },
                        None => {
                            assert(!slot_kind_known(wire.0.0[i as int]));
                            return Err(DecodeError::Kind);
                        },
                    }
                },
            }
            proof {
                assert forall|j: int| 0 <= j < i + 1 implies (#[trigger] slot_views(slots@)[j])
                    == slot_from_wire(wire.0.0[j]) by {
                    if j < i {
                        assert(slot_views(before)[j] == slot_from_wire(wire.0.0[j]));
                    }
                }
            }
            i += 1;
        }
        proof {
            let held = slots@;
            let plain = slot_views(held);
            assert(plain =~= wire.0.0.map_values(
                |slot: Option<(u32, Seq<u8>, Option<Seq<char>>, Seq<char>)>| slot_from_wire(slot),
            ));
            assert forall|j: int|
                #![trigger plain[j]]
                #![trigger held[j]]
                0 <= j < HISTORY_SIZE implies (plain[j] is Some <==> held[j] is Some) by {}
        }
        let history = match History::from_parts(slots, parts.0.1) {
            Some(history) => history,
            None => {
                return Err(DecodeError::Layout);
            },
        };
        let mut usernames = PeerDirectory::new();
        let n = parts.1.len();
        let mut k: usize = 0;
        while k < n
            invariant
                k <= n,
                n == parts.1@.len(),
                wire == parts.deep_view(),
                usernames.well_formed(),
                usernames.entries() == upserted_all(Seq::empty(), wire.1.take(k as int)),
            decreases n - k,
        {
            let pair = &parts.1[k];
            usernames.upsert(pair.0.clone(), pair.1.clone());
            assert(wire.1.take(k + 1).drop_last() =~= wire.1.take(k as int));
            k += 1;
        }
        assert(wire.1.take(n as int) =~= wire.1);
        Ok(State { history, usernames })
    }

    /// The bytes under which a snapshot of the state travels.
    pub fn encode(&self) -> (bytes: Vec<u8>)
        requires
            self.well_formed(),
        ensures
            snapshot_of_bytes(bytes@) == Ok::<SnapshotView, DecodeError>(self.snapshot()),
    {
        let parts = self.to_wire();
        proof {
            self.lemma_snapshot();
            lemma_snapshot_round_trip(self.snapshot());
        }
        match encode_snapshot_parts(&parts) {
            Ok(bytes) => bytes,
            Err(_) => unreached(),
        }
    }

    /// Reads received bytes as a snapshot.
    pub fn decode(raw: &Vec<u8>) -> (state: Result<State, DecodeError>)
        ensures
            match state {
                Ok(s) => s.well_formed() && snapshot_of_bytes(raw@) == Ok::<
                    SnapshotView,
                    DecodeError,
                >(s.snapshot()),
                Err(e) => snapshot_of_bytes(raw@) == Err::<SnapshotView, DecodeError>(e),
            },
    {
        match decode_snapshot_parts(raw) {
            Err(_) => Err(DecodeError::Codec),
            Ok(parts) => State::from_wire(&parts),
        }
    }
}

} // verus!
