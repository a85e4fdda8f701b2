//! A node's view of the chat, and its reconciliation with the view of
//! another peer.

use crate::console::{joined_line, joined_notice, lossy_text, message_line, message_notice, text_of};
use crate::directory::{
    distinct_keys, insert_all, pairs_to_map, resolved_name, upserted_all, PeerDirectory,
};
use crate::history::{live_entries, slots_well_formed, History, HISTORY_SIZE};
use vstd::prelude::*;

verus! {

/// What an envelope carries.
#[derive(Debug, Clone, Copy, PartialEq, Eq, Structural)]
pub enum MessageType {
    /// A line of chat.
    Message,
    /// A snapshot of the sender's state.
    State,
}

/// The unit of exchange between nodes.
///
/// Without an addressee the envelope is a broadcast. With one, only the node
/// of that identifier acts on it.
#[derive(Debug, PartialEq, Eq)]
pub struct Msg {
    pub message_type: MessageType,
    pub data: Vec<u8>,
    pub addressee: Option<String>,
    pub source: String,
}

/// An envelope as plain values.
pub struct MsgView {
    pub message_type: MessageType,
    pub data: Seq<u8>,
    pub addressee: Option<Seq<char>>,
    pub source: Seq<char>,
}

impl View for Msg {
    type V = MsgView;

    open spec fn view(&self) -> MsgView {
        MsgView {
            message_type: self.message_type,
            data: self.data@,
            addressee: match self.addressee {
                Some(peer_id) => Some(peer_id@),
                None => None,
            },
            source: self.source@,
        }
    }
}

impl Clone for Msg {
    fn clone(&self) -> (copy: Self)
        ensures
            copy@ == self@,
    {
        let addressee = match &self.addressee {
            Some(peer_id) => Some(peer_id.clone()),
            None => None,
        };
        Msg {
            message_type: self.message_type,
            data: self.data.clone(),
            addressee,
            source: self.source.clone(),
        }
    }
}

/// The envelopes of `messages` as plain values.
pub open spec fn views_of(messages: Seq<Msg>) -> Seq<MsgView> {
    messages.map_values(|m: Msg| m@)
}

/// The slots of a history of envelopes as plain values.
pub open spec fn slot_views(slots: Seq<Option<Msg>>) -> Seq<Option<MsgView>> {
    slots.map_values(
        |slot: Option<Msg>|
            match slot {
                Some(m) => Some(m@),
                None => None,
            },
    )
}

/// A state as plain values: the slots and the cursor of its history, and
/// the pairs of its directory.
pub struct SnapshotView {
    pub slots: Seq<Option<MsgView>>,
    pub cursor: int,
    pub names: Seq<(Seq<char>, Seq<char>)>,
}

impl SnapshotView {
    /// The parts are those of a state: the history's parts can be a log's,
    /// and no peer has two names.
    pub open spec fn well_formed(self) -> bool {
        slots_well_formed(self.slots, self.cursor) && distinct_keys(self.names)
    }

    /// The live messages, oldest first.
    pub open spec fn messages(self) -> Seq<MsgView> {
        live_entries(self.slots, self.cursor)
    }

    /// The directory as a mapping.
    pub open spec fn usernames(self) -> Map<Seq<char>, Seq<char>> {
        pairs_to_map(self.names)
    }
}

/// Whether a merge replays the remote history: only a node without any
/// history takes over the history of a peer that has one.
pub open spec fn replays(local: Seq<MsgView>, remote: Seq<MsgView>) -> bool {
    local.len() == 0 && remote.len() > 0
}

/// The history of a node after it merged a remote history into its own.
pub open spec fn merged_messages(local: Seq<MsgView>, remote: Seq<MsgView>) -> Seq<MsgView> {
    if replays(local, remote) {
        remote
    } else {
        local
    }
}

/// The directory of a node after it merged a remote directory into its own:
/// on a conflict the remote name wins.
pub open spec fn merged_names(
    local: Map<Seq<char>, Seq<char>>,
    remote: Map<Seq<char>, Seq<char>>,
) -> Map<Seq<char>, Seq<char>> {
    local.union_prefer_right(remote)
}

/// Merging the same remote directory a second time changes nothing: the
/// directory is then what it was after the first merge.
pub proof fn lemma_merged_names_idempotent(
    local: Map<Seq<char>, Seq<char>>,
    remote: Map<Seq<char>, Seq<char>>,
)
    ensures
        merged_names(merged_names(local, remote), remote) == merged_names(local, remote),
{
}

/// A node that has history keeps it through a merge, whatever the remote
/// history holds; a node without history has the remote history after it.
pub proof fn lemma_merged_messages_guard(local: Seq<MsgView>, remote: Seq<MsgView>)
    ensures
        local.len() > 0 ==> merged_messages(local, remote) == local,
        local.len() == 0 ==> merged_messages(local, remote) == remote,
{
}

/// The lines that announce the peers of `entries`, one per entry, in order.
pub open spec fn joined_lines(entries: Seq<(Seq<char>, Seq<char>)>) -> Seq<Seq<char>> {
    entries.map_values(|e: (Seq<char>, Seq<char>)| joined_line(e.1))
}

/// The lines that show `messages`, one per message, in order, each sender
/// under the name that `names` resolves it to.
pub open spec fn replayed_lines(
    names: Map<Seq<char>, Seq<char>>,
    messages: Seq<MsgView>,
) -> Seq<Seq<char>> {
    messages.map_values(
        |m: MsgView| message_line(resolved_name(names, m.source), lossy_text(m.data)),
    )
}

/// One node's snapshot of the chat: the bounded history and the directory.
#[derive(Debug)]
pub struct State {
    pub history: History<Msg>,
    pub usernames: PeerDirectory,
}

impl State {
    /// Both parts satisfy their invariants.
    pub open spec fn well_formed(&self) -> bool {
        self.history.well_formed() && self.usernames.well_formed()
    }

    /// The live messages as plain values, oldest first.
    pub open spec fn messages(&self) -> Seq<MsgView> {
        views_of(self.history@)
    }

    /// The state as plain values.
    pub open spec fn snapshot(&self) -> SnapshotView {
        SnapshotView {
            slots: slot_views(self.history.slots()),
            cursor: self.history.cursor(),
            names: self.usernames.entries(),
        }
    }

    /// The plain values of a state say of it what the state says itself.
    pub proof fn lemma_snapshot(&self)
        ensures
            self.snapshot().well_formed() <==> self.well_formed(),
            self.well_formed() ==> self.snapshot().messages() == self.messages(),
            self.snapshot().usernames() == self.usernames@,
    {
        let slots = self.history.slots();
        let plain = slot_views(slots);
        assert forall|i: int|
            #![trigger plain[i]]
            #![trigger slots[i]]
            0 <= i < slots.len() implies (plain[i] is Some <==> slots[i] is Some) by {}
        if self.well_formed() {
            assert(self.snapshot().messages() =~= self.messages());
        }
    }

    /// A state without history and without known peers.
    pub fn new() -> (state: Self)
        ensures
            state.well_formed(),
            state.messages() == Seq::<MsgView>::empty(),
            state.usernames@ == Map::<Seq<char>, Seq<char>>::empty(),
            state.usernames.entries() == Seq::<(Seq<char>, Seq<char>)>::empty(),
    {
        State { history: History::new(), usernames: PeerDirectory::new() }
    }

    /// The display name of the peer `usr`: its registered name, or the
    /// fallback for a peer that the directory does not know.
    pub fn get_username(&self, usr: &String) -> (name: String)
        requires
            self.usernames.well_formed(),
        ensures
            name@ == resolved_name(self.usernames@, usr@),
    {
        self.usernames.resolve(usr)
    }

    /// Merges the snapshot `other` of another peer into this state and
    /// returns the lines to show, in order.
    ///
    /// Every entry of the remote directory is written into the local one,
    /// the remote name winning, and announced with one line. The remote
    /// history is replayed, oldest first and with one line per message, only
    /// into a local history that is empty; a node that has history keeps it.
    pub fn merge(&mut self, other: State) -> (lines: Vec<String>)
        requires
            old(self).well_formed(),
            other.well_formed(),
        ensures
            final(self).well_formed(),
            final(self).usernames@ == merged_names(old(self).usernames@, other.usernames@),
            final(self).usernames.entries() == upserted_all(
                old(self).usernames.entries(),
                other.usernames.entries(),
            ),
            final(self).messages() == merged_messages(old(self).messages(), other.messages()),
            !replays(old(self).messages(), other.messages()) ==> final(self).history == old(
                self,
            ).history,
            lines.deep_view() == joined_lines(other.usernames.entries()) + (if replays(
                old(self).messages(),
                other.messages(),
            ) {
                replayed_lines(final(self).usernames@, other.messages())
            } else {
                Seq::<Seq<char>>::empty()
            }),
    {
        let mut lines: Vec<String> = Vec::new();
        let ghost remote = other.usernames.entries();
        let n = other.usernames.len();
        let mut i: usize = 0;
        while i < n
            invariant
                i <= n,
                n == remote.len(),
                remote == other.usernames.entries(),
                self.usernames.well_formed(),
                self.history == old(self).history,
                self.usernames.entries() == upserted_all(
                    old(self).usernames.entries(),
                    remote.take(i as int),
                ),
                self.usernames@ == insert_all(old(self).usernames@, remote.take(i as int)),
                lines.deep_view() == joined_lines(remote.take(i as int)),
            decreases n - i,
        {
            let (peer_id, user_name) = other.usernames.entry(i);
            let line = joined_notice(user_name);
            let ghost shown = lines.deep_view();
            lines.push(line);
            self.usernames.upsert(peer_id.clone(), user_name.clone());
            proof {
                assert(remote.take(i + 1).drop_last() =~= remote.take(i as int));
                assert(lines.deep_view() =~= shown.push(line@));
            }
            i += 1;
        }
        proof {
            assert(remote.take(n as int) =~= remote);
            crate::directory::lemma_insert_all_is_union(old(self).usernames@, remote);
        }
        if self.history.get_count() < 1 && other.history.get_count() > 0 {
            let all = other.history.get_all();
            let ghost announced = lines.deep_view();
            let ghost wanted = other.messages();
            let ghost names = self.usernames;
            let mut k: usize = 0;
            while k < all.len()
                invariant
                    k <= all@.len(),
                    all@.len() == other.history@.len(),
                    all@.len() <= HISTORY_SIZE,
                    forall|j: int| 0 <= j < all@.len() ==> *all@[j] == other.history@[j],
                    wanted == other.messages(),
                    self.usernames == names,
                    self.usernames.well_formed(),
                    self.history.well_formed(),
                    self.messages() == wanted.take(k as int),
                    lines.deep_view() == announced + replayed_lines(
                        self.usernames@,
                        wanted.take(k as int),
                    ),
                decreases all@.len() - k,
            {
                let msg = all[k];
                let name = self.get_username(&msg.source);
                let text = text_of(&msg.data);
                let line = message_notice(&name, &text);
                let ghost shown = lines.deep_view();
                lines.push(line);
                self.history.insert(msg.clone());
                proof {
                    assert(wanted.take(k + 1).drop_last() =~= wanted.take(k as int));
                    assert(lines.deep_view() =~= shown.push(line@));
                    assert(self.messages() =~= wanted.take(k + 1));
                }
                k += 1;
            }
            assert(wanted.take(all@.len() as int) =~= wanted);
        }
        lines
    }
}

} // verus!
