//! What a received envelope means for a node, and what the notifications
//! of the dissemination layer make it do.
//!
//! Nothing here publishes or prints: a reply is returned as a value for the
//! caller to queue, and console output as the lines to show.

use crate::console::{left_line, left_notice, lossy_text, message_line, message_notice, text_of};
use crate::directory::{removed, resolved_name, upserted_all, PeerDirectory};
use crate::history::{keep_last, HISTORY_SIZE};
use crate::state::{
    joined_lines, merged_messages, merged_names, replayed_lines, replays, MessageType, Msg,
    MsgView, SnapshotView, State,
};
use crate::wire::{envelope_of_bytes, snapshot_of_bytes, DecodeError};
use vstd::prelude::*;

verus! {

/// What became of received bytes.
#[derive(Debug, Clone, Copy, PartialEq, Eq, Structural)]
pub enum Disposition {
    /// The bytes were no envelope; they were dropped.
    Undecodable(DecodeError),
    /// The envelope was addressed to another node; it was dropped.
    NotAddressed,
    /// A chat message was shown and recorded in the history.
    Recorded,
    /// A snapshot was merged into the local state.
    Merged,
    /// A state envelope carried a payload that was no snapshot; it was
    /// dropped.
    BadSnapshot(DecodeError),
}

/// The outcome of handling received bytes.
#[derive(Debug)]
pub struct Handled {
    /// What became of the bytes.
    pub disposition: Disposition,
    /// The reply to queue, if the envelope calls for one.
    pub reply: Option<Msg>,
    /// The lines to show on the console, in order.
    pub lines: Vec<String>,
}

/// The envelope names an addressee, and it is not `self_id`.
pub open spec fn addressed_elsewhere(envelope: MsgView, self_id: Seq<char>) -> bool {
    envelope.addressee matches Some(peer_id) && peer_id != self_id
}

/// `after` and `lines` are what a node in state `before` has after merging
/// the snapshot `remote`.
pub open spec fn merge_result(
    before: State,
    remote: SnapshotView,
    after: State,
    lines: Seq<Seq<char>>,
) -> bool {
    &&& after.usernames@ == merged_names(before.usernames@, remote.usernames())
    &&& after.usernames.entries() == upserted_all(before.usernames.entries(), remote.names)
    &&& after.messages() == merged_messages(before.messages(), remote.messages())
    &&& !replays(before.messages(), remote.messages()) ==> after.history == before.history
    &&& lines == joined_lines(remote.names) + (if replays(before.messages(), remote.messages()) {
        replayed_lines(after.usernames@, remote.messages())
    } else {
        Seq::<Seq<char>>::empty()
    })
}

/// `after`, `disposition` and `lines` are what a node `self_id` in state
/// `before` has after handling `envelope`, received from the peer `source`.
pub open spec fn envelope_result(
    envelope: MsgView,
    source: Seq<char>,
    self_id: Seq<char>,
    before: State,
    after: State,
    disposition: Disposition,
    lines: Seq<Seq<char>>,
) -> bool {
    if addressed_elsewhere(envelope, self_id) {
        &&& disposition == Disposition::NotAddressed
        &&& after == before
        &&& lines == Seq::<Seq<char>>::empty()
    } else {
        match envelope.message_type {
            MessageType::Message => {
                &&& disposition == Disposition::Recorded
                &&& after.usernames == before.usernames
                &&& after.messages() == keep_last(
                    before.messages().push(envelope),
                    HISTORY_SIZE as nat,
                )
                &&& lines == seq![
                    message_line(
                        resolved_name(before.usernames@, source),
                        lossy_text(envelope.data),
                    ),
                ]
            },
            MessageType::State => match snapshot_of_bytes(envelope.data) {
                Err(e) => {
                    &&& disposition == Disposition::BadSnapshot(e)
                    &&& after == before
                    &&& lines == Seq::<Seq<char>>::empty()
                },
                Ok(remote) => {
                    &&& disposition == Disposition::Merged
                    &&& merge_result(before, remote, after, lines)
                },
            },
        }
    }
}

/// Handles a decoded envelope received from the peer `source`.
///
/// An envelope addressed to another node changes nothing and shows nothing.
/// A chat message is shown under the sender's display name and recorded. A
/// state envelope has its payload read as a snapshot, which is merged; a
/// payload that is no snapshot is dropped. No envelope calls for a reply.
pub fn handle_envelope(
    envelope: Msg,
    source: &String,
    local: &mut State,
    self_id: &String,
) -> (handled: Handled)
    requires
        old(local).well_formed(),
    ensures
        final(local).well_formed(),
        handled.reply is None,
        addressed_elsewhere(envelope@, self_id@) ==> *final(local) == *old(local)
            && handled.lines@.len() == 0,
        envelope_result(
            envelope@,
            source@,
            self_id@,
            *old(local),
            *final(local),
            handled.disposition,
            handled.lines.deep_view(),
        ),
{
    let mut lines: Vec<String> = Vec::new();
    assert(lines.deep_view() =~= Seq::<Seq<char>>::empty());
    if let Some(peer_id) = &envelope.addressee {
        if *peer_id != *self_id {
            return Handled { disposition: Disposition::NotAddressed, reply: None, lines };
        }
    }
    match envelope.message_type {
        MessageType::Message => {
            let name = local.get_username(source);
            let text = text_of(&envelope.data);
            let line = message_notice(&name, &text);
            lines.push(line);
            local.history.insert(envelope);
            proof {
                assert(lines.deep_view() =~= seq![line@]);
                assert(local.messages() =~= keep_last(
                    old(local).messages().push(envelope@),
                    HISTORY_SIZE as nat,
                ));
            }
            Handled { disposition: Disposition::Recorded, reply: None, lines }
        },
        MessageType::State => {
            match State::decode(&envelope.data) {
                Err(e) => Handled { disposition: Disposition::BadSnapshot(e), reply: None, lines },
                Ok(snapshot) => {
                    proof {
                        snapshot.lemma_snapshot();
                    }
                    let lines = local.merge(snapshot);
                    Handled { disposition: Disposition::Merged, reply: None, lines }
                },
            }
        },
    }
}

/// Handles bytes received from the peer `source`: reads them as an envelope
/// and handles that. Bytes that are no envelope are dropped.
pub fn handle_inbound(
    raw: &Vec<u8>,
    source: &String,
    local: &mut State,
    self_id: &String,
) -> (handled: Handled)
    requires
        old(local).well_formed(),
    ensures
        final(local).well_formed(),
        handled.reply is None,
        envelope_of_bytes(raw@) matches Ok(envelope) && addressed_elsewhere(envelope, self_id@)
            ==> *final(local) == *old(local) && handled.lines@.len() == 0,
        match envelope_of_bytes(raw@) {
            Err(e) => {
                &&& handled.disposition == Disposition::Undecodable(e)
                &&& *final(local) == *old(local)
                &&& handled.lines.deep_view() == Seq::<Seq<char>>::empty()
            },
            Ok(envelope) => envelope_result(
                envelope,
                source@,
                self_id@,
                *old(local),
                *final(local),
                handled.disposition,
                handled.lines.deep_view(),
            ),
        },
{
    match Msg::decode(raw) {
        Err(e) => {
            Handled { disposition: Disposition::Undecodable(e), reply: None, lines: Vec::new() }
        },
        Ok(envelope) => handle_envelope(envelope, source, local, self_id),
    }
}

/// The reply to a peer that joined the topic: a state envelope from
/// `self_id`, addressed to `peer_id`, whose payload is a snapshot of `local`.
pub fn on_peer_joined_topic(peer_id: &String, local: &State, self_id: &String) -> (reply: Msg)
    requires
        local.well_formed(),
    ensures
        reply@.message_type == MessageType::State,
        reply@.addressee == Some(peer_id@),
        reply@.source == self_id@,
        snapshot_of_bytes(reply@.data) == Ok::<SnapshotView, DecodeError>(local.snapshot()),
{
    Msg {
        message_type: MessageType::State,
        data: local.encode(),
        addressee: Some(peer_id.clone()),
        source: self_id.clone(),
    }
}

/// A join reply does at its addressee what it was sent for. The node that a
/// state envelope is addressed to merges the snapshot that the envelope
/// carries: it has the sender's names in its directory afterwards, and, if
/// it had no history while the sender had some, the sender's history.
pub proof fn lemma_join_reply_is_merged(
    sender: State,
    reply: MsgView,
    source: Seq<char>,
    joiner: Seq<char>,
    before: State,
    after: State,
    disposition: Disposition,
    lines: Seq<Seq<char>>,
)
    requires
        sender.well_formed(),
        reply.message_type == MessageType::State,
        reply.addressee == Some(joiner),
        snapshot_of_bytes(reply.data) == Ok::<SnapshotView, DecodeError>(sender.snapshot()),
        envelope_result(reply, source, joiner, before, after, disposition, lines),
    ensures
        disposition == Disposition::Merged,
        after.usernames@ == merged_names(before.usernames@, sender.usernames@),
        after.messages() == merged_messages(before.messages(), sender.messages()),
        before.messages().len() == 0 && sender.messages().len() > 0 ==> after.messages()
            == sender.messages(),
        before.messages().len() > 0 ==> after.history == before.history,
{
    sender.lemma_snapshot();
}

/// Takes a peer that left the topic out of the directory and returns the
/// line that says so, under the name the peer had or the fallback if it had
/// none.
pub fn on_peer_left_topic(peer_id: &String, directory: &mut PeerDirectory) -> (line: String)
    requires
        old(directory).well_formed(),
    ensures
        final(directory).well_formed(),
        final(directory)@ == old(directory)@.remove(peer_id@),
        final(directory).entries() == removed(old(directory).entries(), peer_id@),
        line@ == left_line(resolved_name(old(directory)@, peer_id@)),
{
    let name = match directory.remove(peer_id) {
        Some(name) => name,
        None => "anonymous".to_owned(),
    };
    left_notice(&name)
}

/// The envelope for a line that the local user typed: a broadcast chat
/// message from `self_id`. A copy is recorded in the local history.
pub fn compose(text: Vec<u8>, local: &mut State, self_id: &String) -> (envelope: Msg)
    requires
        old(local).well_formed(),
    ensures
        final(local).well_formed(),
        envelope@ == (MsgView {
            message_type: MessageType::Message,
            data: text@,
            addressee: None,
            source: self_id@,
        }),
        final(local).usernames == old(local).usernames,
        final(local).messages() == keep_last(
            old(local).messages().push(envelope@),
            HISTORY_SIZE as nat,
        ),
{
    let envelope = Msg {
        message_type: MessageType::Message,
        data: text,
        addressee: None,
        source: self_id.clone(),
    };
    let copy = envelope.clone();
    local.history.insert(copy);
    proof {
        assert(local.messages() =~= keep_last(
            old(local).messages().push(envelope@),
            HISTORY_SIZE as nat,
        ));
    }
    envelope
}

} // verus!
