use chat_state::directory::PeerDirectory;
use chat_state::router::{
    compose, handle_envelope, handle_inbound, on_peer_joined_topic, on_peer_left_topic,
    Disposition,
};
use chat_state::state::{MessageType, Msg, State};
use chat_state::wire::DecodeError;

fn s(text: &str) -> String {
    text.to_string()
}

fn chat(source: &str, text: &str, addressee: Option<&str>) -> Msg {
    Msg {
        message_type: MessageType::Message,
        data: text.as_bytes().to_vec(),
        addressee: addressee.map(s),
        source: s(source),
    }
}

fn texts(state: &State) -> Vec<String> {
    state
        .history
        .get_all()
        .into_iter()
        .map(|m| String::from_utf8(m.data.clone()).expect("text"))
        .collect()
}

fn node_b() -> State {
    let mut b = State::new();
    b.usernames.upsert(s("B"), s("bob"));
    b.history.insert(chat("B", "msg1", None));
    b.history.insert(chat("B", "msg2", None));
    b
}

#[test]
fn broadcast_message_is_shown_and_recorded() {
    let mut a = State::new();
    a.usernames.upsert(s("B"), s("bob"));
    let raw = chat("B", "hello", None).encode();
    let handled = handle_inbound(&raw, &s("B"), &mut a, &s("A"));
    assert_eq!(handled.disposition, Disposition::Recorded);
    assert!(handled.reply.is_none());
    assert_eq!(handled.lines, vec![s("bob: hello")]);
    assert_eq!(texts(&a), vec![s("hello")]);
}

#[test]
fn message_is_named_after_the_peer_it_came_from() {
    let mut a = State::new();
    a.usernames.upsert(s("B"), s("bob"));
    a.usernames.upsert(s("C"), s("carol"));
    let handled = handle_envelope(chat("B", "relayed", None), &s("C"), &mut a, &s("A"));
    assert_eq!(handled.lines, vec![s("carol: relayed")]);
}

#[test]
fn message_from_an_unknown_peer_uses_the_fallback() {
    let mut a = State::new();
    let handled = handle_envelope(chat("Z", "hi", None), &s("Z"), &mut a, &s("A"));
    assert_eq!(handled.disposition, Disposition::Recorded);
    assert_eq!(handled.lines, vec![s("anonymous: hi")]);
}

#[test]
fn message_addressed_to_us_is_accepted() {
    let mut a = State::new();
    let handled = handle_envelope(chat("B", "psst", Some("A")), &s("B"), &mut a, &s("A"));
    assert_eq!(handled.disposition, Disposition::Recorded);
    assert_eq!(a.history.get_count(), 1);
}

#[test]
fn envelope_for_another_node_changes_nothing() {
    let mut a = State::new();
    a.usernames.upsert(s("B"), s("bob"));
    a.history.insert(chat("A", "mine", None));
    let raw = chat("B", "not yours", Some("X")).encode();
    let handled = handle_inbound(&raw, &s("B"), &mut a, &s("A"));
    assert_eq!(handled.disposition, Disposition::NotAddressed);
    assert!(handled.reply.is_none());
    assert!(handled.lines.is_empty());
    assert_eq!(texts(&a), vec![s("mine")]);
    assert_eq!(a.usernames.len(), 1);
}

#[test]
fn snapshot_for_another_node_is_not_merged() {
    let mut a = State::new();
    let reply = on_peer_joined_topic(&s("X"), &node_b(), &s("B"));
    let handled = handle_inbound(&reply.encode(), &s("B"), &mut a, &s("A"));
    assert_eq!(handled.disposition, Disposition::NotAddressed);
    assert!(handled.lines.is_empty());
    assert_eq!(a.usernames.len(), 0);
    assert_eq!(a.history.get_count(), 0);
}

#[test]
fn undecodable_bytes_are_dropped() {
    let mut a = State::new();
    let handled = handle_inbound(&vec![1, 2, 3], &s("B"), &mut a, &s("A"));
    assert_eq!(handled.disposition, Disposition::Undecodable(DecodeError::Codec));
    assert!(handled.reply.is_none());
    assert!(handled.lines.is_empty());
    assert_eq!(a.history.get_count(), 0);
    let mut raw = chat("B", "x", None).encode();
    raw[0] = 7;
    let handled = handle_inbound(&raw, &s("B"), &mut a, &s("A"));
    assert_eq!(handled.disposition, Disposition::Undecodable(DecodeError::Kind));
}

#[test]
fn state_envelope_with_a_bad_payload_is_dropped() {
    let mut a = State::new();
    let envelope = Msg {
        message_type: MessageType::State,
        data: vec![1, 2, 3],
        addressee: Some(s("A")),
        source: s("B"),
    };
    let handled = handle_inbound(&envelope.encode(), &s("B"), &mut a, &s("A"));
    assert_eq!(handled.disposition, Disposition::BadSnapshot(DecodeError::Codec));
    assert!(handled.lines.is_empty());
    assert_eq!(a.usernames.len(), 0);
}

#[test]
fn join_reply_carries_a_snapshot_for_the_joiner() {
    let b = node_b();
    let reply = on_peer_joined_topic(&s("A"), &b, &s("B"));
    assert_eq!(reply.message_type, MessageType::State);
    assert_eq!(reply.addressee, Some(s("A")));
    assert_eq!(reply.source, "B");
    assert_eq!(reply.data, b.encode());
    let carried = State::decode(&reply.data).expect("snapshot");
    assert_eq!(texts(&carried), vec![s("msg1"), s("msg2")]);
    assert_eq!(carried.usernames.resolve(&s("B")), "bob");
}

#[test]
fn empty_node_takes_over_the_state_of_the_first_peer() {
    let mut a = State::new();
    let reply = on_peer_joined_topic(&s("A"), &node_b(), &s("B"));
    let handled = handle_inbound(&reply.encode(), &s("B"), &mut a, &s("A"));
    assert_eq!(handled.disposition, Disposition::Merged);
    assert!(handled.reply.is_none());
    assert_eq!(a.usernames.len(), 1);
    assert_eq!(a.usernames.get(&s("B")), Some(&s("bob")));
    assert_eq!(texts(&a), vec![s("msg1"), s("msg2")]);
    assert_eq!(
        handled.lines,
        vec![s("bob has joined the chat!"), s("bob: msg1"), s("bob: msg2")]
    );
}

#[test]
fn node_with_history_only_merges_the_directory() {
    let mut a = State::new();
    a.history.insert(chat("A", "mine", None));
    let reply = on_peer_joined_topic(&s("A"), &node_b(), &s("B"));
    let handled = handle_inbound(&reply.encode(), &s("B"), &mut a, &s("A"));
    assert_eq!(handled.disposition, Disposition::Merged);
    assert_eq!(a.history.get_count(), 1);
    assert_eq!(texts(&a), vec![s("mine")]);
    assert_eq!(a.usernames.get(&s("B")), Some(&s("bob")));
    assert_eq!(handled.lines, vec![s("bob has joined the chat!")]);
}

#[test]
fn broadcast_snapshot_is_merged_too() {
    let mut a = State::new();
    let envelope = Msg {
        message_type: MessageType::State,
        data: node_b().encode(),
        addressee: None,
        source: s("B"),
    };
    let handled = handle_envelope(envelope, &s("B"), &mut a, &s("A"));
    assert_eq!(handled.disposition, Disposition::Merged);
    assert_eq!(a.history.get_count(), 2);
}

#[test]
fn departure_removes_the_peer_and_says_so() {
    let mut directory = PeerDirectory::new();
    directory.upsert(s("B"), s("bob"));
    directory.upsert(s("C"), s("carol"));
    assert_eq!(on_peer_left_topic(&s("B"), &mut directory), "bob has left the chat.");
    assert_eq!(directory.len(), 1);
    assert_eq!(directory.get(&s("B")), None);
    assert_eq!(directory.get(&s("C")), Some(&s("carol")));
}

#[test]
fn departure_of_an_unknown_peer_uses_the_fallback() {
    let mut directory = PeerDirectory::new();
    directory.upsert(s("C"), s("carol"));
    assert_eq!(on_peer_left_topic(&s("B"), &mut directory), "anonymous has left the chat.");
    assert_eq!(directory.len(), 1);
}

#[test]
fn composed_line_is_a_broadcast_and_is_recorded() {
    let mut a = State::new();
    let envelope = compose(b"hello".to_vec(), &mut a, &s("A"));
    assert_eq!(envelope, chat("A", "hello", None));
    assert_eq!(a.history.get_count(), 1);
    assert_eq!(a.history.get(0), Some(&chat("A", "hello", None)));
}

#[test]
fn history_of_received_messages_is_bounded() {
    let mut a = State::new();
    for i in 0..50 {
        handle_envelope(chat("B", &format!("m{}", i), None), &s("B"), &mut a, &s("A"));
    }
    assert_eq!(a.history.get_count(), 32);
    let want: Vec<String> = (18..50).map(|i| format!("m{}", i)).collect();
    assert_eq!(texts(&a), want);
}
