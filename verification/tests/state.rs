use chat_state::console::{joined_notice, left_notice, message_notice};
use chat_state::directory::PeerDirectory;
use chat_state::history::History;
use chat_state::state::{MessageType, Msg, State};

fn s(text: &str) -> String {
    text.to_string()
}

fn chat(source: &str, text: &str) -> Msg {
    Msg {
        message_type: MessageType::Message,
        data: text.as_bytes().to_vec(),
        addressee: None,
        source: s(source),
    }
}

fn texts(state: &State) -> Vec<String> {
    state
        .history
        .get_all()
        .into_iter()
        .map(|m| String::from_utf8(m.data.clone()).expect("text"))
        .collect()
}

fn state_of_bob() -> State {
    let mut state = State::new();
    state.usernames.upsert(s("B"), s("bob"));
    state.history.insert(chat("B", "msg1"));
    state.history.insert(chat("B", "msg2"));
    state
}

#[test]
fn notices_have_the_console_wording() {
    assert_eq!(joined_notice(&s("bob")), "bob has joined the chat!");
    assert_eq!(left_notice(&s("bob")), "bob has left the chat.");
    assert_eq!(message_notice(&s("bob"), &s("hello there")), "bob: hello there");
    assert_eq!(message_notice(&s(""), &s("")), ": ");
}

#[test]
fn get_username_resolves_or_falls_back() {
    let state = state_of_bob();
    assert_eq!(state.get_username(&s("B")), "bob");
    assert_eq!(state.get_username(&s("C")), "anonymous");
}

#[test]
fn clone_of_an_envelope_equals_it() {
    let m = Msg {
        message_type: MessageType::State,
        data: vec![1, 2, 3],
        addressee: Some(s("A")),
        source: s("B"),
    };
    assert_eq!(m.clone(), m);
}

#[test]
fn empty_node_bootstraps_from_a_snapshot() {
    let mut a = State::new();
    let lines = a.merge(state_of_bob());
    assert_eq!(a.usernames.len(), 1);
    assert_eq!(a.usernames.get(&s("B")), Some(&s("bob")));
    assert_eq!(texts(&a), vec![s("msg1"), s("msg2")]);
    assert_eq!(a.history.get_count(), 2);
    assert_eq!(lines, vec![s("bob has joined the chat!"), s("bob: msg1"), s("bob: msg2")]);
}

#[test]
fn node_with_history_keeps_it_but_merges_the_directory() {
    let mut a = State::new();
    a.history.insert(chat("A", "mine"));
    let lines = a.merge(state_of_bob());
    assert_eq!(a.history.get_count(), 1);
    assert_eq!(texts(&a), vec![s("mine")]);
    assert_eq!(a.usernames.get(&s("B")), Some(&s("bob")));
    assert_eq!(lines, vec![s("bob has joined the chat!")]);
}

#[test]
fn merge_of_an_empty_remote_changes_nothing() {
    let mut a = State::new();
    a.usernames.upsert(s("A"), s("alice"));
    let lines = a.merge(State::new());
    assert!(lines.is_empty());
    assert_eq!(a.usernames.len(), 1);
    assert_eq!(a.history.get_count(), 0);
}

#[test]
fn remote_name_wins_on_conflict() {
    let mut a = State::new();
    a.usernames.upsert(s("B"), s("robert"));
    a.usernames.upsert(s("A"), s("alice"));
    let lines = a.merge(state_of_bob());
    assert_eq!(a.usernames.len(), 2);
    assert_eq!(a.usernames.resolve(&s("B")), "bob");
    assert_eq!(a.usernames.resolve(&s("A")), "alice");
    assert_eq!(a.usernames.entry(0), (&s("B"), &s("bob")));
    assert_eq!(lines[0], "bob has joined the chat!");
}

#[test]
fn merging_twice_gives_the_same_directory() {
    let mut once = State::new();
    once.usernames.upsert(s("A"), s("alice"));
    once.merge(state_of_bob());
    let mut twice = State::new();
    twice.usernames.upsert(s("A"), s("alice"));
    twice.merge(state_of_bob());
    twice.merge(state_of_bob());
    assert_eq!(once.usernames.len(), twice.usernames.len());
    for i in 0..once.usernames.len() {
        assert_eq!(once.usernames.entry(i), twice.usernames.entry(i));
    }
    assert_eq!(texts(&once), texts(&twice));
}

#[test]
fn replay_names_unknown_senders_with_the_fallback() {
    let mut remote = State::new();
    remote.history.insert(chat("ghost", "boo"));
    let mut a = State::new();
    let lines = a.merge(remote);
    assert_eq!(lines, vec![s("anonymous: boo")]);
}

#[test]
fn replay_shows_malformed_text_lossily() {
    let mut remote = State::new();
    remote.usernames.upsert(s("B"), s("bob"));
    remote.history.insert(Msg {
        message_type: MessageType::Message,
        data: vec![b'o', b'k', 0xff],
        addressee: None,
        source: s("B"),
    });
    let mut a = State::new();
    let lines = a.merge(remote);
    assert_eq!(lines[1], "bob: ok\u{fffd}");
}

#[test]
fn replay_of_a_wrapped_history_keeps_its_order() {
    let mut remote = State::new();
    for i in 0..40 {
        remote.history.insert(chat("B", &format!("m{}", i)));
    }
    let mut a = State::new();
    let lines = a.merge(remote);
    let want: Vec<String> = (8..40).map(|i| format!("m{}", i)).collect();
    assert_eq!(texts(&a), want);
    assert_eq!(a.history.get_count(), 32);
    assert_eq!(lines.len(), 32);
    assert_eq!(lines[0], "anonymous: m8");
}

#[test]
fn state_parts_can_be_put_together() {
    let mut usernames = PeerDirectory::new();
    usernames.upsert(s("A"), s("alice"));
    let state = State { history: History::new(), usernames };
    assert_eq!(state.get_username(&s("A")), "alice");
}
