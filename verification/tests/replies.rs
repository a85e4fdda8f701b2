use chat_state::replies::{enqueue_reply, send_outcome};
use chat_state::state::{MessageType, Msg};

fn reply(n: u8) -> Msg {
    Msg {
        message_type: MessageType::State,
        data: vec![n],
        addressee: Some("A".to_string()),
        source: "B".to_string(),
    }
}

#[test]
fn replies_are_drained_in_the_order_they_were_queued() {
    let (sender, mut receiver) = tokio::sync::mpsc::unbounded_channel();
    for n in 0..5 {
        assert!(enqueue_reply(&sender, reply(n)).is_ok());
    }
    for n in 0..5 {
        assert_eq!(receiver.try_recv().ok(), Some(reply(n)));
    }
    assert!(receiver.try_recv().is_err());
}

#[test]
fn producers_share_one_queue() {
    let (sender, mut receiver) = tokio::sync::mpsc::unbounded_channel();
    let other = sender.clone();
    assert!(enqueue_reply(&sender, reply(1)).is_ok());
    assert!(enqueue_reply(&other, reply(2)).is_ok());
    assert_eq!(receiver.try_recv().ok(), Some(reply(1)));
    assert_eq!(receiver.try_recv().ok(), Some(reply(2)));
}

#[test]
fn reply_comes_back_when_the_consumer_is_gone() {
    let (sender, receiver) = tokio::sync::mpsc::unbounded_channel();
    drop(receiver);
    let failure = enqueue_reply(&sender, reply(9)).expect_err("no consumer");
    assert_eq!(failure.reply, reply(9));
}

#[test]
fn send_outcome_keeps_the_reply_of_a_failed_send() {
    assert!(send_outcome(Ok(())).is_ok());
    let failure = send_outcome(Err(reply(3))).expect_err("failed send");
    assert_eq!(failure.reply, reply(3));
}
