use mccs::utils::duplex_chan::{ChannelIds, DuplexChannel, Polled, Rx, Tx};

fn pair() -> (DuplexChannel<u32, String>, DuplexChannel<String, u32>) {
    let mut ids = ChannelIds::new();
    DuplexChannel::new_unbound_pair(&mut ids)
}

#[test]
fn messages_arrive_in_order_in_both_directions() {
    let (mut near, mut far) = pair();
    assert!(near.tx.send(1).is_ok());
    assert!(near.tx.send(2).is_ok());
    assert!(far.tx.send(String::from("hello")).is_ok());
    assert!(matches!(far.rx.try_recv(), Polled::Message(1)));
    assert!(matches!(far.rx.recv(), Polled::Message(2)));
    assert!(matches!(far.rx.try_recv(), Polled::Empty));
    match near.rx.recv() {
        Polled::Message(text) => assert_eq!(text, "hello"),
        _ => panic!("nothing came"),
    }
}

#[test]
fn linked_sides_answer_each_other() {
    let (mut near, mut far) = pair();
    for i in 0..10u32 {
        assert!(near.tx.send(i).is_ok());
        match far.rx.try_recv() {
            Polled::Message(n) => assert!(far.tx.send(format!("{}", n + 1)).is_ok()),
            _ => panic!("nothing came"),
        }
        match near.rx.try_recv() {
            Polled::Message(text) => assert_eq!(text, format!("{}", i + 1)),
            _ => panic!("no answer"),
        }
    }
}

#[test]
fn undelivered_message_comes_back() {
    let (mut near, far) = pair();
    drop(far);
    assert_eq!(near.tx.send(7), Err(7));
}

#[test]
fn receiver_notices_that_all_senders_are_gone() {
    let (near, mut far) = pair();
    drop(near);
    assert!(matches!(far.rx.try_recv(), Polled::Disconnected));
    assert!(matches!(far.rx.recv(), Polled::Disconnected));
}

#[test]
fn what_was_sent_is_received_after_the_sender_is_gone() {
    let (mut near, mut far) = pair();
    assert!(near.tx.send(5).is_ok());
    drop(near);
    assert!(matches!(far.rx.try_recv(), Polled::Message(5)));
    assert!(matches!(far.rx.try_recv(), Polled::Disconnected));
}

#[test]
fn another_end_sends_into_the_same_channel() {
    let mut ids = ChannelIds::new();
    let (mut first, mut rx): (Tx<u8>, Rx<u8>) = ids.open();
    let mut second = first.another();
    assert!(second.send(2).is_ok());
    assert!(first.send(1).is_ok());
    assert!(matches!(rx.recv(), Polled::Message(2)));
    drop(first);
    assert!(matches!(rx.recv(), Polled::Message(1)));
    assert!(matches!(rx.try_recv(), Polled::Empty));
    drop(second);
    assert!(matches!(rx.try_recv(), Polled::Disconnected));
}

#[test]
fn channels_do_not_mix() {
    let mut ids = ChannelIds::new();
    let (mut a_tx, mut a_rx): (Tx<u8>, Rx<u8>) = ids.open();
    let (_b_tx, mut b_rx): (Tx<u8>, Rx<u8>) = ids.open();
    assert!(a_tx.send(1).is_ok());
    assert!(matches!(b_rx.try_recv(), Polled::Empty));
    assert!(matches!(a_rx.try_recv(), Polled::Message(1)));
}
