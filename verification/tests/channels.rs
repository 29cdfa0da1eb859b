use asahi::channel::{
    fired, first_nul, handle_event, read_log, EventAction, EventMsg, FwLogMsg, FwLogPayload, LogEntry,
    LogLevel, RxChannel, TxChannel,
};
use asahi::error::Error;

#[test]
fn messages_arrive_in_order() {
    let mut tx = TxChannel::new(4);
    let mut rx = RxChannel::new(4);
    let mut ring: Vec<u32> = vec![0; 4];
    let mut wptr: u32 = 0;
    let mut expect: u32 = 0;
    for round in 0..5u32 {
        for i in 0..3 {
            wptr = tx.put(&mut ring, &(round * 3 + i), rx.rptr[0]).unwrap();
        }
        assert_eq!(tx.put(&mut ring, &99, rx.rptr[0]), None);
        while let Some(msg) = rx.get(&ring, wptr, 0) {
            assert_eq!(msg, expect);
            expect += 1;
        }
    }
    assert_eq!(expect, 15);
    assert_eq!(tx.wptr, 3);
}

#[test]
fn empty_ring_gives_nothing() {
    let mut rx = RxChannel::new(8);
    let ring: Vec<u8> = vec![1; 8];
    assert_eq!(rx.get(&ring, 0, 0), None);
    assert_eq!(rx.rptr, [0; 6]);
}

#[test]
fn sub_channels_are_separate() {
    let mut rx = RxChannel::new(2);
    let ring: Vec<u32> = (0..12).collect();
    assert_eq!(rx.get(&ring, 1, 5), Some(10));
    assert_eq!(rx.get(&ring, 1, 5), None);
    assert_eq!(rx.get(&ring, 1, 3), Some(6));
    assert_eq!(rx.get(&ring, 0, 3), Some(7));
    assert_eq!(rx.rptr, [0, 0, 0, 0, 0, 1]);
}

#[test]
fn full_ring_is_left_alone() {
    let mut tx = TxChannel::new(2);
    let mut ring: Vec<u32> = vec![0; 2];
    assert_eq!(tx.put(&mut ring, &5, 0), Some(1));
    assert_eq!(tx.put(&mut ring, &6, 0), None);
    assert_eq!(ring, vec![5, 0]);
    assert_eq!(tx.put(&mut ring, &6, 1), Some(0));
    assert_eq!(ring, vec![5, 6]);
}

#[test]
fn waiting_for_the_reader() {
    assert_eq!(TxChannel::wait_for(3, 3, 10, 20), Some(Ok(())));
    assert_eq!(TxChannel::wait_for(3, 2, 10, 20), None);
    assert_eq!(TxChannel::wait_for(3, 2, 20, 20), Some(Err(Error::ETIMEDOUT)));
    assert_eq!(TxChannel::wait_for(3, 3, 20, 20), Some(Err(Error::ETIMEDOUT)));
}

#[test]
fn firing_bits_name_events() {
    assert_eq!(fired(&vec![0, 0, 0, 0]), Vec::<u32>::new());
    assert_eq!(fired(&vec![0x8000_0001, 2, 0, 0x8000_0000]), vec![0, 31, 33, 127]);
}

#[test]
fn event_messages_are_handled() {
    assert!(matches!(handle_event(Some(EventMsg::Fault), true), EventAction::HandleFault));
    assert!(matches!(handle_event(Some(EventMsg::Fault), false), EventAction::NoManager));
    let timeout = EventMsg::Timeout { counter: 3, event_slot: 4 };
    assert!(matches!(
        handle_event(Some(timeout), true),
        EventAction::HandleTimeout { counter: 3, event_slot: 4 }
    ));
    let timeout = EventMsg::Timeout { counter: 3, event_slot: 4 };
    assert!(matches!(handle_event(Some(timeout), false), EventAction::NoManager));
    match handle_event(Some(EventMsg::Flag { firing: vec![4] }), false) {
        EventAction::Signal { slots } => assert_eq!(slots, vec![2]),
        _ => panic!(),
    }
    assert!(matches!(handle_event(Some(EventMsg::Other), true), EventAction::Unexpected));
    assert!(matches!(handle_event(None, true), EventAction::Unknown));
}

fn payloads() -> Vec<FwLogPayload> {
    let mut v: Vec<FwLogPayload> = Vec::new();
    for _ in 0..0x600 {
        v.push(FwLogPayload { msg_type: 3, msg: vec![104, 105, 0, 33] });
    }
    v
}

#[test]
fn log_text_ends_at_the_first_nul() {
    let buf = payloads();
    let levels = [
        LogLevel::Debug,
        LogLevel::Info,
        LogLevel::Notice,
        LogLevel::Warn,
        LogLevel::Error,
        LogLevel::Critical,
    ];
    for i in 0..6 {
        match read_log(i, &FwLogMsg { msg_type: 2, msg_index: 0xff }, &buf) {
            LogEntry::Text { level, text } => {
                assert_eq!(level, levels[i]);
                assert_eq!(text, vec![104, 105]);
            }
            _ => panic!(),
        }
    }
}

#[test]
fn log_takes_the_payload_of_its_channel() {
    let mut buf = payloads();
    buf[0x205].msg = vec![65, 0];
    match read_log(2, &FwLogMsg { msg_type: 2, msg_index: 5 }, &buf) {
        LogEntry::Text { text, .. } => assert_eq!(text, vec![65]),
        _ => panic!(),
    }
}

#[test]
fn bad_log_messages_are_told_apart() {
    let mut buf = payloads();
    buf[1].msg_type = 4;
    buf[2].msg = vec![1, 2];
    let at = |t: u32, i: u64| read_log(0, &FwLogMsg { msg_type: t, msg_index: i }, &buf);
    assert!(matches!(at(1, 0x100), LogEntry::UnknownMessage));
    assert!(matches!(at(2, 0x100), LogEntry::IndexOutOfBounds));
    assert!(matches!(at(2, 1), LogEntry::UnknownPayload));
    assert!(matches!(at(2, 2), LogEntry::NotTerminated));
}

#[test]
fn nul_is_found() {
    assert_eq!(first_nul(&vec![]), None);
    assert_eq!(first_nul(&vec![0]), Some(0));
    assert_eq!(first_nul(&vec![1, 0, 0]), Some(1));
    assert_eq!(first_nul(&vec![1, 2]), None);
}
