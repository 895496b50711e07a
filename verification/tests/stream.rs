use usbsas_core::stream::{Polled, StreamChannel};

#[test]
fn an_open_stream_without_events_is_pending() {
    let mut s = StreamChannel::new();
    assert_eq!(s.poll(), Polled::Pending);
    assert_eq!(s.poll(), Polled::Pending);
}

#[test]
fn events_come_out_in_the_order_they_went_in() {
    let mut s = StreamChannel::new();
    assert!(s.send(b"one".to_vec()));
    assert!(s.send(b"two".to_vec()));
    assert_eq!(s.poll(), Polled::Item(b"one".to_vec()));
    assert!(s.send(b"three".to_vec()));
    assert_eq!(s.poll(), Polled::Item(b"two".to_vec()));
    assert_eq!(s.poll(), Polled::Item(b"three".to_vec()));
    assert_eq!(s.poll(), Polled::Pending);
}

#[test]
fn the_end_is_seen_after_the_last_event() {
    let mut s = StreamChannel::new();
    s.send(vec![1]);
    s.send(vec![2]);
    s.close();
    assert_eq!(s.poll(), Polled::Item(vec![1]));
    assert_eq!(s.poll(), Polled::Item(vec![2]));
    assert_eq!(s.poll(), Polled::Finished);
    assert_eq!(s.poll(), Polled::Finished);
}

#[test]
fn nothing_is_taken_after_the_producer_is_done() {
    let mut s = StreamChannel::new();
    s.close();
    assert!(!s.send(vec![9]));
    assert_eq!(s.poll(), Polled::Finished);
}

#[test]
fn the_stream_has_no_bound() {
    let mut s = StreamChannel::new();
    for i in 0..10_000u32 {
        assert!(s.send(i.to_le_bytes().to_vec()));
    }
    for i in 0..10_000u32 {
        assert_eq!(s.poll(), Polled::Item(i.to_le_bytes().to_vec()));
    }
    assert_eq!(s.poll(), Polled::Pending);
}
