use std::io::{Error, ErrorKind};
use std::rc::Rc;

use line_chat::chat::Chat;
use line_chat::client::{Client, FlushControl};
use line_chat::transport::is_would_block;
use line_chat::transport::{classify_io, IoStep};

#[test]
fn partial_writes_advance_then_pop_the_front_item() {
    let mut c = Client::new(1);
    c.enqueue(Rc::new(b"0123456789".to_vec()));
    assert_eq!(&c.front_pending()[..], &b"0123456789"[..]);
    assert!(matches!(c.flush_step(IoStep::Got(4)), FlushControl::Proceed));
    assert_eq!(c.outbox[0].sent, 4);
    assert_eq!(&c.front_pending()[..], &b"456789"[..]);
    assert!(matches!(c.flush_step(IoStep::Got(6)), FlushControl::Proceed));
    assert!(c.outbox.is_empty());
}

#[test]
fn items_flush_in_fifo_order() {
    let mut c = Client::new(1);
    c.enqueue(Rc::new(b"first".to_vec()));
    c.enqueue(Rc::new(b"second".to_vec()));
    assert!(matches!(c.flush_step(IoStep::Got(5)), FlushControl::Proceed));
    assert_eq!(&c.front_pending()[..], &b"second"[..]);
}

#[test]
fn would_block_halts_and_clears_writable() {
    let mut c = Client::new(1);
    c.set_writable();
    assert!(c.writable);
    c.enqueue(Rc::new(b"x".to_vec()));
    assert!(c.wants_flush());
    assert!(matches!(c.flush_step(IoStep::Block), FlushControl::Halt));
    assert!(!c.writable);
    assert!(!c.wants_flush());
    assert_eq!(c.outbox.len(), 1);
    assert_eq!(c.outbox[0].sent, 0);
}

#[test]
fn zero_length_write_halts_without_dropping_bytes() {
    let mut c = Client::new(1);
    c.enqueue(Rc::new(b"abc".to_vec()));
    assert!(matches!(c.flush_step(IoStep::Closed), FlushControl::Halt));
    assert_eq!(c.outbox.len(), 1);
    assert_eq!(c.outbox[0].sent, 0);
}

#[test]
fn fatal_error_is_handed_back() {
    let mut c = Client::new(1);
    c.enqueue(Rc::new(b"abc".to_vec()));
    match c.flush_step(IoStep::Fail(Error::new(ErrorKind::BrokenPipe, "gone"))) {
        FlushControl::Fatal(e) => assert_eq!(e.kind(), ErrorKind::BrokenPipe),
        _ => panic!("expected a fatal outcome"),
    }
    assert_eq!(c.outbox.len(), 1);
}

#[test]
fn classify_io_sorts_the_four_outcomes() {
    assert!(matches!(classify_io(Ok(0)), IoStep::Closed));
    assert!(matches!(classify_io(Ok(5)), IoStep::Got(5)));
    assert!(matches!(
        classify_io(Err(Error::new(ErrorKind::WouldBlock, "later"))),
        IoStep::Block
    ));
    assert!(matches!(
        classify_io(Err(Error::new(ErrorKind::ConnectionReset, "gone"))),
        IoStep::Fail(_)
    ));
}

#[test]
fn would_block_is_told_apart_from_fatal_errors() {
    assert!(is_would_block(&Error::new(ErrorKind::WouldBlock, "later")));
    assert!(!is_would_block(&Error::new(ErrorKind::ConnectionReset, "gone")));
}

#[test]
fn broadcast_shares_one_payload_with_independent_cursors() {
    let mut chat = Chat::new();
    let a = chat.accept_client();
    let _b = chat.accept_client();
    let _c = chat.accept_client();
    let _d = chat.accept_client();
    chat.push_from(a, b"shared".to_vec());
    // one payload object, held by the three recipients' queues
    assert_eq!(Rc::strong_count(&chat.clients[1].outbox[1].data), 3);
    assert!(Rc::ptr_eq(
        &chat.clients[1].outbox[1].data,
        &chat.clients[2].outbox[1].data
    ));
    assert_eq!(chat.clients[0].outbox.len(), 1);  // the sender got nothing
    // drain the welcome banner off one recipient's queue front ...
    let banner_len = chat.clients[1].outbox[0].data.len();
    assert!(matches!(
        chat.clients[1].flush_step(IoStep::Got(banner_len)),
        FlushControl::Proceed
    ));
    // ... then advancing that recipient's cursor moves nobody else's,
    // and not the bytes
    assert!(matches!(
        chat.clients[1].flush_step(IoStep::Got(2)),
        FlushControl::Proceed
    ));
    assert_eq!(chat.clients[1].outbox[0].sent, 2);
    assert_eq!(chat.clients[2].outbox[1].sent, 0);
    assert_eq!(chat.clients[3].outbox[1].sent, 0);
    assert_eq!(&chat.clients[2].outbox[1].data[..], &b"shared"[..]);
    assert_eq!(&chat.clients[1].outbox[0].data[..], &b"shared"[..]);
}
