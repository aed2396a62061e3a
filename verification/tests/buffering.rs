use line_chat::chat::Chat;
use line_chat::client::{Client, BUFLEN};

const WELCOME: &[u8] = b"Welcome to Simple Chat!\nUse /nick <nick> to set your nick.\n> ";

fn outbox_bytes(chat: &Chat, h: u64) -> Vec<Vec<u8>> {
    let i = chat.find(h).expect("client registered");
    chat.clients[i].outbox.iter().map(|it| (*it.data).clone()).collect()
}

#[test]
fn partial_line_is_not_dispatched() {
    let mut chat = Chat::new();
    let a = chat.accept_client();
    let b = chat.accept_client();
    let i = chat.find(a).unwrap();
    chat.clients[i].accumulate(b"hello").unwrap();
    chat.dispatch_pending(a);
    assert_eq!(outbox_bytes(&chat, b), vec![WELCOME.to_vec()]);
    assert_eq!(&chat.clients[0].acc[..], &b"hello"[..]);
}

#[test]
fn line_split_across_reads_dispatches_once_whole() {
    let mut chat = Chat::new();
    let a = chat.accept_client();
    let b = chat.accept_client();
    let i = chat.find(a).unwrap();
    chat.clients[i].accumulate(b"hel").unwrap();
    chat.dispatch_pending(a);
    let i = chat.find(a).unwrap();
    chat.clients[i].accumulate(b"lo\n").unwrap();
    chat.dispatch_pending(a);
    assert_eq!(
        outbox_bytes(&chat, b),
        vec![WELCOME.to_vec(), b"user:1> hello\n> ".to_vec()]
    );
    assert_eq!(&chat.clients[0].acc[..], &b""[..]);
}

#[test]
fn trailing_partial_line_is_kept_for_next_read() {
    let mut chat = Chat::new();
    let a = chat.accept_client();
    let b = chat.accept_client();
    let i = chat.find(a).unwrap();
    chat.clients[i].accumulate(b"one\ntw").unwrap();
    chat.dispatch_pending(a);
    assert_eq!(
        outbox_bytes(&chat, b),
        vec![WELCOME.to_vec(), b"user:1> one\n> ".to_vec()]
    );
    assert_eq!(&chat.clients[0].acc[..], &b"tw"[..]);
}

#[test]
fn overfull_accumulator_is_refused_unchanged() {
    let mut c = Client::new(1);
    let big = vec![b'x'; BUFLEN];
    c.accumulate(&big).unwrap();
    assert_eq!(c.acc.len(), BUFLEN);
    assert!(c.accumulate(b"y").is_err());
    assert_eq!(c.acc.len(), BUFLEN);
    assert_eq!(c.acc, big);
}

#[test]
fn read_chunks_concatenate_in_the_accumulator() {
    let mut c = Client::new(3);
    c.accumulate(b"ab").unwrap();
    c.accumulate(b"").unwrap();
    c.accumulate(b"cd").unwrap();
    assert_eq!(&c.acc[..], &b"abcd"[..]);
}
