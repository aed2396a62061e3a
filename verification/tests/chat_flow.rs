use line_chat::chat::Chat;
use line_chat::client::Client;

const WELCOME: &[u8] = b"Welcome to Simple Chat!\nUse /nick <nick> to set your nick.\n> ";

fn feed(chat: &mut Chat, h: u64, bytes: &[u8]) {
    let i = chat.find(h).expect("client registered");
    chat.clients[i].accumulate(bytes).expect("fits in buffer");
    chat.dispatch_pending(h);
}

fn outbox_bytes(chat: &Chat, h: u64) -> Vec<Vec<u8>> {
    let i = chat.find(h).expect("client registered");
    chat.clients[i].outbox.iter().map(|it| (*it.data).clone()).collect()
}

#[test]
fn welcome_banner_on_accept() {
    let mut chat = Chat::new();
    let h = chat.accept_client();
    assert_eq!(h, 1);
    assert_eq!(chat.max_client, 1);
    assert_eq!(chat.clients.len(), 1);
    assert_eq!(&chat.clients[0].nick[..], &b"user:1"[..]);
    assert!(!chat.clients[0].writable);
    assert_eq!(outbox_bytes(&chat, 1), vec![WELCOME.to_vec()]);
    assert_eq!(chat.clients[0].outbox[0].sent, 0);
}

#[test]
fn end_to_end_hi_from_a_reaches_only_b() {
    let mut chat = Chat::new();
    let a = chat.accept_client();
    let b = chat.accept_client();
    assert_eq!(outbox_bytes(&chat, a), vec![WELCOME.to_vec()]);
    feed(&mut chat, a, b"hi\n");
    assert_eq!(
        outbox_bytes(&chat, b),
        vec![WELCOME.to_vec(), b"user:1> hi\n> ".to_vec()]
    );
    // the sender hears nothing of its own message
    assert_eq!(outbox_bytes(&chat, a), vec![WELCOME.to_vec()]);
}

#[test]
fn broadcast_reaches_every_other_client_once() {
    let mut chat = Chat::new();
    let a = chat.accept_client();
    let b = chat.accept_client();
    let c = chat.accept_client();
    feed(&mut chat, b, b"yo\n");
    let expect = b"user:2> yo\n> ".to_vec();
    assert_eq!(outbox_bytes(&chat, a), vec![WELCOME.to_vec(), expect.clone()]);
    assert_eq!(outbox_bytes(&chat, c), vec![WELCOME.to_vec(), expect]);
    assert_eq!(outbox_bytes(&chat, b), vec![WELCOME.to_vec()]);
}

#[test]
fn lines_in_one_read_dispatch_in_order() {
    let mut chat = Chat::new();
    let a = chat.accept_client();
    let b = chat.accept_client();
    feed(&mut chat, a, b"a\nb\nc\n");
    assert_eq!(
        outbox_bytes(&chat, b),
        vec![
            WELCOME.to_vec(),
            b"user:1> a\n> ".to_vec(),
            b"user:1> b\n> ".to_vec(),
            b"user:1> c\n> ".to_vec(),
        ]
    );
    assert_eq!(outbox_bytes(&chat, a), vec![WELCOME.to_vec()]);
}

#[test]
fn nick_command_renames_and_acknowledges_sender_only() {
    let mut chat = Chat::new();
    let a = chat.accept_client();
    let b = chat.accept_client();
    feed(&mut chat, a, b"/nick alice\n");
    assert_eq!(&chat.clients[0].nick[..], &b"alice"[..]);
    assert_eq!(
        outbox_bytes(&chat, a),
        vec![WELCOME.to_vec(), b"nick changed to alice\n> ".to_vec()]
    );
    assert_eq!(outbox_bytes(&chat, b), vec![WELCOME.to_vec()]);
    feed(&mut chat, a, b"hi\n");
    assert_eq!(
        outbox_bytes(&chat, b),
        vec![WELCOME.to_vec(), b"alice> hi\n> ".to_vec()]
    );
}

#[test]
fn invalid_nick_notice_to_sender_and_name_kept() {
    let mut chat = Chat::new();
    let a = chat.accept_client();
    let b = chat.accept_client();
    feed(&mut chat, a, b"/nick \xff\xfe\n");
    assert_eq!(&chat.clients[0].nick[..], &b"user:1"[..]);
    assert_eq!(
        outbox_bytes(&chat, a),
        vec![WELCOME.to_vec(), b"invalid nick".to_vec()]
    );
    assert_eq!(outbox_bytes(&chat, b), vec![WELCOME.to_vec()]);
}

#[test]
fn removed_client_gets_no_broadcasts() {
    let mut chat = Chat::new();
    let a = chat.accept_client();
    let b = chat.accept_client();
    let c = chat.accept_client();
    chat.remove_client(b);
    assert_eq!(chat.clients.len(), 2);
    assert!(chat.find(b).is_none());
    feed(&mut chat, a, b"hi\n");
    assert_eq!(
        outbox_bytes(&chat, c),
        vec![WELCOME.to_vec(), b"user:1> hi\n> ".to_vec()]
    );
    // the high-water mark does not go back: handles are never reused
    assert_eq!(chat.max_client, 3);
    assert_eq!(chat.accept_client(), 4);
}

#[test]
fn default_nick_renders_handle_in_decimal() {
    assert_eq!(&Client::new(7).nick[..], &b"user:7"[..]);
    assert_eq!(&Client::new(12).nick[..], &b"user:12"[..]);
    assert_eq!(&Client::new(305).nick[..], &b"user:305"[..]);
}
