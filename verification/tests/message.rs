use ws_udp_bridge::message::{CloseFrame, Message};

#[test]
fn text_is_forwarded_as_its_bytes() {
    let m = Message::Text(b"ping".to_vec());
    assert_eq!(m.translate(), Some(b"ping".to_vec()));
}

#[test]
fn text_is_not_decoded() {
    let raw = vec![0xff, 0xfe, 0x00, 0x80];
    assert_eq!(Message::Text(raw.clone()).translate(), Some(raw));
}

#[test]
fn binary_is_forwarded_as_its_bytes() {
    let m = Message::Binary(vec![0, 1, 2, 255]);
    assert_eq!(m.translate(), Some(vec![0, 1, 2, 255]));
}

#[test]
fn empty_data_message_still_gives_a_datagram() {
    assert_eq!(Message::Binary(Vec::new()).translate(), Some(Vec::new()));
    assert_eq!(Message::Text(Vec::new()).translate(), Some(Vec::new()));
}

#[test]
fn control_messages_give_nothing() {
    assert_eq!(Message::Ping(b"are you there".to_vec()).translate(), None);
    assert_eq!(Message::Pong(b"yes".to_vec()).translate(), None);
    assert_eq!(Message::Close(None).translate(), None);
    let body = CloseFrame { code: 1000, reason: b"bye".to_vec() };
    assert_eq!(Message::Close(Some(body)).translate(), None);
}

#[test]
fn raw_frame_gives_nothing() {
    assert_eq!(Message::Frame(vec![1, 2, 3]).translate(), None);
}

#[test]
fn kinds_are_told_apart() {
    assert!(Message::Text(vec![b'a']).is_text());
    assert!(!Message::Text(vec![b'a']).is_binary());
    assert!(!Message::Text(vec![b'a']).is_close());
    assert!(Message::Binary(vec![1]).is_binary());
    assert!(!Message::Binary(vec![1]).is_text());
    assert!(!Message::Ping(vec![1]).is_text());
    assert!(!Message::Pong(vec![1]).is_binary());
    assert!(Message::Close(None).is_close());
    assert!(!Message::Frame(vec![1]).is_text());
    assert!(!Message::Frame(vec![1]).is_binary());
}

#[test]
fn into_data_gives_the_bytes_of_every_kind() {
    assert_eq!(Message::Text(b"abc".to_vec()).into_data(), b"abc".to_vec());
    assert_eq!(Message::Binary(vec![9, 8]).into_data(), vec![9, 8]);
    assert_eq!(Message::Ping(vec![1]).into_data(), vec![1]);
    assert_eq!(Message::Pong(vec![2]).into_data(), vec![2]);
    assert_eq!(Message::Frame(vec![3, 4]).into_data(), vec![3, 4]);
}

#[test]
fn into_data_of_close_is_its_reason() {
    assert_eq!(Message::Close(None).into_data(), Vec::<u8>::new());
    let body = CloseFrame { code: 1001, reason: b"going away".to_vec() };
    assert_eq!(Message::Close(Some(body)).into_data(), b"going away".to_vec());
}
