use ssh_proxy::protocol::{
    message_len, read_message, write_message, ProtocolError, MAX_MESSAGE_LEN,
};

/// The fields of a connect request as they lie in a message body: the number of the
/// kind of message, the ID, the address behind the number of its family, the port.
type ConnectBody = (u32, u32, (u32, [u8; 4]), u16);

#[test]
fn test_message_roundtrip() {
    let msg: ConnectBody = (0, 42, (0, [192, 168, 1, 1]), 80);

    let body = postcard::to_allocvec(&msg).unwrap();
    let buf = write_message(&body);

    let decoded_body = read_message(&buf).unwrap().unwrap();
    let decoded: ConnectBody = postcard::from_bytes(&decoded_body).unwrap();

    let (_, id, (_, dst_ip), dst_port) = decoded;
    assert_eq!(id, 42);
    assert_eq!(dst_ip, [192, 168, 1, 1]);
    assert_eq!(dst_port, 80);
}

#[test]
fn frames_are_exact() {
    assert_eq!(write_message(&[]), vec![0, 0, 0, 0]);
    assert_eq!(write_message(b"abc"), vec![0, 0, 0, 3, b'a', b'b', b'c']);
    assert_eq!(write_message(&vec![7; 300])[..6], [0, 0, 1, 44, 7, 7]);
}

#[test]
fn end_of_stream() {
    assert_eq!(read_message(&[]), Ok(None));
    assert_eq!(read_message(&[0, 0, 0]), Ok(None));
    assert_eq!(read_message(&[0, 0, 0, 0]), Ok(Some(vec![])));
    assert_eq!(read_message(&[0, 0, 0, 2, 9]), Err(ProtocolError::Truncated));
    assert_eq!(read_message(&[0, 0, 0, 2, 9, 8, 7]), Ok(Some(vec![9, 8])));
}

#[test]
fn long_messages() {
    assert_eq!(message_len([0, 0, 1, 2]), Ok(258));
    assert_eq!(message_len([1, 0, 0, 0]), Ok(16 * 1024 * 1024));
    assert_eq!(message_len([1, 0, 0, 1]), Err(ProtocolError::TooLarge { len: 16_777_217 }));
    assert_eq!(
        read_message(&[255, 255, 255, 255]),
        Err(ProtocolError::TooLarge { len: u32::MAX })
    );
    let body = vec![3; MAX_MESSAGE_LEN];
    assert_eq!(read_message(&write_message(&body)).unwrap().unwrap().len(), MAX_MESSAGE_LEN);
    let body = vec![3; MAX_MESSAGE_LEN + 1];
    assert!(read_message(&write_message(&body)).is_err());
}

#[test]
fn messages_follow_each_other() {
    let mut stream = write_message(b"first");
    let split = stream.len();
    stream.extend(write_message(b"second"));
    assert_eq!(read_message(&stream), Ok(Some(b"first".to_vec())));
    assert_eq!(read_message(&stream[split..]), Ok(Some(b"second".to_vec())));
}

#[test]
fn any_number_of_messages_follow_each_other() {
    let bodies: Vec<Vec<u8>> = vec![vec![], vec![1], vec![2; 300], vec![], vec![3, 4]];
    let mut stream = vec![];
    for body in &bodies {
        stream.extend(write_message(body));
    }
    let mut at = 0;
    for body in &bodies {
        assert_eq!(read_message(&stream[at..]), Ok(Some(body.clone())));
        at += 4 + body.len();
    }
    assert_eq!(read_message(&stream[at..]), Ok(None));
}
