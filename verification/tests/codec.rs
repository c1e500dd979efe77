//! The framing codec from the outside: headers and payloads render to
//! bytes and parse back, strictly.
use fracture::msg::ConnectionStatus;
use fracture::msg::HEADER_LEN;
use fracture::msg::Header;
use fracture::msg::HeaderParserError;
use fracture::msg::Message;
use fracture::msg::MessageVarient;
use fracture::msg::ServerDisconnectReason;
use fracture::msg::UserNameUpdate;
use fracture::seri::DecodeError;
use fracture::seri::deserialize;
use fracture::seri::serialize;

fn payload_of(m: &Message) -> Vec<u8> {
    let sm = serialize(m);
    let framed = sm.into_bytes();
    framed[HEADER_LEN..].to_vec()
}

fn assert_round_trip(m: Message) {
    let payload = payload_of(&m);
    assert_eq!(deserialize(&payload), Ok(m));
}

#[test]
fn header_round_trip_small() {
    let h = Header::new(&[1, 2, 3]);
    assert_eq!(h.size(), 3);
    let bytes = h.to_bytes();
    assert_eq!(bytes.len(), HEADER_LEN);
    let parsed = Header::from_bytes(&bytes).unwrap();
    assert_eq!(parsed.size(), 3);
}

#[test]
fn header_blank_is_zero() {
    let h = Header::blank();
    assert_eq!(h.size(), 0);
    let parsed = Header::from_bytes(&h.to_bytes()).unwrap();
    assert_eq!(parsed.size(), 0);
}

#[test]
fn header_length_field_is_big_endian() {
    // The 8-byte length field sits between the markers, most significant
    // byte first.
    let bytes = Header::new(&[7u8]).to_bytes();
    assert_eq!(&bytes[9..17], &[0, 0, 0, 0, 0, 0, 0, 1]);
    let bytes = Header::new(&vec![0u8; 0x0102]).to_bytes();
    assert_eq!(&bytes[9..17], &[0, 0, 0, 0, 0, 0, 1, 2]);
}

#[test]
fn header_wrong_length_is_length_error() {
    let mut bytes = Header::new(&[0u8; 9]).to_bytes();
    bytes.push(0);
    assert!(matches!(Header::from_bytes(&bytes), Err(HeaderParserError::InvalidLength)));
    assert!(matches!(Header::from_bytes(&bytes[..5]), Err(HeaderParserError::InvalidLength)));
}

#[test]
fn header_prefix_corruption_is_prefix_error() {
    // Corrupting any single byte of the prefix marker must give exactly
    // the prefix error, never the length or suffix one.
    for i in 0..9 {
        let mut bytes = Header::new(&[0u8; 77]).to_bytes();
        bytes[i] ^= 0xff;
        assert!(
            matches!(Header::from_bytes(&bytes), Err(HeaderParserError::InvalidPrefix)),
            "prefix byte {} corrupted",
            i
        );
    }
}

#[test]
fn header_suffix_corruption_is_suffix_error() {
    for i in 17..27 {
        let mut bytes = Header::new(&[0u8; 77]).to_bytes();
        bytes[i] ^= 0xff;
        assert!(
            matches!(Header::from_bytes(&bytes), Err(HeaderParserError::InvalidSuffix)),
            "suffix byte {} corrupted",
            i
        );
    }
}

#[test]
fn serialized_size_is_payload_length() {
    let m = Message { data: MessageVarient::Ping };
    let sm = serialize(&m);
    let n = sm.size();
    let framed = sm.into_bytes();
    assert_eq!(framed.len(), HEADER_LEN + n);
    let h = Header::from_bytes(&framed[..HEADER_LEN]).unwrap();
    assert_eq!(h.size(), n);
}

#[test]
fn round_trip_plain_variants() {
    assert_round_trip(Message { data: MessageVarient::DisconnectMessage {} });
    assert_round_trip(Message { data: MessageVarient::Ping });
    assert_round_trip(Message { data: MessageVarient::Pong });
    assert_round_trip(Message { data: MessageVarient::TestMessage {} });
    assert_round_trip(Message { data: MessageVarient::TestMessageResponse {} });
}

#[test]
fn round_trip_connect() {
    assert_round_trip(Message {
        data: MessageVarient::ConnectMessage { name: "Ann".to_string() },
    });
    assert_round_trip(Message { data: MessageVarient::ConnectMessage { name: String::new() } });
    assert_round_trip(Message {
        data: MessageVarient::ConnectMessage { name: "héllo ✓ ぬ".to_string() },
    });
}

#[test]
fn round_trip_server_info() {
    assert_round_trip(Message {
        data: MessageVarient::ServerInfo {
            server_name: "Testing Server 1".to_string(),
            conn_status: ConnectionStatus::Connected,
            connected_users: vec![],
            your_uuid: 0x0123_4567_89ab_cdef_0123_4567_89ab_cdef,
        },
    });
    assert_round_trip(Message {
        data: MessageVarient::ServerInfo {
            server_name: "s".to_string(),
            conn_status: ConnectionStatus::Refused { reason: "full".to_string() },
            connected_users: vec![
                UserNameUpdate::NewUser { uuid: 1 },
                UserNameUpdate::UserNamed { uuid: 2, name: "Bob".to_string() },
                UserNameUpdate::UserLeft { uuid: 3, name: Some("Cyn".to_string()) },
                UserNameUpdate::UserLeft { uuid: 4, name: None },
            ],
            your_uuid: u128::MAX,
        },
    });
}

#[test]
fn round_trip_server_info_update() {
    assert_round_trip(Message {
        data: MessageVarient::ServerInfoUpdate {
            name: Some("renamed".to_string()),
            user_updates: vec![UserNameUpdate::NewUser { uuid: 9 }],
        },
    });
    assert_round_trip(Message {
        data: MessageVarient::ServerInfoUpdate { name: None, user_updates: vec![] },
    });
}

#[test]
fn round_trip_force_disconnect() {
    for reason in [
        ServerDisconnectReason::Closed,
        ServerDisconnectReason::ClientRequestedDisconnect,
        ServerDisconnectReason::InvalidConnectionSequence,
    ] {
        assert_round_trip(Message {
            data: MessageVarient::ServerForceDisconnect {
                reason,
                close_message: "bye".to_string(),
            },
        });
    }
}

#[test]
fn round_trip_chat() {
    assert_round_trip(Message {
        data: MessageVarient::ClientSendChat { content: "hello".to_string() },
    });
    assert_round_trip(Message {
        data: MessageVarient::ServerSendChat {
            content: "hello".to_string(),
            author: "Ann".to_string(),
            author_uuid: 42,
        },
    });
}

#[test]
fn decode_rejects_trailing_bytes() {
    let mut payload = payload_of(&Message { data: MessageVarient::Ping });
    payload.push(0);
    assert_eq!(deserialize(&payload), Err(DecodeError::CorruptPayload));
}

#[test]
fn decode_rejects_truncation() {
    let payload = payload_of(&Message {
        data: MessageVarient::ClientSendChat { content: "hello".to_string() },
    });
    for cut in 0..payload.len() {
        assert_eq!(
            deserialize(&payload[..cut]),
            Err(DecodeError::CorruptPayload),
            "truncated at {}",
            cut
        );
    }
}

#[test]
fn decode_rejects_unknown_tag() {
    assert_eq!(deserialize(&[200]), Err(DecodeError::CorruptPayload));
    assert_eq!(deserialize(&[]), Err(DecodeError::CorruptPayload));
}

#[test]
fn decode_rejects_invalid_utf8() {
    // A chat message whose declared one-byte string is not UTF-8.
    let payload = vec![7, 1, 0, 0, 0, 0, 0, 0, 0, 0xff];
    assert_eq!(deserialize(&payload), Err(DecodeError::CorruptPayload));
}

#[test]
fn ping_and_gen_connect_shapes() {
    let p = fracture::msg::ping();
    assert_eq!(p, Message { data: MessageVarient::Ping });
    let c = fracture::msg::gen_connect("Ann".to_string());
    assert_eq!(c, Message { data: MessageVarient::ConnectMessage { name: "Ann".to_string() } });
}
