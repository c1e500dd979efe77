//! The frame reader from the outside: a stream chopped into arbitrary
//! chunks yields exactly the messages of the stream fed whole.
use fracture::msg::HeaderParserError;
use fracture::msg::Message;
use fracture::msg::MessageVarient;
use fracture::seri::serialize;
use fracture::sock::MessageReader;
use fracture::sock::ReadMessageError;

fn frame_of(m: &Message) -> Vec<u8> {
    serialize(m).into_bytes()
}

#[test]
fn whole_frame_yields_message() {
    let m = Message { data: MessageVarient::ClientSendChat { content: "hi".to_string() } };
    let mut reader = MessageReader::new();
    reader.feed(&frame_of(&m));
    let status = reader.poll().unwrap().unwrap();
    assert_eq!(status.msg, m);
    assert_eq!(reader.pending(), 0);
    assert!(matches!(reader.poll(), Ok(None)));
}

#[test]
fn byte_at_a_time_yields_identical_message() {
    // Framing robustness: one byte per chunk produces the same message
    // as the whole stream at once.
    let m = Message {
        data: MessageVarient::ServerSendChat {
            content: "hello".to_string(),
            author: "Ann".to_string(),
            author_uuid: 7,
        },
    };
    let frame = frame_of(&m);

    let mut whole = MessageReader::new();
    whole.feed(&frame);
    let from_whole = whole.poll().unwrap().unwrap();

    let mut chunked = MessageReader::new();
    let mut seen = None;
    for (i, b) in frame.iter().enumerate() {
        chunked.feed(&[*b]);
        match chunked.poll().unwrap() {
            Some(status) => {
                assert_eq!(i, frame.len() - 1, "complete only at the last byte");
                seen = Some(status);
            }
            None => assert!(i < frame.len() - 1),
        }
    }
    let from_chunks = seen.expect("chunked reader produced the message");
    assert_eq!(from_chunks.msg, from_whole.msg);
    assert_eq!(from_chunks.bytes, from_whole.bytes);
}

#[test]
fn split_anywhere_yields_identical_message() {
    let m = Message { data: MessageVarient::ConnectMessage { name: "Ann".to_string() } };
    let frame = frame_of(&m);
    for cut in 0..=frame.len() {
        let mut reader = MessageReader::new();
        reader.feed(&frame[..cut]);
        reader.feed(&frame[cut..]);
        let status = reader.poll().unwrap().unwrap();
        assert_eq!(status.msg, m, "split at {}", cut);
    }
}

#[test]
fn two_frames_in_one_chunk() {
    let m1 = Message { data: MessageVarient::Ping };
    let m2 = Message { data: MessageVarient::ClientSendChat { content: "x".to_string() } };
    let mut bytes = frame_of(&m1);
    bytes.extend_from_slice(&frame_of(&m2));
    let mut reader = MessageReader::new();
    reader.feed(&bytes);
    assert_eq!(reader.poll().unwrap().unwrap().msg, m1);
    assert_eq!(reader.poll().unwrap().unwrap().msg, m2);
    assert!(matches!(reader.poll(), Ok(None)));
}

#[test]
fn incomplete_header_waits() {
    let mut reader = MessageReader::new();
    reader.feed(&frame_of(&Message { data: MessageVarient::Ping })[..10]);
    assert!(matches!(reader.poll(), Ok(None)));
    assert_eq!(reader.pending(), 10);
}

#[test]
fn garbage_header_is_header_error() {
    let mut reader = MessageReader::new();
    reader.feed(&[0xaau8; 27]);
    assert!(matches!(
        reader.poll(),
        Err(ReadMessageError::HeaderParser(HeaderParserError::InvalidPrefix))
    ));
}

#[test]
fn corrupt_payload_is_deserialization_error() {
    let m = Message { data: MessageVarient::Ping };
    let mut frame = frame_of(&m);
    let last = frame.len() - 1;
    frame[last] = 250;
    let mut reader = MessageReader::new();
    reader.feed(&frame);
    assert!(matches!(reader.poll(), Err(ReadMessageError::DeserializationError(_))));
}
