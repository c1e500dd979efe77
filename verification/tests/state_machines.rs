//! The protocol state machines from the outside: handshakes, refusals,
//! kicks, pings, dispatch, and whole conversations carried over real
//! frame bytes between a client and a server-side interface.
use fracture::client::Client;
use fracture::client::ClientState;
use fracture::client::CloseType;
use fracture::client::HandlerOperation;
use fracture::client::InterfaceOperation;
use fracture::client::UpdateReadStatus;
use fracture::client::UpdateStatus;
use fracture::client::ChatMessage;
use fracture::msg::ConnectionStatus;
use fracture::msg::Message;
use fracture::msg::MessageVarient;
use fracture::msg::ServerDisconnectReason;
use fracture::seri::serialize;
use fracture::server::ClientInterface;
use fracture::server::InterfaceState;
use fracture::sock::MessageReader;

fn new_client(name: &str) -> Client {
    Client::new(name.to_string(), fracture::client::get_default())
}

fn new_interface(
    tx: &tokio::sync::broadcast::Sender<fracture::handler::GlobalHandlerOperation>,
) -> ClientInterface {
    ClientInterface::new("Testing Server 1".to_string(), fracture::server::get_default(), tx.clone())
}

/// Carries every queued outbound message of the client over the wire, as
/// bytes, into the interface's incoming queue.
fn wire_client_to_server(c: &mut Client, s: &mut ClientInterface) {
    let mut reader = MessageReader::new();
    while let Some(m) = c.take_next_outgoing() {
        reader.feed(&serialize(&m).into_bytes());
    }
    while let Ok(Some(status)) = reader.poll() {
        let r = s.update_read(status.msg);
        assert!(matches!(r, fracture::server::UpdateReadStatus::Success));
    }
    assert_eq!(reader.pending(), 0);
}

/// Carries every queued outbound message of the interface over the wire,
/// as bytes, into the client's incoming queue.
fn wire_server_to_client(s: &mut ClientInterface, c: &mut Client) {
    let mut reader = MessageReader::new();
    while let Some(m) = s.take_next_outgoing() {
        reader.feed(&serialize(&m).into_bytes());
    }
    while let Ok(Some(status)) = reader.poll() {
        let r = c.update_read(status.msg);
        assert!(matches!(r, UpdateReadStatus::Success));
    }
    assert_eq!(reader.pending(), 0);
}

/// Runs both sides through the whole handshake until the client is ready.
fn connect(c: &mut Client, s: &mut ClientInterface) {
    assert!(matches!(c.update(), UpdateStatus::Success)); // queues connect
    wire_client_to_server(c, s);
    assert!(matches!(s.update(), fracture::server::UpdateStatus::Success)); // takes connect
    assert!(matches!(s.update(), fracture::server::UpdateStatus::Success)); // answers info
    assert_eq!(s.state(), InterfaceState::Ready);
    wire_server_to_client(s, c);
    assert!(matches!(c.update(), UpdateStatus::Success)); // takes info
    assert!(matches!(c.update(), UpdateStatus::Success)); // default ops
    assert_eq!(c.state(), ClientState::Ready);
}

#[test]
fn refused_client_never_reaches_ready() {
    // A refusal during the handshake refuses the connection at once.
    let mut c = new_client("Ann");
    assert!(matches!(c.update(), UpdateStatus::Success));
    let refusal = Message {
        data: MessageVarient::ServerInfo {
            server_name: "s".to_string(),
            conn_status: ConnectionStatus::Refused { reason: "full".to_string() },
            connected_users: vec![],
            your_uuid: 1,
        },
    };
    assert!(matches!(c.update_read(refusal), UpdateReadStatus::Success));
    assert!(matches!(c.update(), UpdateStatus::ConnectionRefused));
    assert_ne!(c.state(), ClientState::Ready);
    // And it stays closed: further ticks do nothing.
    assert!(matches!(c.update(), UpdateStatus::Noop));
    assert_eq!(c.state(), ClientState::Closed);
}

#[test]
fn non_connect_in_start_kicks_client() {
    // Anything but the connect message during `Start` kicks the client,
    // a ping included, and the interface never sits in `Start` again.
    let (tx, _rx) = tokio::sync::broadcast::channel(16);
    let mut s = new_interface(&tx);
    assert!(matches!(s.update_read(fracture::msg::ping()), fracture::server::UpdateReadStatus::Success));
    match s.update() {
        fracture::server::UpdateStatus::ClientKicked(reason) => {
            assert!(reason.contains("Ping"), "the reason names the offender: {}", reason)
        }
        other => panic!("expected ClientKicked, got {:?}", other),
    }
    assert_ne!(s.state(), InterfaceState::Start);
    assert!(matches!(s.update(), fracture::server::UpdateStatus::Noop));
}

#[test]
fn unexpected_message_in_handshake_is_requeued() {
    let mut c = new_client("Ann");
    assert!(matches!(c.update(), UpdateStatus::Success));
    let stray = Message { data: MessageVarient::Pong };
    assert!(matches!(c.update_read(stray.clone()), UpdateReadStatus::Success));
    match c.update() {
        UpdateStatus::Unexpected(m) => assert_eq!(m, stray),
        other => panic!("expected Unexpected, got {:?}", other),
    }
    // Still in the handshake, and the message is still queued: the next
    // tick sees it again.
    assert_eq!(c.state(), ClientState::Handshake);
    match c.update() {
        UpdateStatus::Unexpected(m) => assert_eq!(m, stray),
        other => panic!("expected Unexpected again, got {:?}", other),
    }
}

#[test]
fn connect_scenario_client_becomes_ready() {
    // A client named Ann connects; the server answers with its info and
    // the assigned identity; the client becomes ready.
    let (tx, _rx) = tokio::sync::broadcast::channel(16);
    let mut c = new_client("Ann");
    let mut s = new_interface(&tx);
    connect(&mut c, &mut s);
    assert_eq!(c.state(), ClientState::Ready);
    let info = c.server_info().as_ref().expect("client learned the server info");
    assert_eq!(info.name, "Testing Server 1");
    assert_eq!(info.client_uuid, s.uuid());
    assert_eq!(s.name().expect("server learned the client name"), "Ann");
}

#[test]
fn ping_after_ready_yields_exactly_one_pong_server_side() {
    let (tx, _rx) = tokio::sync::broadcast::channel(16);
    let mut c = new_client("Ann");
    let mut s = new_interface(&tx);
    connect(&mut c, &mut s);
    c.queue_msg(fracture::msg::ping());
    wire_client_to_server(&mut c, &mut s);
    assert!(matches!(s.update(), fracture::server::UpdateStatus::Success));
    let reply = s.take_next_outgoing().expect("one pong queued");
    assert_eq!(reply, Message { data: MessageVarient::Pong });
    assert!(s.take_next_outgoing().is_none(), "exactly one pong");
}

#[test]
fn ping_after_ready_yields_exactly_one_pong_client_side() {
    let (tx, _rx) = tokio::sync::broadcast::channel(16);
    let mut c = new_client("Ann");
    let mut s = new_interface(&tx);
    connect(&mut c, &mut s);
    assert!(matches!(c.update_read(fracture::msg::ping()), UpdateReadStatus::Success));
    assert!(matches!(c.update(), UpdateStatus::Success));
    let reply = c.take_next_outgoing().expect("one pong queued");
    assert_eq!(reply, Message { data: MessageVarient::Pong });
    assert!(c.take_next_outgoing().is_none(), "exactly one pong");
}

#[test]
fn unclaimed_message_is_reported_unhandled() {
    let (tx, _rx) = tokio::sync::broadcast::channel(16);
    let mut c = new_client("Ann");
    let mut s = new_interface(&tx);
    connect(&mut c, &mut s);
    // No server handler claims a stray pong.
    assert!(matches!(s.update_read(Message { data: MessageVarient::Pong }), fracture::server::UpdateReadStatus::Success));
    match s.update() {
        fracture::server::UpdateStatus::Unhandled(m) => {
            assert_eq!(m, Message { data: MessageVarient::Pong })
        }
        other => panic!("expected Unhandled, got {:?}", other),
    }
    assert_eq!(s.state(), InterfaceState::Ready, "the machine keeps running");
}

#[test]
fn force_disconnect_scenario() {
    // The server says goodbye with a reason; the client observes exactly
    // that message and sends nothing further.
    let (tx, _rx) = tokio::sync::broadcast::channel(16);
    let mut c = new_client("Ann");
    let mut s = new_interface(&tx);
    connect(&mut c, &mut s);
    let farewell = s
        .close("bye".to_string(), Some(ServerDisconnectReason::Closed))
        .expect("a notified close sends a message");
    // Over the wire, byte for byte.
    let mut reader = MessageReader::new();
    reader.feed(&serialize(&farewell).into_bytes());
    let got = reader.poll().unwrap().unwrap().msg;
    match c.update_read(got) {
        UpdateReadStatus::ServerClosed { reason, close_message } => {
            assert_eq!(reason, ServerDisconnectReason::Closed);
            assert_eq!(close_message, "bye");
        }
        other => panic!("expected ServerClosed, got {:?}", other),
    }
    // The client closes knowing the server is gone: nothing more is sent.
    assert!(c.close(CloseType::ServerDisconnected).is_none());
    assert_eq!(c.state(), ClientState::Closed);
}

#[test]
fn graceful_close_says_goodbye() {
    let mut c = new_client("Ann");
    let goodbye = c.close(CloseType::Graceful).expect("graceful close notifies the server");
    assert_eq!(goodbye, Message { data: MessageVarient::DisconnectMessage {} });
    let mut c2 = new_client("Bob");
    assert!(c2.close(CloseType::Force).is_none());
}

#[test]
fn client_disconnect_reaches_server_as_graceful() {
    let (tx, _rx) = tokio::sync::broadcast::channel(16);
    let mut c = new_client("Ann");
    let mut s = new_interface(&tx);
    connect(&mut c, &mut s);
    let goodbye = c.close(CloseType::Graceful).unwrap();
    assert!(matches!(
        s.update_read(goodbye),
        fracture::server::UpdateReadStatus::GracefulDisconnect
    ));
}

#[test]
fn execute_action_resolves_server_messages_internally() {
    let mut c = new_client("Ann");
    let chat = ChatMessage::new("hello".to_string(), "Ann".to_string());
    c.manual_handler_operation(HandlerOperation::ServerMsg { msg: chat.into_message() });
    // The message for the server is resolved internally ...
    assert!(matches!(c.execute_action(), Ok(None)));
    // ... and nothing else is pending.
    assert!(matches!(c.execute_action(), Err(None)));
    // It sits in the outbound queue now.
    let queued = c.take_next_outgoing().unwrap();
    assert_eq!(queued, Message { data: MessageVarient::ClientSendChat { content: "hello".to_string() } });
}

#[test]
fn execute_action_hands_interface_operations_back() {
    let mut c = new_client("Ann");
    let chat = ChatMessage::new("hi".to_string(), "Bob".to_string());
    let op = HandlerOperation::InterfaceOperation(InterfaceOperation::ReceivedChat(chat.clone()));
    c.manual_handler_operation(op.clone());
    match c.execute_action() {
        Ok(Some(handed)) => assert_eq!(handed, op),
        other => panic!("expected the operation back, got {:?}", other),
    }
    assert!(c.take_next_outgoing().is_none(), "interface operations queue nothing");
}

#[test]
fn chat_message_variant_conversions() {
    let varient = MessageVarient::ServerSendChat {
        content: "hello".to_string(),
        author: "Ann".to_string(),
        author_uuid: 9,
    };
    let chat = ChatMessage::try_from_varient(varient).unwrap();
    assert_eq!(chat.text(), "hello");
    assert_eq!(chat.author(), "Ann");
    assert_eq!(chat.author_uuid, Some(fracture::msg::UserId { id: 9 }));
    assert!(ChatMessage::try_from_varient(MessageVarient::Ping).is_err());
}
