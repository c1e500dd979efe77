//! The global fan-out and handler dispatch from the outside: events
//! published once reach every subscriber in order, a chat line sent by
//! one client reaches the other and not its own author twice, and the
//! first handler to claim a message is the only one invoked.
use fracture::client::Client;
use fracture::client::ClientState;
use fracture::client::HandlerOperation;
use fracture::client::InterfaceOperation;
use fracture::client::UpdateStatus;
use fracture::client::ChatMessage;
use fracture::handler::GlobalHandlerOperation;
use fracture::msg::Message;
use fracture::msg::MessageVarient;
use fracture::seri::serialize;
use fracture::server::ClientInterface;
use fracture::sock::MessageReader;
use tokio::sync::broadcast::error::TryRecvError;

fn new_client(name: &str) -> Client {
    Client::new(name.to_string(), fracture::client::get_default())
}

fn new_interface(
    tx: &tokio::sync::broadcast::Sender<GlobalHandlerOperation>,
) -> ClientInterface {
    ClientInterface::new("Testing Server 1".to_string(), fracture::server::get_default(), tx.clone())
}

fn wire_client_to_server(c: &mut Client, s: &mut ClientInterface) {
    let mut reader = MessageReader::new();
    while let Some(m) = c.take_next_outgoing() {
        reader.feed(&serialize(&m).into_bytes());
    }
    while let Ok(Some(status)) = reader.poll() {
        assert!(matches!(s.update_read(status.msg), fracture::server::UpdateReadStatus::Success));
    }
}

fn wire_server_to_client(s: &mut ClientInterface, c: &mut Client) {
    let mut reader = MessageReader::new();
    while let Some(m) = s.take_next_outgoing() {
        reader.feed(&serialize(&m).into_bytes());
    }
    while let Ok(Some(status)) = reader.poll() {
        assert!(matches!(c.update_read(status.msg), fracture::client::UpdateReadStatus::Success));
    }
}

fn connect(c: &mut Client, s: &mut ClientInterface) {
    assert!(matches!(c.update(), UpdateStatus::Success));
    wire_client_to_server(c, s);
    assert!(matches!(s.update(), fracture::server::UpdateStatus::Success));
    assert!(matches!(s.update(), fracture::server::UpdateStatus::Success));
    wire_server_to_client(s, c);
    assert!(matches!(c.update(), UpdateStatus::Success));
    assert!(matches!(c.update(), UpdateStatus::Success));
    assert_eq!(c.state(), ClientState::Ready);
}

/// Runs one update-tick's pipeline on the server side: dispatch, local
/// operations, global events out, global events in, global events
/// executed, collected operations executed.
fn server_tick(s: &mut ClientInterface) {
    let _ = s.update();
    s.collect_actions();
    while !matches!(s.execute_action(), Err(None)) {}
    s.collect_send_global_actions();
    s.collect_recv_global_actions().expect("the channel is healthy");
    s.execute_global_actions();
    s.collect_actions();
    while !matches!(s.execute_action(), Err(None)) {}
}

/// Runs one update-tick's pipeline on the client side, returning the
/// interface-bound operations.
fn client_tick(c: &mut Client) -> Vec<HandlerOperation> {
    let _ = c.update();
    c.collect_actions();
    let mut handed = Vec::new();
    loop {
        match c.execute_action() {
            Ok(Some(op)) => handed.push(op),
            Ok(None) => {}
            Err(None) => break,
            Err(Some(op)) => panic!("unrecognized operation {:?}", op),
        }
    }
    handed
}

#[test]
fn broadcast_reaches_every_subscriber_in_order() {
    // N events published, M independently-subscribed receivers: each
    // observes all N, in publish order.
    let (tx, mut rx0) = tokio::sync::broadcast::channel::<GlobalHandlerOperation>(16);
    let mut rx1 = tx.subscribe();
    let mut rx2 = tx.subscribe();
    let n = 5u128;
    for i in 0..n {
        tx.send(GlobalHandlerOperation::ClientConnect { uuid: i }).unwrap();
    }
    for rx in [&mut rx0, &mut rx1, &mut rx2] {
        for i in 0..n {
            assert_eq!(rx.try_recv().unwrap(), GlobalHandlerOperation::ClientConnect { uuid: i });
        }
        assert!(matches!(rx.try_recv(), Err(TryRecvError::Empty)));
    }
}

#[test]
fn chat_reaches_the_other_client_and_is_filtered_at_home() {
    // Ann says hello; Bob receives it with Ann's name and identity; the
    // copy that comes back to Ann is recognized as her own.
    let (tx, _rx) = tokio::sync::broadcast::channel(16);
    let mut ann = new_client("Ann");
    let mut bob = new_client("Bob");
    let mut s_ann = new_interface(&tx);
    let mut s_bob = new_interface(&tx);
    connect(&mut ann, &mut s_ann);
    connect(&mut bob, &mut s_bob);

    let line = ChatMessage::new("hello".to_string(), "Ann".to_string());
    ann.manual_handler_operation(HandlerOperation::ServerMsg { msg: line.into_message() });
    assert!(matches!(ann.execute_action(), Ok(None)));
    wire_client_to_server(&mut ann, &mut s_ann);

    server_tick(&mut s_ann); // takes the chat, publishes the relay, hears it back
    server_tick(&mut s_bob); // hears the relay

    wire_server_to_client(&mut s_bob, &mut bob);
    let handed = client_tick(&mut bob);
    assert_eq!(handed.len(), 1);
    match &handed[0] {
        HandlerOperation::InterfaceOperation(InterfaceOperation::ReceivedChat(chat)) => {
            assert_eq!(chat.text(), "hello");
            assert_eq!(chat.author(), "Ann");
            assert_eq!(chat.author_uuid, Some(s_ann.uuid()));
            assert!(!bob.is_own_message(chat), "someone else's line is shown");
        }
        other => panic!("expected the chat line, got {:?}", other),
    }

    // Ann's own interface also relays it back to her; the author filter
    // recognizes it.
    wire_server_to_client(&mut s_ann, &mut ann);
    let echoed = client_tick(&mut ann);
    assert_eq!(echoed.len(), 1);
    match &echoed[0] {
        HandlerOperation::InterfaceOperation(InterfaceOperation::ReceivedChat(chat)) => {
            assert!(ann.is_own_message(chat), "her own line is filtered out");
        }
        other => panic!("expected the echoed chat line, got {:?}", other),
    }
}

#[test]
fn first_claimant_wins_second_handler_never_invoked() {
    // Two handlers that both claim test messages: only the first acts.
    // If the second were invoked too, two relay events would be
    // published; exactly one is.
    let (tx, mut rx) = tokio::sync::broadcast::channel(16);
    let handlers = vec![
        fracture::server::ServerHandler::Test(fracture::server::TestHandler::new()),
        fracture::server::ServerHandler::Test(fracture::server::TestHandler::new()),
    ];
    let mut s = ClientInterface::new("s".to_string(), handlers, tx.clone());
    assert!(matches!(
        s.update_read(Message { data: MessageVarient::ConnectMessage { name: "Ann".to_string() } }),
        fracture::server::UpdateReadStatus::Success
    ));
    assert!(matches!(s.update(), fracture::server::UpdateStatus::Success));
    assert!(matches!(s.update(), fracture::server::UpdateStatus::Success));
    assert!(matches!(
        s.update_read(Message { data: MessageVarient::TestMessage {} }),
        fracture::server::UpdateReadStatus::Success
    ));
    assert!(matches!(s.update(), fracture::server::UpdateStatus::Success));
    s.collect_send_global_actions();
    match rx.try_recv().unwrap() {
        GlobalHandlerOperation::MsgAll { msg } => {
            assert_eq!(msg, Message { data: MessageVarient::TestMessageResponse {} })
        }
        other => panic!("expected the relay event, got {:?}", other),
    }
    assert!(
        matches!(rx.try_recv(), Err(TryRecvError::Empty)),
        "the second handler was never invoked"
    );
}

#[test]
fn presence_updates_reach_the_other_client() {
    // A connection event published on the channel becomes a presence
    // update for the other client's interface.
    let (tx, _rx) = tokio::sync::broadcast::channel(16);
    let handlers = vec![
        fracture::server::ServerHandler::UserInfo(fracture::server::UserInfoUpdateHandler::new()),
    ];
    let mut s = ClientInterface::new("s".to_string(), handlers, tx.clone());
    tx.send(GlobalHandlerOperation::ClientNamed { uuid: 5, name: "Cyn".to_string() }).unwrap();
    s.collect_recv_global_actions().unwrap();
    s.execute_global_actions();
    s.collect_actions();
    assert!(matches!(s.execute_action(), Ok(None)));
    let queued = s.take_next_outgoing().unwrap();
    assert_eq!(
        queued,
        Message {
            data: MessageVarient::ServerInfoUpdate {
                name: None,
                user_updates: vec![fracture::msg::UserNameUpdate::UserNamed {
                    uuid: 5,
                    name: "Cyn".to_string(),
                }],
            }
        }
    );
}

#[test]
fn lagged_receiver_is_reported_fatal() {
    // A receiver that fell behind the channel's capacity observes the
    // lag as a fatal error rather than running on with missing events.
    let (tx, _rx) = tokio::sync::broadcast::channel(2);
    let mut s = new_interface(&tx);
    for i in 0..5u128 {
        tx.send(GlobalHandlerOperation::ClientConnect { uuid: i }).unwrap();
    }
    assert!(matches!(
        s.collect_recv_global_actions(),
        Err(fracture::fanout::GlobalRecvError::Lagged(_))
    ));
}

#[test]
fn info_update_handler_renders_status_lines() {
    // The client-side presence handler turns updates into status lines.
    let mut c = new_client("Ann");
    // Reach ready without a server: drive the handshake by hand.
    assert!(matches!(c.update(), UpdateStatus::Success));
    let info = Message {
        data: MessageVarient::ServerInfo {
            server_name: "s".to_string(),
            conn_status: fracture::msg::ConnectionStatus::Connected,
            connected_users: vec![],
            your_uuid: 1,
        },
    };
    assert!(matches!(c.update_read(info), fracture::client::UpdateReadStatus::Success));
    assert!(matches!(c.update(), UpdateStatus::Success));
    assert!(matches!(c.update(), UpdateStatus::Success));
    let update = Message {
        data: MessageVarient::ServerInfoUpdate {
            name: None,
            user_updates: vec![
                fracture::msg::UserNameUpdate::NewUser { uuid: 2 },
                fracture::msg::UserNameUpdate::UserNamed { uuid: 2, name: "Bob".to_string() },
                fracture::msg::UserNameUpdate::UserLeft { uuid: 2, name: Some("Bob".to_string()) },
                fracture::msg::UserNameUpdate::UserLeft { uuid: 3, name: None },
            ],
        },
    };
    assert!(matches!(c.update_read(update), fracture::client::UpdateReadStatus::Success));
    let handed = client_tick(&mut c);
    let texts: Vec<String> = handed
        .iter()
        .map(|op| match op {
            HandlerOperation::InterfaceOperation(InterfaceOperation::ReceivedRawMessage(m)) => {
                m.text().clone()
            }
            other => panic!("expected status lines, got {:?}", other),
        })
        .collect();
    assert_eq!(
        texts,
        vec![
            "Bob joined the server.".to_string(),
            "Bob left the server.".to_string(),
            "an unnamed user left the server.".to_string(),
        ]
    );
}
