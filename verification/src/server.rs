//! The server side of one connection: the interface that drives a single
//! client through the handshake, dispatches its ready-state traffic to
//! handlers, runs the operation pipeline, and exchanges global events
//! with every other connection over the broadcast channel.
use vstd::prelude::*;

use vstd::string::StringExecFns;

use crate::fanout::GlobalRecvError;
use crate::fanout::GlobalRecvOutcome;
use crate::handler::GlobalHandlerOperation;
use crate::handler::MessageHandler;
use crate::handler::ServerClientInfo;
use crate::handler::ServerMessageHandler;
use crate::msg::ConnectionStatus;
use crate::msg::Message;
use crate::msg::MessageVarient;
use crate::msg::MessageVarientView;
use crate::msg::MessageView;
use crate::msg::ServerDisconnectReason;
use crate::msg::UserId;
use crate::msg::UserNameUpdate;
use crate::sock::ReadMessageError;
use crate::sock::SendStatus;

verus! {

/// What a connection tells its handlers about the client, once the
/// handshake has named it.
#[derive(Debug)]
pub struct ClientInfo {
    pub name: String,
    pub uuid: UserId,
}

impl Clone for ClientInfo {
    /// A copy with the same name characters and the same identity.
    fn clone(&self) -> (r: Self)
        ensures
            r.name@ == self.name@,
            r.uuid == self.uuid,
    {
        ClientInfo { name: self.name.clone(), uuid: self.uuid }
    }
}

/// An operation a server-side handler asks its connection to perform.
#[derive(Debug, PartialEq, Eq)]
pub enum HandlerOperation {
    /// Send a message back to this connection's client.
    Client { msg: Message },
}

/// Mathematical view of a server `HandlerOperation`.
pub enum HandlerOperationView {
    Client { msg: MessageView },
}

impl View for HandlerOperation {
    type V = HandlerOperationView;

    open spec fn view(&self) -> HandlerOperationView {
        match self {
            HandlerOperation::Client { msg } => HandlerOperationView::Client { msg: msg@ },
        }
    }
}

impl Clone for HandlerOperation {
    /// A copy whose view is identical to the original's.
    fn clone(&self) -> (r: Self)
        ensures
            r@ == self@,
    {
        match self {
            HandlerOperation::Client { msg } => HandlerOperation::Client { msg: msg.clone() },
        }
    }
}

/// The protocol states a server-side connection moves through, exactly
/// one active at a time.
#[derive(Clone, Copy, Debug, PartialEq, Eq, Structural)]
pub enum InterfaceState {
    /// Waiting for the client's connect message; nothing else is legal.
    Start,
    /// The client has named itself; answer with the server's information
    /// and let the handlers meet the client before normal traffic.
    ReceivedConnectMessage,
    /// Normal traffic, dispatched to the handlers.
    Ready,
    /// The connection is over; nothing more is accepted or sent.
    Closed,
}

/// Outcome of one update tick.
#[derive(Debug)]
pub enum UpdateStatus {
    Success,
    /// Nothing to do.
    Noop,
    /// The client broke the connection rules; the caller must send a
    /// forced disconnect and shut the socket.
    ClientKicked(String),
    /// A message arrived that is not valid now.
    Unexpected(Message),
    /// Sending failed.
    SendError(SendStatus),
    /// No handler claimed this message.
    Unhandled(Message),
}

/// Outcome of handing one read message to the interface.
#[derive(Debug)]
pub enum UpdateReadStatus {
    /// The peer vanished without a word.
    Disconnected,
    /// The client said goodbye properly.
    GracefulDisconnect,
    Success,
    /// The stream broke or produced garbage.
    ReadError(ReadMessageError),
}

/// Outcome of flushing the outbound queue.
#[derive(Debug)]
pub enum MultiSendStatus {
    Worked { amnt: u32, bytes: u128 },
    Failure(SendStatus),
    NoTask,
}

// ---------------------------------------------------------------------------
// The server's handlers.
// ---------------------------------------------------------------------------
/// Delivers broadcast messages to this connection's client: every global
/// relay event becomes a send to the client.
#[derive(Debug)]
pub struct MsgAllHandler {
    pending: Vec<HandlerOperation>,
}

impl MsgAllHandler {
    /// The operations accumulated and not yet handed over.
    pub closed spec fn pending_ops(&self) -> Seq<HandlerOperation> {
        self.pending@
    }

    /// A fresh handler with nothing accumulated.
    pub fn new() -> (r: Self)
        ensures
            r.pending_ops() == Seq::<HandlerOperation>::empty(),
    {
        MsgAllHandler { pending: Vec::new() }
    }
}

/// Claims the client's chat lines and turns each into a global relay
/// event carrying the author's name and identity.
#[derive(Debug)]
pub struct IncomingChatHandler {
    pending_global: Vec<GlobalHandlerOperation>,
    client_data: Option<ClientInfo>,
}

impl IncomingChatHandler {
    /// The global events accumulated and not yet handed over.
    pub closed spec fn pending_global_ops(&self) -> Seq<GlobalHandlerOperation> {
        self.pending_global@
    }

    /// The client identity this handler has recorded, if any.
    pub closed spec fn stored_client_data(&self) -> Option<ClientInfo> {
        self.client_data
    }

    /// A fresh handler that has not yet met its client.
    pub fn new() -> (r: Self)
        ensures
            r.pending_global_ops() == Seq::<GlobalHandlerOperation>::empty(),
    {
        IncomingChatHandler { pending_global: Vec::new(), client_data: None }
    }
}

/// Reports presence changes to this connection's client: every connect,
/// naming and disconnect event becomes a server-info update.
#[derive(Debug)]
pub struct UserInfoUpdateHandler {
    pending: Vec<HandlerOperation>,
}

impl UserInfoUpdateHandler {
    /// The operations accumulated and not yet handed over.
    pub closed spec fn pending_ops(&self) -> Seq<HandlerOperation> {
        self.pending@
    }

    /// A fresh handler with nothing accumulated.
    pub fn new() -> (r: Self)
        ensures
            r.pending_ops() == Seq::<HandlerOperation>::empty(),
    {
        UserInfoUpdateHandler { pending: Vec::new() }
    }
}

/// Answers the test round trip: claims test messages and broadcasts the
/// response to everyone.
#[derive(Debug)]
pub struct TestHandler {
    pending: Vec<HandlerOperation>,
    pending_global: Vec<GlobalHandlerOperation>,
}

impl TestHandler {
    /// The operations accumulated and not yet handed over.
    pub closed spec fn pending_ops(&self) -> Seq<HandlerOperation> {
        self.pending@
    }

    /// The global events accumulated and not yet handed over.
    pub closed spec fn pending_global_ops(&self) -> Seq<GlobalHandlerOperation> {
        self.pending_global@
    }

    /// A fresh handler with nothing accumulated.
    pub fn new() -> (r: Self)
        ensures
            r.pending_ops() == Seq::<HandlerOperation>::empty(),
            r.pending_global_ops() == Seq::<GlobalHandlerOperation>::empty(),
    {
        TestHandler { pending: Vec::new(), pending_global: Vec::new() }
    }
}

/// One of the server's handlers; each connection owns an ordered list of
/// these and offers every ready-state message to each in turn.
#[derive(Debug)]
pub enum ServerHandler {
    MsgAll(MsgAllHandler),
    IncomingChat(IncomingChatHandler),
    UserInfo(UserInfoUpdateHandler),
    Test(TestHandler),
}

impl MessageHandler for ServerHandler {
    type Operation = HandlerOperation;

    type OperationView = HandlerOperationView;

    open spec fn op_view(op: HandlerOperation) -> HandlerOperationView {
        op@
    }

    open spec fn ops_for(&self, msg: &Message) -> Seq<HandlerOperationView> {
        Seq::empty()
    }

    open spec fn global_ops_for(&self, msg: &Message) -> Seq<
        crate::handler::GlobalHandlerOperationView,
    > {
        match self {
            ServerHandler::IncomingChat(h) => match (h.stored_client_data(), msg@.data) {
                (
                    Some(cd),
                    MessageVarientView::ClientSendChat { content },
                ) => seq![
                    crate::handler::GlobalHandlerOperationView::MsgAll {
                        msg: MessageView {
                            data: MessageVarientView::ServerSendChat {
                                content,
                                author: cd.name@,
                                author_uuid: cd.uuid.id,
                            },
                        },
                    },
                ],
                _ => Seq::empty(),
            },
            ServerHandler::Test(_) => match msg@.data {
                MessageVarientView::TestMessage => seq![
                    crate::handler::GlobalHandlerOperationView::MsgAll {
                        msg: MessageView { data: MessageVarientView::TestMessageResponse },
                    },
                ],
                _ => Seq::empty(),
            },
            _ => Seq::empty(),
        }
    }

    open spec fn ops_for_event(&self, op: &GlobalHandlerOperation) -> Seq<HandlerOperationView> {
        match self {
            ServerHandler::MsgAll(_) | ServerHandler::Test(_) => match op@ {
                crate::handler::GlobalHandlerOperationView::MsgAll { msg } => seq![
                    HandlerOperationView::Client { msg },
                ],
                _ => Seq::empty(),
            },
            ServerHandler::UserInfo(_) => match op@ {
                crate::handler::GlobalHandlerOperationView::MsgAll { .. } => Seq::empty(),
                crate::handler::GlobalHandlerOperationView::ClientConnect { uuid } => seq![
                    HandlerOperationView::Client {
                        msg: MessageView {
                            data: MessageVarientView::ServerInfoUpdate {
                                name: None,
                                user_updates: seq![
                                    crate::msg::UserNameUpdateView::NewUser { uuid },
                                ],
                            },
                        },
                    },
                ],
                crate::handler::GlobalHandlerOperationView::ClientNamed { uuid, name } => seq![
                    HandlerOperationView::Client {
                        msg: MessageView {
                            data: MessageVarientView::ServerInfoUpdate {
                                name: None,
                                user_updates: seq![
                                    crate::msg::UserNameUpdateView::UserNamed { uuid, name },
                                ],
                            },
                        },
                    },
                ],
                crate::handler::GlobalHandlerOperationView::ClientDisconnect { uuid, name } => seq![
                    HandlerOperationView::Client {
                        msg: MessageView {
                            data: MessageVarientView::ServerInfoUpdate {
                                name: None,
                                user_updates: seq![
                                    crate::msg::UserNameUpdateView::UserLeft { uuid, name },
                                ],
                            },
                        },
                    },
                ],
            },
            ServerHandler::IncomingChat(_) => Seq::empty(),
        }
    }

    open spec fn claims(&self, msg: &Message) -> bool {
        match self {
            ServerHandler::MsgAll(_) => false,
            ServerHandler::IncomingChat(_) => msg@.data
                matches MessageVarientView::ClientSendChat { .. },
            ServerHandler::UserInfo(_) => false,
            ServerHandler::Test(_) => msg@.data matches MessageVarientView::TestMessage,
        }
    }

    open spec fn ops(&self) -> Seq<HandlerOperation> {
        match self {
            ServerHandler::MsgAll(h) => h.pending_ops(),
            ServerHandler::IncomingChat(_) => Seq::empty(),
            ServerHandler::UserInfo(h) => h.pending_ops(),
            ServerHandler::Test(h) => h.pending_ops(),
        }
    }

    open spec fn global_ops(&self) -> Seq<GlobalHandlerOperation> {
        match self {
            ServerHandler::MsgAll(_) => Seq::empty(),
            ServerHandler::IncomingChat(h) => h.pending_global_ops(),
            ServerHandler::UserInfo(_) => Seq::empty(),
            ServerHandler::Test(h) => h.pending_global_ops(),
        }
    }

    open spec fn default_ops(&self) -> Seq<HandlerOperation> {
        Seq::empty()
    }

    fn handle(&mut self, msg: &Message) -> (r: bool) {
        let ghost pre = *self;
        match self {
            ServerHandler::MsgAll(_) => false,
            ServerHandler::IncomingChat(h) => {
                match &msg.data {
                    MessageVarient::ClientSendChat { content } => {
                        match &h.client_data {
                            Some(cd) => {
                                h.pending_global.push(
                                    GlobalHandlerOperation::MsgAll {
                                        msg: Message {
                                            data: MessageVarient::ServerSendChat {
                                                content: content.clone(),
                                                author: cd.name.clone(),
                                                author_uuid: cd.uuid.id,
                                            },
                                        },
                                    },
                                );
                            },
                            None => {},
                        }
                        proof {
                            assert(self.ops().map_values(|o: Self::Operation| Self::op_view(o))
                                =~= pre.ops().map_values(|o: Self::Operation| Self::op_view(o))
                                + pre.ops_for(msg));
                            assert(self.global_ops().map_values(|g: GlobalHandlerOperation| g@)
                                =~= pre.global_ops().map_values(|g: GlobalHandlerOperation| g@)
                                + pre.global_ops_for(msg));
                        }
                        true
                    },
                    _ => false,
                }
            },
            ServerHandler::UserInfo(_) => false,
            ServerHandler::Test(h) => {
                match &msg.data {
                    MessageVarient::TestMessage {} => {
                        h.pending_global.push(
                            GlobalHandlerOperation::MsgAll {
                                msg: Message { data: MessageVarient::TestMessageResponse {  } },
                            },
                        );
                        proof {
                            assert(self.ops().map_values(|o: Self::Operation| Self::op_view(o))
                                =~= pre.ops().map_values(|o: Self::Operation| Self::op_view(o))
                                + pre.ops_for(msg));
                            assert(self.global_ops().map_values(|g: GlobalHandlerOperation| g@)
                                =~= pre.global_ops().map_values(|g: GlobalHandlerOperation| g@)
                                + pre.global_ops_for(msg));
                        }
                        true
                    },
                    _ => false,
                }
            },
        }
    }

    fn handle_global_op(&mut self, op: &GlobalHandlerOperation) {
        let ghost pre = *self;
        match self {
            ServerHandler::MsgAll(h) => {
                match op {
                    GlobalHandlerOperation::MsgAll { msg } => {
                        h.pending.push(HandlerOperation::Client { msg: msg.clone() });
                    },
                    _ => {},
                }
                proof {
                    assert(self.ops().map_values(|o: Self::Operation| Self::op_view(o))
                        =~= pre.ops().map_values(|o: Self::Operation| Self::op_view(o))
                        + pre.ops_for_event(op));
                }
            },
            ServerHandler::IncomingChat(_) => {
                proof {
                    assert(self.ops().map_values(|o: Self::Operation| Self::op_view(o))
                        =~= pre.ops().map_values(|o: Self::Operation| Self::op_view(o))
                        + pre.ops_for_event(op));
                }
            },
            ServerHandler::UserInfo(h) => {
                let update: Option<UserNameUpdate> = match op {
                    GlobalHandlerOperation::MsgAll { .. } => None,
                    GlobalHandlerOperation::ClientConnect { uuid } => Some(
                        UserNameUpdate::NewUser { uuid: *uuid },
                    ),
                    GlobalHandlerOperation::ClientNamed { uuid, name } => Some(
                        UserNameUpdate::UserNamed { uuid: *uuid, name: name.clone() },
                    ),
                    GlobalHandlerOperation::ClientDisconnect { uuid, name } => Some(
                        UserNameUpdate::UserLeft {
                            uuid: *uuid,
                            name: match name {
                                Some(n) => Some(n.clone()),
                                None => None,
                            },
                        },
                    ),
                };
                match update {
                    Some(u) => {
                        let ghost before = h.pending@;
                        let mut user_updates: Vec<UserNameUpdate> = Vec::new();
                        user_updates.push(u);
                        proof {
                            assert(user_updates@.map_values(|x: UserNameUpdate| x@) =~= seq![
                                user_updates@[0]@,
                            ]);
                        }
                        h.pending.push(
                            HandlerOperation::Client {
                                msg: Message {
                                    data: MessageVarient::ServerInfoUpdate {
                                        name: None,
                                        user_updates,
                                    },
                                },
                            },
                        );
                        proof {
                            assert(h.pending@ == before.push(h.pending@.last()));
                            assert(Self::op_view(h.pending@.last()) == pre.ops_for_event(op)[0]);
                            assert(self.ops().map_values(|o: Self::Operation| Self::op_view(o))
                                =~= pre.ops().map_values(|o: Self::Operation| Self::op_view(o))
                                + pre.ops_for_event(op));
                        }
                    },
                    None => {
                        proof {
                            assert(self.ops().map_values(|o: Self::Operation| Self::op_view(o))
                                =~= pre.ops().map_values(|o: Self::Operation| Self::op_view(o))
                                + pre.ops_for_event(op));
                        }
                    },
                }
            },
            ServerHandler::Test(h) => {
                match op {
                    GlobalHandlerOperation::MsgAll { msg } => {
                        h.pending.push(HandlerOperation::Client { msg: msg.clone() });
                    },
                    _ => {},
                }
                proof {
                    assert(self.ops().map_values(|o: Self::Operation| Self::op_view(o))
                        =~= pre.ops().map_values(|o: Self::Operation| Self::op_view(o))
                        + pre.ops_for_event(op));
                }
            },
        }
    }

    fn get_operations(&mut self) -> (r: Option<Vec<HandlerOperation>>) {
        let pending: &mut Vec<HandlerOperation> = match self {
            ServerHandler::MsgAll(h) => &mut h.pending,
            ServerHandler::IncomingChat(_) => {
                return None;
            },
            ServerHandler::UserInfo(h) => &mut h.pending,
            ServerHandler::Test(h) => &mut h.pending,
        };
        if pending.len() == 0 {
            None
        } else {
            let mut v: Vec<HandlerOperation> = Vec::new();
            core::mem::swap(&mut v, pending);
            Some(v)
        }
    }

    fn get_default_operations(&mut self) -> (r: Vec<HandlerOperation>) {
        Vec::new()
    }

    fn get_global_operations(&mut self) -> (r: Option<Vec<GlobalHandlerOperation>>) {
        let pending: &mut Vec<GlobalHandlerOperation> = match self {
            ServerHandler::MsgAll(_) => {
                return None;
            },
            ServerHandler::IncomingChat(h) => &mut h.pending_global,
            ServerHandler::UserInfo(_) => {
                return None;
            },
            ServerHandler::Test(h) => &mut h.pending_global,
        };
        if pending.len() == 0 {
            None
        } else {
            let mut v: Vec<GlobalHandlerOperation> = Vec::new();
            core::mem::swap(&mut v, pending);
            Some(v)
        }
    }
}

impl ServerClientInfo for ServerHandler {
    type ClientData = ClientInfo;

    open spec fn keeps_client_data(&self) -> bool {
        self matches ServerHandler::IncomingChat(_)
    }

    open spec fn client_data(&self) -> Option<ClientInfo> {
        match self {
            ServerHandler::IncomingChat(h) => h.stored_client_data(),
            _ => None,
        }
    }

    fn accept_client_data(&mut self, data: ClientInfo) {
        match self {
            ServerHandler::MsgAll(_) => {},
            ServerHandler::IncomingChat(h) => {
                h.client_data = Some(data);
            },
            ServerHandler::UserInfo(_) => {},
            ServerHandler::Test(_) => {},
        }
    }
}

impl ServerMessageHandler for ServerHandler {

}

// ---------------------------------------------------------------------------
// The server-side connection interface.
// ---------------------------------------------------------------------------
/// Relies on uuid::Uuid::new_v4: a randomly generated 128-bit identifier.
/// The value is random, so nothing is promised of it. Generation aborts
/// if the operating system's randomness source fails, an environmental
/// failure of the same kind as an allocation failure.
#[verifier::external_body]
fn fresh_uuid() -> (r: u128) {
    uuid::Uuid::new_v4().as_u128()
}

/// Moves every operation of a batch into the pending queue, keeping order.
fn enqueue_server_ops(q: &mut queues::Queue<HandlerOperation>, v: Vec<HandlerOperation>)
    ensures
        crate::fifo::server_op_queue(final(q)) == crate::fifo::server_op_queue(old(q)) + v@,
{
    let ghost all = v@;
    let ghost base = crate::fifo::server_op_queue(old(q));
    let mut v = v;
    while v.len() > 0
        invariant
            v@.len() <= all.len(),
            all.skip(all.len() - v@.len()) == v@,
            crate::fifo::server_op_queue(q) == base + all.take(all.len() - v@.len()),
        decreases v@.len(),
    {
        let ghost k = all.len() - v@.len();
        let x = v.remove(0);
        proof {
            assert(x == all.skip(k)[0]);
        }
        crate::fifo::server_op_queue_add(q, x);
        proof {
            assert(all.take(k).push(all[k]) =~= all.take(k + 1));
            assert(all.skip(k + 1) =~= v@);
        }
    }
    proof {
        assert(all.take(all.len() as int) =~= all);
    }
}

/// Publishes every event of a batch on the global channel, in order. A
/// publish that found no other subscriber is harmless and ignored.
fn send_all_global(
    tx: &tokio::sync::broadcast::Sender<GlobalHandlerOperation>,
    v: Vec<GlobalHandlerOperation>,
) {
    let mut v = v;
    while v.len() > 0
        decreases v@.len(),
    {
        let x = v.remove(0);
        let _ = crate::fanout::send_global(tx, x);
    }
}

/// The reason a client is kicked for breaking the connect sequence,
/// naming the message it sent instead.
pub open spec fn kick_reason_text(d: MessageVarientView) -> Seq<char> {
    "received "@ + crate::msg::spec_varient_name(d)
        + " instead of a connect message during the handshake"@
}

/// The server side of one client's connection: the protocol state, the
/// queues, the handlers, the client's identity, and this connection's
/// handles on the global event channel. The socket stays with the
/// caller, which hands decoded messages in and takes queued messages out.
pub struct ClientInterface {
    to_send: queues::Queue<Message>,
    incoming: queues::Queue<Message>,
    state: InterfaceState,
    handlers: Vec<ServerHandler>,
    pending_op: queues::Queue<HandlerOperation>,
    global_handler_rx: tokio::sync::broadcast::Receiver<GlobalHandlerOperation>,
    global_handler_tx: tokio::sync::broadcast::Sender<GlobalHandlerOperation>,
    pending_global_ops: queues::Queue<GlobalHandlerOperation>,
    server_name: String,
    client_name: Option<String>,
    uuid: UserId,
}

impl ClientInterface {
    /// The server's display name, sent to the client at the handshake.
    pub closed spec fn spec_server_name(&self) -> Seq<char> {
        self.server_name@
    }

    /// The name the client declared, once it has.
    pub closed spec fn spec_client_name(&self) -> Option<String> {
        self.client_name
    }

    /// The identity this connection assigned its client.
    pub closed spec fn spec_uuid(&self) -> UserId {
        self.uuid
    }

    /// The protocol state the connection is in.
    pub closed spec fn spec_state(&self) -> InterfaceState {
        self.state
    }

    /// Messages received and not yet processed, oldest first.
    pub closed spec fn spec_incoming(&self) -> Seq<Message> {
        crate::fifo::msg_queue(&self.incoming)
    }

    /// Messages queued for sending and not yet sent, oldest first.
    pub closed spec fn spec_outgoing(&self) -> Seq<Message> {
        crate::fifo::msg_queue(&self.to_send)
    }

    /// Handler operations collected and not yet executed, oldest first.
    pub closed spec fn spec_pending(&self) -> Seq<HandlerOperation> {
        crate::fifo::server_op_queue(&self.pending_op)
    }

    /// Global events received and not yet fed to the handlers, oldest
    /// first.
    pub closed spec fn spec_pending_global(&self) -> Seq<GlobalHandlerOperation> {
        crate::fifo::global_op_queue(&self.pending_global_ops)
    }

    /// The handlers, in the order they are offered messages.
    pub closed spec fn spec_handlers(&self) -> Seq<ServerHandler> {
        self.handlers@
    }

    /// The connection's internal invariant: once the connect message has
    /// been taken, the client has a name.
    pub open spec fn wf(&self) -> bool {
        self.spec_state() == InterfaceState::ReceivedConnectMessage ==> self.spec_client_name()
            is Some
    }

    /// A connection that has not yet heard from its client, subscribed to
    /// the global event channel and assigned a fresh random identity.
    pub fn new(
        name: String,
        handlers: Vec<ServerHandler>,
        global_handler_channel: tokio::sync::broadcast::Sender<GlobalHandlerOperation>,
    ) -> (r: Self)
        ensures
            r.wf(),
            r.spec_server_name() == name@,
            r.spec_client_name() is None,
            r.spec_state() == InterfaceState::Start,
            r.spec_incoming() == Seq::<Message>::empty(),
            r.spec_outgoing() == Seq::<Message>::empty(),
            r.spec_pending() == Seq::<HandlerOperation>::empty(),
            r.spec_pending_global() == Seq::<GlobalHandlerOperation>::empty(),
            r.spec_handlers() == handlers@,
    {
        let global_handler_rx = crate::fanout::subscribe_global(&global_handler_channel);
        ClientInterface {
            to_send: crate::fifo::msg_queue_new(),
            incoming: crate::fifo::msg_queue_new(),
            state: InterfaceState::Start,
            handlers,
            pending_op: crate::fifo::server_op_queue_new(),
            global_handler_rx,
            global_handler_tx: global_handler_channel,
            pending_global_ops: crate::fifo::global_op_queue_new(),
            server_name: name,
            client_name: None,
            uuid: UserId { id: fresh_uuid() },
        }
    }

    /// The name the client declared, once it has; the client names
    /// itself, the server only records it.
    pub fn name(&self) -> (r: Option<String>)
        ensures
            match (r, self.spec_client_name()) {
                (Some(a), Some(b)) => a@ == b@,
                (None, None) => true,
                _ => false,
            },
    {
        match &self.client_name {
            Some(n) => Some(n.clone()),
            None => None,
        }
    }

    /// The identity this connection assigned its client at acceptance;
    /// the client has no say in it.
    pub fn uuid(&self) -> (r: UserId)
        ensures
            r == self.spec_uuid(),
    {
        self.uuid
    }

    /// The protocol state the connection is in.
    pub fn state(&self) -> (r: InterfaceState)
        ensures
            r == self.spec_state(),
    {
        self.state
    }

    /// Decides how to end the connection. With a reason given, the
    /// returned forced-disconnect message must be sent before the socket
    /// is shut down; with none, the client is not notified. Queued
    /// messages are deliberately not flushed: the client could not answer
    /// them. Afterwards the interface is closed for good.
    pub fn close(&mut self, disconn_msg: String, pos_reason: Option<ServerDisconnectReason>) -> (r:
        Option<Message>)
        ensures
            match pos_reason {
                Some(reason) => r matches Some(m) && m@.data
                    matches MessageVarientView::ServerForceDisconnect {
                    reason: mr,
                    close_message: cm,
                } && mr == reason && cm == disconn_msg@,
                None => r is None,
            },
            final(self).spec_state() == InterfaceState::Closed,
            final(self).spec_incoming() == old(self).spec_incoming(),
            final(self).spec_outgoing() == old(self).spec_outgoing(),
            final(self).spec_pending() == old(self).spec_pending(),
            final(self).spec_pending_global() == old(self).spec_pending_global(),
            final(self).spec_handlers() == old(self).spec_handlers(),
            final(self).spec_server_name() == old(self).spec_server_name(),
            final(self).spec_client_name() == old(self).spec_client_name(),
            final(self).spec_uuid() == old(self).spec_uuid(),
            final(self).wf(),
    {
        self.state = InterfaceState::Closed;
        match pos_reason {
            Some(reason) => Some(
                Message {
                    data: MessageVarient::ServerForceDisconnect {
                        reason,
                        close_message: disconn_msg,
                    },
                },
            ),
            None => None,
        }
    }

    /// Queues a message for sending to the client; the caller's write
    /// loop drains it in order.
    pub fn queue_message(&mut self, msg: Message)
        ensures
            final(self).spec_outgoing() == old(self).spec_outgoing().push(msg),
            final(self).spec_incoming() == old(self).spec_incoming(),
            final(self).spec_pending() == old(self).spec_pending(),
            final(self).spec_pending_global() == old(self).spec_pending_global(),
            final(self).spec_handlers() == old(self).spec_handlers(),
            final(self).spec_server_name() == old(self).spec_server_name(),
            final(self).spec_client_name() == old(self).spec_client_name(),
            final(self).spec_uuid() == old(self).spec_uuid(),
            final(self).spec_state() == old(self).spec_state(),
    {
        crate::fifo::msg_queue_add(&mut self.to_send, msg);
    }

    /// Takes the oldest queued outbound message, if any, for the caller
    /// to encode and write.
    pub fn take_next_outgoing(&mut self) -> (r: Option<Message>)
        ensures
            match r {
                Some(m) => old(self).spec_outgoing().len() > 0 && m == old(self).spec_outgoing()[0]
                    && final(self).spec_outgoing() == old(self).spec_outgoing().drop_first(),
                None => old(self).spec_outgoing().len() == 0 && final(self).spec_outgoing() == old(
                    self,
                ).spec_outgoing(),
            },
            final(self).spec_incoming() == old(self).spec_incoming(),
            final(self).spec_pending() == old(self).spec_pending(),
            final(self).spec_pending_global() == old(self).spec_pending_global(),
            final(self).spec_handlers() == old(self).spec_handlers(),
            final(self).spec_server_name() == old(self).spec_server_name(),
            final(self).spec_client_name() == old(self).spec_client_name(),
            final(self).spec_uuid() == old(self).spec_uuid(),
            final(self).spec_state() == old(self).spec_state(),
    {
        crate::fifo::msg_queue_remove(&mut self.to_send)
    }

    /// One tick of the protocol state machine, exactly one state active
    /// at a time: in `Start` only the client's connect message is
    /// accepted — anything else, a ping included, kicks the client with a
    /// readable reason, and the connection never sits in `Start` again;
    /// in `ReceivedConnectMessage` the server answers with its
    /// information, every handler meets the client's identity and hands
    /// over its startup operations, and the connection becomes ready; in
    /// `Ready` a ping is answered ahead of all dispatch, and every other
    /// message is offered to each handler in registration order, first
    /// claim wins — handlers after the first claimant are never invoked.
    /// A message no handler claims is handed back, and the interface
    /// keeps running.
    pub fn update(&mut self) -> (r: UpdateStatus)
        requires
            old(self).wf(),
        ensures
            final(self).wf(),
            final(self).spec_server_name() == old(self).spec_server_name(),
            final(self).spec_uuid() == old(self).spec_uuid(),
            old(self).spec_state() == InterfaceState::Start && old(self).spec_incoming().len() == 0
                ==> (r matches UpdateStatus::Noop && *final(self) == *old(self)),
            old(self).spec_state() == InterfaceState::Start && old(self).spec_incoming().len() > 0
                ==> {
                let m = old(self).spec_incoming()[0];
                match m@.data {
                    MessageVarientView::ConnectMessage { name } => {
                        &&& r matches UpdateStatus::Success
                        &&& final(self).spec_state() == InterfaceState::ReceivedConnectMessage
                        &&& final(self).spec_client_name() matches Some(n) && n@ == name
                        &&& final(self).spec_incoming() == old(self).spec_incoming().drop_first()
                        &&& final(self).spec_outgoing() == old(self).spec_outgoing()
                        &&& final(self).spec_pending() == old(self).spec_pending()
                        &&& final(self).spec_pending_global() == old(self).spec_pending_global()
                        &&& final(self).spec_handlers() == old(self).spec_handlers()
                    },
                    _ => {
                        &&& r matches UpdateStatus::ClientKicked(reason) && reason@
                            == kick_reason_text(m@.data)
                        &&& final(self).spec_state() == InterfaceState::Closed
                        &&& final(self).spec_incoming() == old(self).spec_incoming().drop_first()
                        &&& final(self).spec_outgoing() == old(self).spec_outgoing()
                        &&& final(self).spec_pending() == old(self).spec_pending()
                        &&& final(self).spec_pending_global() == old(self).spec_pending_global()
                        &&& final(self).spec_handlers() == old(self).spec_handlers()
                        &&& final(self).spec_client_name() == old(self).spec_client_name()
                    },
                }
            },
            old(self).spec_state() == InterfaceState::ReceivedConnectMessage ==> {
                &&& r matches UpdateStatus::Success
                &&& final(self).spec_state() == InterfaceState::Ready
                &&& final(self).spec_outgoing().len() == old(self).spec_outgoing().len() + 1
                &&& final(self).spec_outgoing().last()@.data
                    matches MessageVarientView::ServerInfo {
                    server_name,
                    conn_status,
                    connected_users,
                    your_uuid,
                } && server_name == old(self).spec_server_name() && conn_status
                    == crate::msg::ConnectionStatusView::Connected && connected_users == Seq::<
                    crate::msg::UserNameUpdateView,
                >::empty() && your_uuid == old(self).spec_uuid().id
                &&& final(self).spec_outgoing().drop_last() == old(self).spec_outgoing()
                &&& final(self).spec_pending() == old(self).spec_pending()
                    + crate::handler::all_default_ops(final(self).spec_handlers())
                &&& final(self).spec_handlers().len() == old(self).spec_handlers().len()
                &&& forall|j: int|
                    0 <= j < final(self).spec_handlers().len()
                        ==> ((#[trigger] final(self).spec_handlers()[j]).keeps_client_data()
                        ==> {
                        &&& final(self).spec_handlers()[j].client_data() matches Some(ci)
                        &&& old(self).spec_client_name() matches Some(n) && ci.name@ == n@
                        &&& ci.uuid == old(self).spec_uuid()
                    })
                &&& final(self).spec_incoming() == old(self).spec_incoming()
                &&& final(self).spec_pending_global() == old(self).spec_pending_global()
                &&& final(self).spec_client_name() == old(self).spec_client_name()
            },
            old(self).spec_state() == InterfaceState::Ready && old(self).spec_incoming().len() == 0
                ==> (r matches UpdateStatus::Noop && *final(self) == *old(self)),
            old(self).spec_state() == InterfaceState::Ready && old(self).spec_incoming().len() > 0
                && (old(self).spec_incoming()[0]@.data matches MessageVarientView::Ping) ==> {
                &&& r matches UpdateStatus::Success
                &&& final(self).spec_state() == InterfaceState::Ready
                &&& final(self).spec_incoming() == old(self).spec_incoming().drop_first()
                &&& final(self).spec_outgoing().len() == old(self).spec_outgoing().len() + 1
                &&& final(self).spec_outgoing().last()@.data matches MessageVarientView::Pong
                &&& final(self).spec_outgoing().drop_last() == old(self).spec_outgoing()
                &&& final(self).spec_pending() == old(self).spec_pending()
                &&& final(self).spec_pending_global() == old(self).spec_pending_global()
                &&& final(self).spec_handlers() == old(self).spec_handlers()
                &&& final(self).spec_client_name() == old(self).spec_client_name()
            },
            old(self).spec_state() == InterfaceState::Ready && old(self).spec_incoming().len() > 0
                && !(old(self).spec_incoming()[0]@.data matches MessageVarientView::Ping) ==> {
                let m = old(self).spec_incoming()[0];
                let hs = old(self).spec_handlers();
                &&& final(self).spec_state() == InterfaceState::Ready
                &&& final(self).spec_incoming() == old(self).spec_incoming().drop_first()
                &&& final(self).spec_outgoing() == old(self).spec_outgoing()
                &&& final(self).spec_pending() == old(self).spec_pending()
                &&& final(self).spec_pending_global() == old(self).spec_pending_global()
                &&& final(self).spec_client_name() == old(self).spec_client_name()
                &&& final(self).spec_handlers().len() == hs.len()
                &&& if exists|k: int| 0 <= k < hs.len() && (#[trigger] hs[k].claims(&m)) {
                    let k = crate::handler::first_claimant(hs, m);
                    &&& r matches UpdateStatus::Success
                    &&& 0 <= k < hs.len()
                    &&& hs[k].claims(&m)
                    &&& forall|j: int| 0 <= j < k ==> !(#[trigger] hs[j].claims(&m))
                    &&& forall|j: int|
                        0 <= j < hs.len() && j != k ==> final(self).spec_handlers()[j] == hs[j]
                    &&& final(self).spec_handlers()[k].ops().map_values(
                        |o: HandlerOperation| ServerHandler::op_view(o),
                    ) == hs[k].ops().map_values(|o: HandlerOperation| ServerHandler::op_view(o))
                        + hs[k].ops_for(&m)
                    &&& final(self).spec_handlers()[k].global_ops().map_values(
                        |g: GlobalHandlerOperation| g@,
                    ) == hs[k].global_ops().map_values(|g: GlobalHandlerOperation| g@) + hs[
                        k
                    ].global_ops_for(&m)
                } else {
                    &&& r matches UpdateStatus::Unhandled(u) && u == m
                    &&& final(self).spec_handlers() == hs
                }
            },
            old(self).spec_state() == InterfaceState::Closed ==> (r matches UpdateStatus::Noop
                && *final(self) == *old(self)),
    {
        match self.state {
            InterfaceState::Start => {
                if crate::fifo::msg_queue_size(&self.incoming) == 0 {
                    return UpdateStatus::Noop;
                }
                match crate::fifo::msg_queue_remove(&mut self.incoming) {
                    None => {
                        proof {
                            assert(false);
                        }
                        UpdateStatus::Noop
                    },
                    Some(msg) => {
                        match msg.data {
                            MessageVarient::ConnectMessage { name } => {
                                self.client_name = Some(name);
                                self.state = InterfaceState::ReceivedConnectMessage;
                                UpdateStatus::Success
                            },
                            _ => {
                                self.state = InterfaceState::Closed;
                                let reason = "received ".to_owned().concat(
                                    crate::msg::varient_name(&msg.data),
                                ).concat(" instead of a connect message during the handshake");
                                UpdateStatus::ClientKicked(reason)
                            },
                        }
                    },
                }
            },
            InterfaceState::ReceivedConnectMessage => {
                let client_name = match &self.client_name {
                    Some(n) => n.clone(),
                    None => {
                        proof {
                            assert(false);
                        }
                        String::new()
                    },
                };
                self.queue_message(
                    Message {
                        data: MessageVarient::ServerInfo {
                            server_name: self.server_name.clone(),
                            conn_status: ConnectionStatus::Connected,
                            connected_users: Vec::new(),
                            your_uuid: self.uuid.id,
                        },
                    },
                );
                let ghost snap = *self;
                let n = self.handlers.len();
                for i in 0..n
                    invariant
                        n == self.handlers@.len(),
                        crate::fifo::server_op_queue(&self.pending_op) == snap.spec_pending()
                            + crate::handler::all_default_ops(self.handlers@.take(i as int)),
                        forall|j: int|
                            0 <= j < i ==> ((#[trigger] self.handlers@[j]).keeps_client_data()
                                ==> {
                                &&& self.handlers@[j].client_data() matches Some(ci)
                                &&& ci.name@ == client_name@
                                &&& ci.uuid == snap.spec_uuid()
                            }),
                        self.spec_incoming() == snap.spec_incoming(),
                        self.spec_outgoing() == snap.spec_outgoing(),
                        self.spec_pending_global() == snap.spec_pending_global(),
                        self.spec_server_name() == snap.spec_server_name(),
                        self.spec_client_name() == snap.spec_client_name(),
                        self.spec_uuid() == snap.spec_uuid(),
                        self.spec_state() == snap.spec_state(),
                {
                    let ghost before = self.handlers@;
                    let mut h = self.handlers.remove(i);
                    h.accept_client_data(
                        ClientInfo { name: client_name.clone(), uuid: self.uuid },
                    );
                    let ops = h.get_default_operations();
                    let ghost hafter = h;
                    self.handlers.insert(i, h);
                    proof {
                        assert(self.handlers@ =~= before.update(i as int, hafter));
                        assert(self.handlers@.take(i as int) =~= before.take(i as int));
                        assert(self.handlers@.take(i as int).push(hafter) =~= self.handlers@.take(
                            i + 1 as int,
                        ));
                        crate::handler::lemma_all_default_ops_push(
                            self.handlers@.take(i as int),
                            hafter,
                        );
                    }
                    enqueue_server_ops(&mut self.pending_op, ops);
                }
                proof {
                    assert(self.handlers@.take(self.handlers@.len() as int) =~= self.handlers@);
                }
                self.state = InterfaceState::Ready;
                UpdateStatus::Success
            },
            InterfaceState::Ready => {
                if crate::fifo::msg_queue_size(&self.incoming) == 0 {
                    return UpdateStatus::Noop;
                }
                match crate::fifo::msg_queue_remove(&mut self.incoming) {
                    None => {
                        proof {
                            assert(false);
                        }
                        UpdateStatus::Noop
                    },
                    Some(msg) => {
                        let is_ping = match &msg.data {
                            MessageVarient::Ping => true,
                            _ => false,
                        };
                        if is_ping {
                            self.queue_message(Message { data: MessageVarient::Pong });
                            UpdateStatus::Success
                        } else {
                            let ghost hs0 = self.handlers@;
                            let ghost snap = *self;
                            let mut i: usize = 0;
                            let mut claimed = false;
                            let ghost mut kk: int = 0;
                            while !claimed && i < self.handlers.len()
                                invariant
                                    self.handlers@.len() == hs0.len(),
                                    i <= hs0.len(),
                                    !claimed ==> self.handlers@ == hs0 && (forall|j: int|
                                        0 <= j < i ==> !(#[trigger] hs0[j].claims(&msg))),
                                    claimed ==> {
                                        &&& 0 <= kk < hs0.len()
                                        &&& hs0[kk].claims(&msg)
                                        &&& forall|j: int|
                                            0 <= j < kk ==> !(#[trigger] hs0[j].claims(&msg))
                                        &&& forall|j: int|
                                            0 <= j < hs0.len() && j != kk ==> self.handlers@[j]
                                                == hs0[j]
                                        &&& self.handlers@[kk].ops().map_values(
                                            |o: HandlerOperation| ServerHandler::op_view(o),
                                        ) == hs0[kk].ops().map_values(
                                            |o: HandlerOperation| ServerHandler::op_view(o),
                                        ) + hs0[kk].ops_for(&msg)
                                        &&& self.handlers@[kk].global_ops().map_values(
                                            |g: GlobalHandlerOperation| g@,
                                        ) == hs0[kk].global_ops().map_values(
                                            |g: GlobalHandlerOperation| g@,
                                        ) + hs0[kk].global_ops_for(&msg)
                                    },
                                    self.spec_incoming() == snap.spec_incoming(),
                                    self.spec_outgoing() == snap.spec_outgoing(),
                                    self.spec_pending() == snap.spec_pending(),
                                    self.spec_pending_global() == snap.spec_pending_global(),
                                    self.spec_server_name() == snap.spec_server_name(),
                                    self.spec_client_name() == snap.spec_client_name(),
                                    self.spec_uuid() == snap.spec_uuid(),
                                    self.spec_state() == snap.spec_state(),
                                decreases hs0.len() - i + (if claimed {
                                    0int
                                } else {
                                    1int
                                }),
                            {
                                let mut h = self.handlers.remove(i);
                                proof {
                                    assert(h == hs0[i as int]);
                                }
                                let res = h.handle(&msg);
                                let ghost hafter = h;
                                self.handlers.insert(i, h);
                                proof {
                                    assert(self.handlers@ =~= hs0.update(i as int, hafter));
                                    if !res {
                                        assert(hafter == hs0[i as int]);
                                        assert(self.handlers@ =~= hs0);
                                    } else {
                                        assert(hs0[i as int].claims(&msg));
                                    }
                                }
                                if res {
                                    claimed = true;
                                    proof {
                                        kk = i as int;
                                    }
                                } else {
                                    i = i + 1;
                                }
                            }
                            if claimed {
                                proof {
                                    assert(hs0[kk].claims(&msg));
                                    crate::handler::lemma_first_claimant(hs0, msg, kk);
                                }
                                UpdateStatus::Success
                            } else {
                                UpdateStatus::Unhandled(msg)
                            }
                        }
                    },
                }
            },
            InterfaceState::Closed => UpdateStatus::Noop,
        }
    }

    /// Asks every handler for its accumulated operations and queues them
    /// all, in registration order, oldest first within each handler;
    /// afterwards no handler holds any.
    pub fn collect_actions(&mut self)
        ensures
            final(self).spec_pending() == old(self).spec_pending() + crate::handler::all_ops(
                old(self).spec_handlers(),
            ),
            final(self).spec_handlers().len() == old(self).spec_handlers().len(),
            forall|j: int|
                0 <= j < old(self).spec_handlers().len()
                    ==> (#[trigger] final(self).spec_handlers()[j]).ops() == Seq::<
                    HandlerOperation,
                >::empty(),
            forall|j: int, m: Message|
                0 <= j < old(self).spec_handlers().len()
                    ==> (#[trigger] final(self).spec_handlers()[j].claims(&m)) == old(
                    self,
                ).spec_handlers()[j].claims(&m),
            forall|j: int|
                0 <= j < old(self).spec_handlers().len()
                    ==> (#[trigger] final(self).spec_handlers()[j]).global_ops() == old(
                    self,
                ).spec_handlers()[j].global_ops(),
            final(self).spec_incoming() == old(self).spec_incoming(),
            final(self).spec_outgoing() == old(self).spec_outgoing(),
            final(self).spec_pending_global() == old(self).spec_pending_global(),
            final(self).spec_server_name() == old(self).spec_server_name(),
            final(self).spec_client_name() == old(self).spec_client_name(),
            final(self).spec_uuid() == old(self).spec_uuid(),
            final(self).spec_state() == old(self).spec_state(),
    {
        let ghost hs0 = self.handlers@;
        let ghost base = crate::fifo::server_op_queue(&self.pending_op);
        let ghost snap = *self;
        let n = self.handlers.len();
        for i in 0..n
            invariant
                n == self.handlers@.len(),
                self.handlers@.len() == hs0.len(),
                crate::fifo::server_op_queue(&self.pending_op) == base + crate::handler::all_ops(
                    hs0.take(i as int),
                ),
                forall|j: int| i <= j < hs0.len() ==> self.handlers@[j] == hs0[j],
                forall|j: int|
                    0 <= j < i ==> (#[trigger] self.handlers@[j]).ops() == Seq::<
                        HandlerOperation,
                    >::empty(),
                forall|j: int, m: Message|
                    0 <= j < i ==> (#[trigger] self.handlers@[j].claims(&m)) == hs0[j].claims(&m),
                forall|j: int|
                    0 <= j < i ==> (#[trigger] self.handlers@[j]).global_ops()
                        == hs0[j].global_ops(),
                self.spec_incoming() == snap.spec_incoming(),
                self.spec_outgoing() == snap.spec_outgoing(),
                self.spec_pending_global() == snap.spec_pending_global(),
                self.spec_server_name() == snap.spec_server_name(),
                self.spec_client_name() == snap.spec_client_name(),
                self.spec_uuid() == snap.spec_uuid(),
                self.spec_state() == snap.spec_state(),
        {
            let mut h = self.handlers.remove(i);
            proof {
                assert(h == hs0[i as int]);
            }
            let ops = h.get_operations();
            self.handlers.insert(i, h);
            match ops {
                Some(v) => {
                    enqueue_server_ops(&mut self.pending_op, v);
                },
                None => {},
            }
            proof {
                assert(hs0.take(i as int).push(hs0[i as int]) =~= hs0.take(i + 1 as int));
                crate::handler::lemma_all_ops_push(hs0.take(i as int), hs0[i as int]);
                assert(crate::fifo::server_op_queue(&self.pending_op) =~= base
                    + crate::handler::all_ops(hs0.take(i + 1 as int)));
            }
        }
        proof {
            assert(hs0.take(hs0.len() as int) =~= hs0);
        }
    }

    /// Executes the oldest pending operation. A message for the client is
    /// resolved here, queued for sending, and `Ok(None)` says there is
    /// nothing more to do; `Err(None)` says nothing was pending. No other
    /// outcome exists: every operation kind is recognized.
    pub fn execute_action(&mut self) -> (r: Result<Option<HandlerOperation>, Option<
        HandlerOperation,
    >>)
        ensures
            old(self).spec_pending().len() == 0 ==> (r matches Err(o) && o is None && *final(self)
                == *old(self)),
            old(self).spec_pending().len() > 0 ==> {
                &&& final(self).spec_pending() == old(self).spec_pending().drop_first()
                &&& match old(self).spec_pending()[0] {
                    HandlerOperation::Client { msg } => r matches Ok(o) && o is None
                        && final(self).spec_outgoing() == old(self).spec_outgoing().push(msg),
                }
                &&& final(self).spec_incoming() == old(self).spec_incoming()
                &&& final(self).spec_pending_global() == old(self).spec_pending_global()
                &&& final(self).spec_handlers() == old(self).spec_handlers()
                &&& final(self).spec_server_name() == old(self).spec_server_name()
                &&& final(self).spec_client_name() == old(self).spec_client_name()
                &&& final(self).spec_uuid() == old(self).spec_uuid()
                &&& final(self).spec_state() == old(self).spec_state()
            },
    {
        if crate::fifo::server_op_queue_size(&self.pending_op) == 0 {
            return Err(None);
        }
        match crate::fifo::server_op_queue_remove(&mut self.pending_op) {
            None => {
                proof {
                    assert(false);
                }
                Err(None)
            },
            Some(op) => match op {
                HandlerOperation::Client { msg } => {
                    crate::fifo::msg_queue_add(&mut self.to_send, msg);
                    Ok(None)
                },
            },
        }
    }

    /// Asks every handler for the global events it wants to emit and
    /// publishes each on the shared channel, in registration order;
    /// afterwards no handler holds any. A publish that found no other
    /// subscriber is harmless.
    pub fn collect_send_global_actions(&mut self)
        ensures
            final(self).spec_handlers().len() == old(self).spec_handlers().len(),
            forall|j: int|
                0 <= j < old(self).spec_handlers().len()
                    ==> (#[trigger] final(self).spec_handlers()[j]).global_ops() == Seq::<
                    GlobalHandlerOperation,
                >::empty(),
            forall|j: int, m: Message|
                0 <= j < old(self).spec_handlers().len()
                    ==> (#[trigger] final(self).spec_handlers()[j].claims(&m)) == old(
                    self,
                ).spec_handlers()[j].claims(&m),
            forall|j: int|
                0 <= j < old(self).spec_handlers().len()
                    ==> (#[trigger] final(self).spec_handlers()[j]).ops() == old(
                    self,
                ).spec_handlers()[j].ops(),
            final(self).spec_incoming() == old(self).spec_incoming(),
            final(self).spec_outgoing() == old(self).spec_outgoing(),
            final(self).spec_pending() == old(self).spec_pending(),
            final(self).spec_pending_global() == old(self).spec_pending_global(),
            final(self).spec_server_name() == old(self).spec_server_name(),
            final(self).spec_client_name() == old(self).spec_client_name(),
            final(self).spec_uuid() == old(self).spec_uuid(),
            final(self).spec_state() == old(self).spec_state(),
    {
        let ghost hs0 = self.handlers@;
        let ghost snap = *self;
        let n = self.handlers.len();
        for i in 0..n
            invariant
                n == self.handlers@.len(),
                self.handlers@.len() == hs0.len(),
                forall|j: int| i <= j < hs0.len() ==> self.handlers@[j] == hs0[j],
                forall|j: int|
                    0 <= j < i ==> (#[trigger] self.handlers@[j]).global_ops() == Seq::<
                        GlobalHandlerOperation,
                    >::empty(),
                forall|j: int, m: Message|
                    0 <= j < i ==> (#[trigger] self.handlers@[j].claims(&m)) == hs0[j].claims(&m),
                forall|j: int|
                    0 <= j < i ==> (#[trigger] self.handlers@[j]).ops() == hs0[j].ops(),
                self.spec_incoming() == snap.spec_incoming(),
                self.spec_outgoing() == snap.spec_outgoing(),
                self.spec_pending() == snap.spec_pending(),
                self.spec_pending_global() == snap.spec_pending_global(),
                self.spec_server_name() == snap.spec_server_name(),
                self.spec_client_name() == snap.spec_client_name(),
                self.spec_uuid() == snap.spec_uuid(),
                self.spec_state() == snap.spec_state(),
        {
            let mut h = self.handlers.remove(i);
            let ops = h.get_global_operations();
            self.handlers.insert(i, h);
            match ops {
                Some(v) => {
                    send_all_global(&self.global_handler_tx, v);
                },
                None => {},
            }
        }
    }

    /// Applies what one receive attempt on the global channel yielded: a
    /// received event joins the pending queue and the drain goes on
    /// (`Ok(true)`), nothing new ends the drain (`Ok(false)`), and a lag
    /// or a senderless channel is fatal for the connection.
    pub fn apply_recv_outcome(&mut self, outcome: GlobalRecvOutcome) -> (r: Result<
        bool,
        GlobalRecvError,
    >)
        ensures
            match outcome {
                GlobalRecvOutcome::Received(op) => {
                    &&& r == Ok::<bool, GlobalRecvError>(true)
                    &&& final(self).spec_pending_global() == old(
                        self,
                    ).spec_pending_global().push(op)
                    &&& final(self).spec_incoming() == old(self).spec_incoming()
                    &&& final(self).spec_outgoing() == old(self).spec_outgoing()
                    &&& final(self).spec_pending() == old(self).spec_pending()
                    &&& final(self).spec_handlers() == old(self).spec_handlers()
                    &&& final(self).spec_server_name() == old(self).spec_server_name()
                    &&& final(self).spec_client_name() == old(self).spec_client_name()
                    &&& final(self).spec_uuid() == old(self).spec_uuid()
                    &&& final(self).spec_state() == old(self).spec_state()
                },
                GlobalRecvOutcome::Empty => r == Ok::<bool, GlobalRecvError>(false) && *final(self)
                    == *old(self),
                GlobalRecvOutcome::Lagged(n) => r == Err::<bool, GlobalRecvError>(
                    GlobalRecvError::Lagged(n),
                ) && *final(self) == *old(self),
                GlobalRecvOutcome::Closed => r == Err::<bool, GlobalRecvError>(
                    GlobalRecvError::Closed,
                ) && *final(self) == *old(self),
            },
    {
        match outcome {
            GlobalRecvOutcome::Received(op) => {
                crate::fifo::global_op_queue_add(&mut self.pending_global_ops, op);
                Ok(true)
            },
            GlobalRecvOutcome::Empty => Ok(false),
            GlobalRecvOutcome::Lagged(n) => Err(GlobalRecvError::Lagged(n)),
            GlobalRecvOutcome::Closed => Err(GlobalRecvError::Closed),
        }
    }

    /// Drains every global event waiting on this connection's receiver
    /// into the local pending queue, in publish order. A receiver that
    /// lagged, or a channel with no senders left, is fatal for the
    /// connection — by design, running on with missing events would be
    /// silent inconsistency — and events drained before the failure stay
    /// queued.
    #[verifier::loop_isolation(false)]
    pub fn collect_recv_global_actions(&mut self) -> (r: Result<(), GlobalRecvError>)
        ensures
            final(self).spec_pending_global().len() >= old(self).spec_pending_global().len(),
            final(self).spec_pending_global().take(
                old(self).spec_pending_global().len() as int,
            ) == old(self).spec_pending_global(),
            final(self).spec_incoming() == old(self).spec_incoming(),
            final(self).spec_outgoing() == old(self).spec_outgoing(),
            final(self).spec_pending() == old(self).spec_pending(),
            final(self).spec_handlers() == old(self).spec_handlers(),
            final(self).spec_server_name() == old(self).spec_server_name(),
            final(self).spec_client_name() == old(self).spec_client_name(),
            final(self).spec_uuid() == old(self).spec_uuid(),
            final(self).spec_state() == old(self).spec_state(),
    {
        let ghost pg0 = self.spec_pending_global();
        let ghost snap = *self;
        // The drain stops at the first empty poll; the counter only
        // convinces the termination check, far beyond any channel's
        // backlog.
        let mut fuel: u64 = u64::MAX;
        while fuel > 0
            invariant
                self.spec_pending_global().len() >= pg0.len(),
                self.spec_pending_global().take(pg0.len() as int) == pg0,
                self.spec_incoming() == snap.spec_incoming(),
                self.spec_outgoing() == snap.spec_outgoing(),
                self.spec_pending() == snap.spec_pending(),
                self.spec_handlers() == snap.spec_handlers(),
                self.spec_server_name() == snap.spec_server_name(),
                self.spec_client_name() == snap.spec_client_name(),
                self.spec_uuid() == snap.spec_uuid(),
                self.spec_state() == snap.spec_state(),
            decreases fuel,
        {
            fuel = fuel - 1;
            let outcome = crate::fanout::try_recv_global(&mut self.global_handler_rx);
            match self.apply_recv_outcome(outcome) {
                Ok(true) => {
                    proof {
                        assert(self.spec_pending_global().take(pg0.len() as int) =~= pg0);
                    }
                },
                Ok(false) => {
                    return Ok(());
                },
                Err(e) => {
                    return Err(e);
                },
            }
        }
        Ok(())
    }

    /// Feeds every queued global event, oldest first, to every handler
    /// in registration order, and leaves the queue empty.
    #[verifier::loop_isolation(false)]
    pub fn execute_global_actions(&mut self)
        ensures
            final(self).spec_pending_global() == Seq::<GlobalHandlerOperation>::empty(),
            final(self).spec_handlers().len() == old(self).spec_handlers().len(),
            forall|j: int|
                0 <= j < old(self).spec_handlers().len() ==> {
                    &&& (#[trigger] final(self).spec_handlers()[j]).ops().map_values(
                        |o: HandlerOperation| ServerHandler::op_view(o),
                    ) == old(self).spec_handlers()[j].ops().map_values(
                        |o: HandlerOperation| ServerHandler::op_view(o),
                    ) + crate::handler::events_effect(
                        &old(self).spec_handlers()[j],
                        old(self).spec_pending_global(),
                    )
                    &&& final(self).spec_handlers()[j].global_ops() == old(
                        self,
                    ).spec_handlers()[j].global_ops()
                    &&& forall|m: Message|
                        final(self).spec_handlers()[j].claims(&m) == old(
                            self,
                        ).spec_handlers()[j].claims(&m)
                },
            final(self).spec_incoming() == old(self).spec_incoming(),
            final(self).spec_outgoing() == old(self).spec_outgoing(),
            final(self).spec_pending() == old(self).spec_pending(),
            final(self).spec_server_name() == old(self).spec_server_name(),
            final(self).spec_client_name() == old(self).spec_client_name(),
            final(self).spec_uuid() == old(self).spec_uuid(),
            final(self).spec_state() == old(self).spec_state(),
    {
        let ghost snap = *self;
        let ghost hs0 = self.handlers@;
        let ghost pg0 = self.spec_pending_global();
        let ghost mut processed: Seq<GlobalHandlerOperation> = Seq::empty();
        proof {
            assert forall|j: int| 0 <= j < hs0.len() implies (#[trigger] self.handlers@[j]).ops(
            ).map_values(|o: HandlerOperation| ServerHandler::op_view(o)) == hs0[j].ops(
            ).map_values(|o: HandlerOperation| ServerHandler::op_view(o))
                + crate::handler::events_effect(&hs0[j], processed) by {
                assert(hs0[j].ops().map_values(|o: HandlerOperation| ServerHandler::op_view(o))
                    + crate::handler::events_effect(&hs0[j], processed) =~= hs0[j].ops(
                ).map_values(|o: HandlerOperation| ServerHandler::op_view(o)));
            }
        }
        while crate::fifo::global_op_queue_size(&self.pending_global_ops) > 0
            invariant
                self.spec_handlers().len() == hs0.len(),
                pg0 == processed + self.spec_pending_global(),
                forall|j: int|
                    0 <= j < hs0.len() ==> (#[trigger] self.handlers@[j]).ops().map_values(
                        |o: HandlerOperation| ServerHandler::op_view(o),
                    ) == hs0[j].ops().map_values(|o: HandlerOperation| ServerHandler::op_view(o))
                        + crate::handler::events_effect(&hs0[j], processed),
                forall|j: int|
                    0 <= j < hs0.len() ==> (#[trigger] self.handlers@[j]).global_ops()
                        == hs0[j].global_ops(),
                forall|j: int, m: Message|
                    0 <= j < hs0.len() ==> (#[trigger] self.handlers@[j].claims(&m))
                        == hs0[j].claims(&m),
                forall|j: int, e: GlobalHandlerOperation|
                    0 <= j < hs0.len() ==> (#[trigger] self.handlers@[j].ops_for_event(&e))
                        == hs0[j].ops_for_event(&e),
                self.spec_incoming() == snap.spec_incoming(),
                self.spec_outgoing() == snap.spec_outgoing(),
                self.spec_pending() == snap.spec_pending(),
                self.spec_server_name() == snap.spec_server_name(),
                self.spec_client_name() == snap.spec_client_name(),
                self.spec_uuid() == snap.spec_uuid(),
                self.spec_state() == snap.spec_state(),
            decreases self.spec_pending_global().len(),
        {
            match crate::fifo::global_op_queue_remove(&mut self.pending_global_ops) {
                None => {
                    proof {
                        assert(false);
                    }
                },
                Some(oper) => {
                    let ghost pg_mid = self.spec_pending_global();
                    let ghost processed_next = processed.push(oper);
                    proof {
                        assert(pg0 =~= processed_next + pg_mid);
                    }
                    let n = self.handlers.len();
                    for i in 0..n
                        invariant
                            n == self.handlers@.len(),
                            self.handlers@.len() == hs0.len(),
                            self.spec_pending_global() == pg_mid,
                            forall|j: int|
                                0 <= j < i ==> (#[trigger] self.handlers@[j]).ops().map_values(
                                    |o: HandlerOperation| ServerHandler::op_view(o),
                                ) == hs0[j].ops().map_values(
                                    |o: HandlerOperation| ServerHandler::op_view(o),
                                ) + crate::handler::events_effect(&hs0[j], processed_next),
                            forall|j: int|
                                i <= j < hs0.len() ==> (#[trigger] self.handlers@[j]).ops(
                                ).map_values(|o: HandlerOperation| ServerHandler::op_view(o))
                                    == hs0[j].ops().map_values(
                                    |o: HandlerOperation| ServerHandler::op_view(o),
                                ) + crate::handler::events_effect(&hs0[j], processed),
                            forall|j: int|
                                0 <= j < hs0.len() ==> (#[trigger] self.handlers@[j]).global_ops()
                                    == hs0[j].global_ops(),
                            forall|j: int, m: Message|
                                0 <= j < hs0.len() ==> (#[trigger] self.handlers@[j].claims(&m))
                                    == hs0[j].claims(&m),
                            forall|j: int, e: GlobalHandlerOperation|
                                0 <= j < hs0.len() ==> (#[trigger] self.handlers@[j].ops_for_event(
                                    &e,
                                )) == hs0[j].ops_for_event(&e),
                            self.spec_incoming() == snap.spec_incoming(),
                            self.spec_outgoing() == snap.spec_outgoing(),
                            self.spec_pending() == snap.spec_pending(),
                            self.spec_server_name() == snap.spec_server_name(),
                            self.spec_client_name() == snap.spec_client_name(),
                            self.spec_uuid() == snap.spec_uuid(),
                            self.spec_state() == snap.spec_state(),
                    {
                        let ghost before = self.handlers@;
                        let mut h = self.handlers.remove(i);
                        let ghost hpre = h;
                        h.handle_global_op(&oper);
                        let ghost hafter = h;
                        self.handlers.insert(i, h);
                        proof {
                            assert(self.handlers@ =~= before.update(i as int, hafter));
                            assert(hpre == before[i as int]);
                            crate::handler::lemma_events_effect_push(&hs0[i as int], processed, oper);
                            assert(hafter.ops().map_values(
                                |o: HandlerOperation| ServerHandler::op_view(o),
                            ) =~= hs0[i as int].ops().map_values(
                                |o: HandlerOperation| ServerHandler::op_view(o),
                            ) + crate::handler::events_effect(&hs0[i as int], processed_next));
                        }
                    }
                    proof {
                        processed = processed_next;
                    }
                },
            }
        }
        proof {
            assert(processed =~= pg0);
            assert forall|j: int| 0 <= j < hs0.len() implies crate::handler::events_effect(
                &hs0[j],
                processed,
            ) == crate::handler::events_effect(&hs0[j], pg0) by {
            }
        }
    }

    /// Hands one read message to the interface: a graceful goodbye from
    /// the client is reported, anything else joins the incoming queue in
    /// arrival order, never dropped.
    pub fn update_read(&mut self, msg: Message) -> (r: UpdateReadStatus)
        ensures
            match msg@.data {
                MessageVarientView::DisconnectMessage => {
                    &&& r matches UpdateReadStatus::GracefulDisconnect
                    &&& *final(self) == *old(self)
                },
                _ => {
                    &&& r matches UpdateReadStatus::Success
                    &&& final(self).spec_incoming() == old(self).spec_incoming().push(msg)
                    &&& final(self).spec_outgoing() == old(self).spec_outgoing()
                    &&& final(self).spec_pending() == old(self).spec_pending()
                    &&& final(self).spec_pending_global() == old(self).spec_pending_global()
                    &&& final(self).spec_handlers() == old(self).spec_handlers()
                    &&& final(self).spec_server_name() == old(self).spec_server_name()
                    &&& final(self).spec_client_name() == old(self).spec_client_name()
                    &&& final(self).spec_uuid() == old(self).spec_uuid()
                    &&& final(self).spec_state() == old(self).spec_state()
                },
            },
    {
        match &msg.data {
            MessageVarient::DisconnectMessage {} => UpdateReadStatus::GracefulDisconnect,
            _ => {
                crate::fifo::msg_queue_add(&mut self.incoming, msg);
                UpdateReadStatus::Success
            },
        }
    }
}

/// The handlers a server connection starts with: broadcast delivery and
/// incoming chat relay.
pub fn get_default() -> (r: Vec<ServerHandler>)
    ensures
        r@.len() == 2,
        r@[0] matches ServerHandler::MsgAll(h) && h.pending_ops() == Seq::<
            HandlerOperation,
        >::empty(),
        r@[1] matches ServerHandler::IncomingChat(h) && h.pending_global_ops() == Seq::<
            GlobalHandlerOperation,
        >::empty(),
{
    let mut r: Vec<ServerHandler> = Vec::new();
    r.push(ServerHandler::MsgAll(MsgAllHandler::new()));
    r.push(ServerHandler::IncomingChat(IncomingChatHandler::new()));
    r
}

} // verus!
