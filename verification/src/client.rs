//! The client side of a connection: its message types, its handlers, and
//! the protocol state machine that drives the handshake and dispatches
//! ready-state traffic.
use vstd::prelude::*;

use vstd::string::StringExecFns;

use crate::handler::GlobalHandlerOperation;
use crate::handler::MessageHandler;
use crate::msg::ConnectionStatus;
use crate::msg::Message;
use crate::msg::MessageVarient;
use crate::msg::MessageVarientView;
use crate::msg::MessageView;
use crate::msg::ServerDisconnectReason;
use crate::msg::UserId;
use crate::msg::UserNameUpdate;
use crate::sock::ReadMessageError;
use crate::sock::SendStatus;

verus! {

/// One chat line, as shown to the person using the client.
#[derive(Debug, PartialEq, Eq)]
pub struct ChatMessage {
    msg_text: String,
    author_name: String,
    pub author_uuid: Option<UserId>,
}

/// Mathematical view of a `ChatMessage`.
pub struct ChatMessageView {
    pub text: Seq<char>,
    pub author: Seq<char>,
    pub author_uuid: Option<u128>,
}

impl View for ChatMessage {
    type V = ChatMessageView;

    closed spec fn view(&self) -> ChatMessageView {
        match self {
            ChatMessage { msg_text, author_name, author_uuid } => ChatMessageView {
                text: msg_text@,
                author: author_name@,
                author_uuid: match author_uuid {
                    Some(u) => Some(u.id),
                    None => None,
                },
            },
        }
    }
}

impl Clone for ChatMessage {
    /// A copy whose view is identical to the original's.
    fn clone(&self) -> (r: Self)
        ensures
            r@ == self@,
    {
        ChatMessage {
            msg_text: self.msg_text.clone(),
            author_name: self.author_name.clone(),
            author_uuid: self.author_uuid,
        }
    }
}

impl ChatMessage {
    /// A chat line composed locally, with no author identity yet.
    pub fn new(msg_text: String, author_name: String) -> (r: Self)
        ensures
            r@.text == msg_text@,
            r@.author == author_name@,
            r@.author_uuid is None,
    {
        ChatMessage { msg_text, author_name, author_uuid: None }
    }

    /// Reads a relayed chat line out of the one message variant that
    /// carries one; every other variant is rejected.
    pub fn try_from_varient(item: MessageVarient) -> (r: Result<Self, ()>)
        ensures
            match r {
                Ok(c) => item@ matches MessageVarientView::ServerSendChat {
                    content,
                    author,
                    author_uuid,
                } && c@.text == content && c@.author == author && c@.author_uuid == Some(
                    author_uuid,
                ),
                Err(_) => !(item@ matches MessageVarientView::ServerSendChat { .. }),
            },
    {
        match item {
            MessageVarient::ServerSendChat { content, author, author_uuid } => Ok(
                ChatMessage {
                    msg_text: content,
                    author_name: author,
                    author_uuid: Some(UserId { id: author_uuid }),
                },
            ),
            _ => Err(()),
        }
    }

    /// The text of the chat line.
    pub fn text(&self) -> (r: &String)
        ensures
            r@ == self@.text,
    {
        &self.msg_text
    }

    /// The display name of whoever wrote the line.
    pub fn author(&self) -> (r: &String)
        ensures
            r@ == self@.author,
    {
        &self.author_name
    }

    /// Renders this chat line as the message a client sends to the server.
    pub fn into_message(self) -> (r: Message)
        ensures
            r@.data matches MessageVarientView::ClientSendChat { content } && content == self@.text,
    {
        Message { data: MessageVarient::ClientSendChat { content: self.msg_text } }
    }
}

/// A status line for the person using the client, with no structure of
/// its own.
#[derive(Debug, PartialEq, Eq)]
pub struct RawMessage {
    text: String,
}

impl View for RawMessage {
    type V = Seq<char>;

    closed spec fn view(&self) -> Seq<char> {
        self.text@
    }
}

impl Clone for RawMessage {
    /// A copy whose view is identical to the original's.
    fn clone(&self) -> (r: Self)
        ensures
            r@ == self@,
    {
        RawMessage { text: self.text.clone() }
    }
}

impl RawMessage {
    /// The text of the status line.
    pub fn text(&self) -> (r: &String)
        ensures
            r@ == self@,
    {
        &self.text
    }

    /// A status line holding exactly this text.
    pub fn new(text: String) -> (r: Self)
        ensures
            r@ == text@,
    {
        RawMessage { text }
    }
}

/// Something for the surrounding interface (the screen) to show.
#[derive(Debug, PartialEq, Eq)]
pub enum InterfaceOperation {
    ReceivedChat(ChatMessage),
    ReceivedRawMessage(RawMessage),
}

/// Mathematical view of an `InterfaceOperation`.
pub enum InterfaceOperationView {
    ReceivedChat(ChatMessageView),
    ReceivedRawMessage(Seq<char>),
}

impl View for InterfaceOperation {
    type V = InterfaceOperationView;

    open spec fn view(&self) -> InterfaceOperationView {
        match self {
            InterfaceOperation::ReceivedChat(c) => InterfaceOperationView::ReceivedChat(c@),
            InterfaceOperation::ReceivedRawMessage(m) => InterfaceOperationView::ReceivedRawMessage(
                m@,
            ),
        }
    }
}

impl Clone for InterfaceOperation {
    /// A copy whose view is identical to the original's.
    fn clone(&self) -> (r: Self)
        ensures
            r@ == self@,
    {
        match self {
            InterfaceOperation::ReceivedChat(c) => InterfaceOperation::ReceivedChat(c.clone()),
            InterfaceOperation::ReceivedRawMessage(m) => InterfaceOperation::ReceivedRawMessage(
                m.clone(),
            ),
        }
    }
}

/// An operation a client-side handler asks its connection to perform:
/// hand something to the interface, or send a message to the server.
#[derive(Debug, PartialEq, Eq)]
pub enum HandlerOperation {
    /// Hand something to the surrounding interface.
    InterfaceOperation(InterfaceOperation),
    /// Send a message to the server.
    ServerMsg { msg: Message },
}

/// Mathematical view of a client `HandlerOperation`.
pub enum HandlerOperationView {
    InterfaceOperation(InterfaceOperationView),
    ServerMsg { msg: MessageView },
}

impl View for HandlerOperation {
    type V = HandlerOperationView;

    open spec fn view(&self) -> HandlerOperationView {
        match self {
            HandlerOperation::InterfaceOperation(o) => HandlerOperationView::InterfaceOperation(o@),
            HandlerOperation::ServerMsg { msg } => HandlerOperationView::ServerMsg { msg: msg@ },
        }
    }
}

impl Clone for HandlerOperation {
    /// A copy whose view is identical to the original's.
    fn clone(&self) -> (r: Self)
        ensures
            r@ == self@,
    {
        match self {
            HandlerOperation::InterfaceOperation(o) => HandlerOperation::InterfaceOperation(
                o.clone(),
            ),
            HandlerOperation::ServerMsg { msg } => HandlerOperation::ServerMsg { msg: msg.clone() },
        }
    }
}

/// What the client knows about the server once the handshake answered:
/// the server's display name and the identity it assigned this client.
#[derive(Debug)]
pub struct ServerInfo {
    pub name: String,
    pub client_uuid: UserId,
}

impl Clone for ServerInfo {
    /// A copy with the same name characters and the same identity.
    fn clone(&self) -> (r: Self)
        ensures
            r.name@ == self.name@,
            r.client_uuid == self.client_uuid,
    {
        ServerInfo { name: self.name.clone(), client_uuid: self.client_uuid }
    }
}

/// The ways a client connection can be shut down.
#[derive(Clone, Copy, Debug, PartialEq, Eq, Structural)]
pub enum CloseType {
    /// Do not notify the server, just close quickly.
    Force,
    /// Close, but assume the server is already gone, so send nothing.
    ServerDisconnected,
    /// Close properly: notify the server first.
    Graceful,
}

/// The protocol states a client connection moves through, exactly one
/// active at a time.
#[derive(Clone, Copy, Debug, PartialEq, Eq, Structural)]
pub enum ClientState {
    /// Nothing has happened yet.
    Begin,
    /// The connect message is on its way; awaiting `ServerInfo`.
    Handshake,
    /// Accepted; collecting the handlers' startup operations.
    GetHandlerDefaultOps,
    /// Ready for normal traffic.
    Ready,
    /// The connection is over; nothing more is accepted or sent.
    Closed,
}

/// Outcome of one update tick.
#[derive(Debug)]
pub enum UpdateStatus {
    /// A message arrived that is not valid now; it was put back.
    Unexpected(Message),
    /// Sending failed.
    SendError(SendStatus),
    Success,
    /// No handler claimed this message.
    Unhandled(Message),
    /// The server refused the connection.
    ConnectionRefused,
    /// Nothing to do.
    Noop,
}

/// Outcome of handing one read message to the state machine.
#[derive(Debug)]
pub enum UpdateReadStatus {
    /// The server ended the connection, with its reason and parting text.
    ServerClosed { reason: ServerDisconnectReason, close_message: String },
    /// The peer vanished without a word.
    ServerDisconnect,
    /// The stream broke or produced garbage.
    ReadError(ReadMessageError),
    Success,
}

/// Outcome of flushing the outbound queue.
#[derive(Debug)]
pub enum MultiSendStatus {
    Worked { amnt: u32, bytes: u128 },
    Failure(SendStatus),
    NoTask,
}

// ---------------------------------------------------------------------------
// The client's handlers.
// ---------------------------------------------------------------------------
/// Turns relayed chat lines into operations for the interface to show.
#[derive(Debug)]
pub struct IncomingChatHandler {
    pending: Vec<HandlerOperation>,
}

impl IncomingChatHandler {
    /// The operations accumulated and not yet handed over.
    pub closed spec fn pending_ops(&self) -> Seq<HandlerOperation> {
        self.pending@
    }

    /// A fresh handler with nothing accumulated.
    pub fn new() -> (r: Self)
        ensures
            r.pending_ops() == Seq::<HandlerOperation>::empty(),
    {
        IncomingChatHandler { pending: Vec::new() }
    }
}

/// Turns user-presence updates into status lines for the interface.
#[derive(Debug)]
pub struct InfoUpdateHandler {
    pending: Vec<HandlerOperation>,
}

impl InfoUpdateHandler {
    /// The operations accumulated and not yet handed over.
    pub closed spec fn pending_ops(&self) -> Seq<HandlerOperation> {
        self.pending@
    }

    /// A fresh handler with nothing accumulated.
    pub fn new() -> (r: Self)
        ensures
            r.pending_ops() == Seq::<HandlerOperation>::empty(),
    {
        InfoUpdateHandler { pending: Vec::new() }
    }
}

/// Answers the test round trip: sends a test message at startup and
/// claims the response.
#[derive(Debug)]
pub struct TestHandler {
    pending: Vec<HandlerOperation>,
}

impl TestHandler {
    /// The operations accumulated and not yet handed over.
    pub closed spec fn pending_ops(&self) -> Seq<HandlerOperation> {
        self.pending@
    }

    /// A fresh handler with nothing accumulated.
    pub fn new() -> (r: Self)
        ensures
            r.pending_ops() == Seq::<HandlerOperation>::empty(),
    {
        TestHandler { pending: Vec::new() }
    }
}

/// The status line shown for one user-presence update, if any: nothing
/// for a bare arrival, the name with a greeting once one is declared, a
/// goodbye when a user leaves.
pub open spec fn spec_update_line(u: crate::msg::UserNameUpdateView) -> Option<Seq<char>> {
    match u {
        crate::msg::UserNameUpdateView::NewUser { .. } => None,
        crate::msg::UserNameUpdateView::UserNamed { name, .. } => Some(
            name + " joined the server."@,
        ),
        crate::msg::UserNameUpdateView::UserLeft { name, .. } => match name {
            Some(n) => Some(n + " left the server."@),
            None => Some("an unnamed user left the server."@),
        },
    }
}

/// The interface operations one batch of presence updates produces, in
/// list order: one status line per update that has one.
pub open spec fn update_lines(us: Seq<crate::msg::UserNameUpdateView>) -> Seq<HandlerOperationView>
    decreases us.len(),
{
    if us.len() == 0 {
        Seq::empty()
    } else {
        (match spec_update_line(us[0]) {
            Some(t) => seq![
                HandlerOperationView::InterfaceOperation(
                    InterfaceOperationView::ReceivedRawMessage(t),
                ),
            ],
            None => Seq::empty(),
        }) + update_lines(us.drop_first())
    }
}

/// Extending the update batch by one extends its status lines by that
/// update's.
proof fn lemma_update_lines_push(us: Seq<crate::msg::UserNameUpdateView>, u: crate::msg::UserNameUpdateView)
    ensures
        update_lines(us.push(u)) == update_lines(us) + (match spec_update_line(u) {
            Some(t) => seq![
                HandlerOperationView::InterfaceOperation(
                    InterfaceOperationView::ReceivedRawMessage(t),
                ),
            ],
            None => Seq::<HandlerOperationView>::empty(),
        }),
    decreases us.len(),
{
    let tail = (match spec_update_line(u) {
        Some(t) => seq![
            HandlerOperationView::InterfaceOperation(InterfaceOperationView::ReceivedRawMessage(t)),
        ],
        None => Seq::<HandlerOperationView>::empty(),
    });
    if us.len() == 0 {
        assert(us.push(u).drop_first() =~= Seq::<crate::msg::UserNameUpdateView>::empty());
        assert(us =~= Seq::<crate::msg::UserNameUpdateView>::empty());
        assert(update_lines(us.push(u)) == tail + update_lines(
            Seq::<crate::msg::UserNameUpdateView>::empty(),
        ));
        assert(update_lines(us.push(u)) =~= update_lines(us) + tail);
    } else {
        assert(us.push(u).drop_first() =~= us.drop_first().push(u));
        lemma_update_lines_push(us.drop_first(), u);
        assert(us.push(u)[0] == us[0]);
        let head = (match spec_update_line(us[0]) {
            Some(t) => seq![
                HandlerOperationView::InterfaceOperation(
                    InterfaceOperationView::ReceivedRawMessage(t),
                ),
            ],
            None => Seq::<HandlerOperationView>::empty(),
        });
        assert(update_lines(us.push(u)) == head + (update_lines(us.drop_first()) + tail));
        assert(head + (update_lines(us.drop_first()) + tail) =~= (head + update_lines(
            us.drop_first(),
        )) + tail);
    }
}

/// Renders one user-presence update as its status line.
fn update_line(u: &UserNameUpdate) -> (r: Option<RawMessage>)
    ensures
        match r {
            Some(m) => spec_update_line(u@) == Some(m@),
            None => spec_update_line(u@) is None,
        },
{
    match u {
        UserNameUpdate::NewUser { .. } => None,
        UserNameUpdate::UserNamed { name, .. } => Some(
            RawMessage::new(name.clone().concat(" joined the server.")),
        ),
        UserNameUpdate::UserLeft { name, .. } => match name {
            Some(n) => Some(RawMessage::new(n.clone().concat(" left the server."))),
            None => Some(RawMessage::new("an unnamed user left the server.".to_owned())),
        },
    }
}

/// One of the client's handlers; the connection owns an ordered list of
/// these and offers every ready-state message to each in turn.
#[derive(Debug)]
pub enum ClientHandler {
    IncomingChat(IncomingChatHandler),
    InfoUpdate(InfoUpdateHandler),
    Test(TestHandler),
}

impl MessageHandler for ClientHandler {
    type Operation = HandlerOperation;

    type OperationView = HandlerOperationView;

    open spec fn op_view(op: HandlerOperation) -> HandlerOperationView {
        op@
    }

    open spec fn ops_for(&self, msg: &Message) -> Seq<HandlerOperationView> {
        match self {
            ClientHandler::IncomingChat(_) => match msg@.data {
                MessageVarientView::ServerSendChat { content, author, author_uuid } => seq![
                    HandlerOperationView::InterfaceOperation(
                        InterfaceOperationView::ReceivedChat(
                            ChatMessageView { text: content, author, author_uuid: Some(author_uuid) },
                        ),
                    ),
                ],
                _ => Seq::empty(),
            },
            ClientHandler::InfoUpdate(_) => match msg@.data {
                MessageVarientView::ServerInfoUpdate { user_updates, .. } => update_lines(
                    user_updates,
                ),
                _ => Seq::empty(),
            },
            ClientHandler::Test(_) => Seq::empty(),
        }
    }

    open spec fn global_ops_for(&self, msg: &Message) -> Seq<
        crate::handler::GlobalHandlerOperationView,
    > {
        Seq::empty()
    }

    open spec fn ops_for_event(&self, op: &GlobalHandlerOperation) -> Seq<HandlerOperationView> {
        Seq::empty()
    }

    open spec fn claims(&self, msg: &Message) -> bool {
        match self {
            ClientHandler::IncomingChat(_) => msg@.data matches MessageVarientView::ServerSendChat {
                ..
            },
            ClientHandler::InfoUpdate(_) => msg@.data matches MessageVarientView::ServerInfoUpdate {
                ..
            },
            ClientHandler::Test(_) => msg@.data matches MessageVarientView::TestMessageResponse,
        }
    }

    open spec fn ops(&self) -> Seq<HandlerOperation> {
        match self {
            ClientHandler::IncomingChat(h) => h.pending_ops(),
            ClientHandler::InfoUpdate(h) => h.pending_ops(),
            ClientHandler::Test(h) => h.pending_ops(),
        }
    }

    open spec fn global_ops(&self) -> Seq<GlobalHandlerOperation> {
        Seq::empty()
    }

    open spec fn default_ops(&self) -> Seq<HandlerOperation> {
        match self {
            ClientHandler::Test(_) => seq![
                HandlerOperation::ServerMsg { msg: Message { data: MessageVarient::TestMessage {  } } },
            ],
            _ => Seq::empty(),
        }
    }

    fn handle(&mut self, msg: &Message) -> (r: bool) {
        let ghost pre = *self;
        match self {
            ClientHandler::IncomingChat(h) => {
                match &msg.data {
                    MessageVarient::ServerSendChat { content, author, author_uuid } => {
                        let chat = ChatMessage {
                            msg_text: content.clone(),
                            author_name: author.clone(),
                            author_uuid: Some(UserId { id: *author_uuid }),
                        };
                        h.pending.push(
                            HandlerOperation::InterfaceOperation(
                                InterfaceOperation::ReceivedChat(chat),
                            ),
                        );
                        proof {
                            assert(self.ops().map_values(|o: Self::Operation| Self::op_view(o))
                                =~= pre.ops().map_values(|o: Self::Operation| Self::op_view(o))
                                + pre.ops_for(msg));
                            assert(self.global_ops().map_values(|g: GlobalHandlerOperation| g@)
                                =~= pre.global_ops().map_values(|g: GlobalHandlerOperation| g@)
                                + pre.global_ops_for(msg));
                        }
                        true
                    },
                    _ => false,
                }
            },
            ClientHandler::InfoUpdate(h) => {
                match &msg.data {
                    MessageVarient::ServerInfoUpdate { name: _, user_updates } => {
                        let ghost views = user_updates@.map_values(
                            |u: UserNameUpdate| u@,
                        );
                        let ghost base = h.pending@;
                        for i in 0..user_updates.len()
                            invariant
                                user_updates@.map_values(|u: UserNameUpdate| u@) == views,
                                i <= user_updates@.len(),
                                h.pending@.map_values(|o: Self::Operation| Self::op_view(o))
                                    == base.map_values(|o: Self::Operation| Self::op_view(o))
                                    + update_lines(views.take(i as int)),
                        {
                            let ghost before = h.pending@;
                            proof {
                                assert(views.take(i as int).push(views[i as int]) =~= views.take(
                                    i + 1 as int,
                                ));
                                lemma_update_lines_push(views.take(i as int), views[i as int]);
                                assert(views[i as int] == user_updates@[i as int]@);
                            }
                            match update_line(&user_updates[i]) {
                                Some(line) => {
                                    h.pending.push(
                                        HandlerOperation::InterfaceOperation(
                                            InterfaceOperation::ReceivedRawMessage(line),
                                        ),
                                    );
                                    proof {
                                        let lastv = Self::op_view(h.pending@.last());
                                        assert(h.pending@ == before.push(h.pending@.last()));
                                        assert(lastv
                                            matches HandlerOperationView::InterfaceOperation(
                                            InterfaceOperationView::ReceivedRawMessage(t),
                                        ) && Some(t) == spec_update_line(views[i as int]));
                                        assert(h.pending@.map_values(
                                            |o: Self::Operation| Self::op_view(o),
                                        ) =~= before.map_values(
                                            |o: Self::Operation| Self::op_view(o),
                                        ).push(lastv));
                                        assert(update_lines(views.take(i + 1 as int))
                                            == update_lines(views.take(i as int)) + seq![lastv]);
                                        assert(base.map_values(
                                            |o: Self::Operation| Self::op_view(o),
                                        ) + update_lines(views.take(i + 1 as int)) =~= (
                                        base.map_values(|o: Self::Operation| Self::op_view(o))
                                            + update_lines(views.take(i as int))).push(lastv));
                                    }
                                },
                                None => {
                                    proof {
                                        assert(h.pending@.map_values(
                                            |o: Self::Operation| Self::op_view(o),
                                        ) =~= base.map_values(
                                            |o: Self::Operation| Self::op_view(o),
                                        ) + update_lines(views.take(i + 1 as int)));
                                    }
                                },
                            }
                        }
                        proof {
                            assert(views.take(views.len() as int) =~= views);
                            assert(self.ops().map_values(|o: Self::Operation| Self::op_view(o))
                                =~= pre.ops().map_values(|o: Self::Operation| Self::op_view(o))
                                + pre.ops_for(msg));
                            assert(self.global_ops().map_values(|g: GlobalHandlerOperation| g@)
                                =~= pre.global_ops().map_values(|g: GlobalHandlerOperation| g@)
                                + pre.global_ops_for(msg));
                        }
                        true
                    },
                    _ => false,
                }
            },
            ClientHandler::Test(_) => {
                match &msg.data {
                    MessageVarient::TestMessageResponse {} => {
                        proof {
                            assert(self.ops().map_values(|o: Self::Operation| Self::op_view(o))
                                =~= pre.ops().map_values(|o: Self::Operation| Self::op_view(o))
                                + pre.ops_for(msg));
                            assert(self.global_ops().map_values(|g: GlobalHandlerOperation| g@)
                                =~= pre.global_ops().map_values(|g: GlobalHandlerOperation| g@)
                                + pre.global_ops_for(msg));
                        }
                        true
                    },
                    _ => false,
                }
            },
        }
    }

    fn handle_global_op(&mut self, op: &GlobalHandlerOperation) {
        proof {
            assert(self.ops().map_values(|o: Self::Operation| Self::op_view(o))
                =~= self.ops().map_values(|o: Self::Operation| Self::op_view(o)) + self.ops_for_event(
                op,
            ));
        }
    }

    fn get_operations(&mut self) -> (r: Option<Vec<HandlerOperation>>) {
        let pending: &mut Vec<HandlerOperation> = match self {
            ClientHandler::IncomingChat(h) => &mut h.pending,
            ClientHandler::InfoUpdate(h) => &mut h.pending,
            ClientHandler::Test(h) => &mut h.pending,
        };
        if pending.len() == 0 {
            None
        } else {
            let mut v: Vec<HandlerOperation> = Vec::new();
            core::mem::swap(&mut v, pending);
            Some(v)
        }
    }

    fn get_default_operations(&mut self) -> (r: Vec<HandlerOperation>) {
        match self {
            ClientHandler::Test(_) => {
                let mut v: Vec<HandlerOperation> = Vec::new();
                v.push(
                    HandlerOperation::ServerMsg {
                        msg: Message { data: MessageVarient::TestMessage {  } },
                    },
                );
                proof {
                    assert(v@ =~= self.default_ops());
                }
                v
            },
            _ => Vec::new(),
        }
    }

    fn get_global_operations(&mut self) -> (r: Option<Vec<GlobalHandlerOperation>>) {
        None
    }
}

// ---------------------------------------------------------------------------
// The client state machine.
// ---------------------------------------------------------------------------
/// Moves every operation of a batch into the pending queue, keeping order.
fn enqueue_ops(q: &mut queues::Queue<HandlerOperation>, v: Vec<HandlerOperation>)
    ensures
        crate::fifo::client_op_queue(final(q)) == crate::fifo::client_op_queue(old(q)) + v@,
{
    let ghost all = v@;
    let ghost base = crate::fifo::client_op_queue(old(q));
    let mut v = v;
    while v.len() > 0
        invariant
            v@.len() <= all.len(),
            all.skip(all.len() - v@.len()) == v@,
            crate::fifo::client_op_queue(q) == base + all.take(all.len() - v@.len()),
        decreases v@.len(),
    {
        let ghost k = all.len() - v@.len();
        let x = v.remove(0);
        proof {
            assert(x == all.skip(k)[0]);
        }
        crate::fifo::client_op_queue_add(q, x);
        proof {
            assert(all.take(k).push(all[k]) =~= all.take(k + 1));
            assert(all.skip(k + 1) =~= v@);
        }
    }
    proof {
        assert(all.take(all.len() as int) =~= all);
    }
}

/// The client side of one connection: its protocol state, its queues, its
/// handlers, and what it has learned about the server. The socket stays
/// with the caller, which hands decoded messages in and takes queued
/// messages out.
pub struct Client {
    name: String,
    incoming: queues::Queue<Message>,
    outgoing: queues::Queue<Message>,
    pending_op: queues::Queue<HandlerOperation>,
    handlers: Vec<ClientHandler>,
    server_info: Option<ServerInfo>,
    state: ClientState,
}

impl Client {
    /// The display name this client connects under.
    pub closed spec fn spec_name(&self) -> Seq<char> {
        self.name@
    }

    /// Messages received and not yet processed, oldest first.
    pub closed spec fn spec_incoming(&self) -> Seq<Message> {
        crate::fifo::msg_queue(&self.incoming)
    }

    /// Messages queued for sending and not yet sent, oldest first.
    pub closed spec fn spec_outgoing(&self) -> Seq<Message> {
        crate::fifo::msg_queue(&self.outgoing)
    }

    /// Handler operations collected and not yet executed, oldest first.
    pub closed spec fn spec_pending(&self) -> Seq<HandlerOperation> {
        crate::fifo::client_op_queue(&self.pending_op)
    }

    /// The handlers, in the order they are offered messages.
    pub closed spec fn spec_handlers(&self) -> Seq<ClientHandler> {
        self.handlers@
    }

    /// The protocol state the connection is in.
    pub closed spec fn spec_state(&self) -> ClientState {
        self.state
    }

    /// What the handshake has established about the server, if anything.
    pub closed spec fn spec_server_info(&self) -> Option<ServerInfo> {
        self.server_info
    }

    /// The protocol state the connection is in.
    pub fn state(&self) -> (r: ClientState)
        ensures
            r == self.spec_state(),
    {
        self.state
    }

    /// What the handshake has established about the server, if anything.
    pub fn server_info(&self) -> (r: &Option<ServerInfo>)
        ensures
            *r == self.spec_server_info(),
    {
        &self.server_info
    }

    /// A client that has not yet spoken to the server.
    pub fn new(name: String, handlers: Vec<ClientHandler>) -> (r: Self)
        ensures
            r.spec_name() == name@,
            r.spec_incoming() == Seq::<Message>::empty(),
            r.spec_outgoing() == Seq::<Message>::empty(),
            r.spec_pending() == Seq::<HandlerOperation>::empty(),
            r.spec_handlers() == handlers@,
            r.spec_server_info() is None,
            r.spec_state() == ClientState::Begin,
    {
        Client {
            name,
            incoming: crate::fifo::msg_queue_new(),
            outgoing: crate::fifo::msg_queue_new(),
            pending_op: crate::fifo::client_op_queue_new(),
            handlers,
            server_info: None,
            state: ClientState::Begin,
        }
    }

    /// Queues a message for sending; the caller's write loop drains it.
    pub fn queue_msg(&mut self, msg: Message)
        ensures
            final(self).spec_outgoing() == old(self).spec_outgoing().push(msg),
            final(self).spec_incoming() == old(self).spec_incoming(),
            final(self).spec_pending() == old(self).spec_pending(),
            final(self).spec_handlers() == old(self).spec_handlers(),
            final(self).spec_name() == old(self).spec_name(),
            final(self).spec_server_info() == old(self).spec_server_info(),
            final(self).spec_state() == old(self).spec_state(),
    {
        crate::fifo::msg_queue_add(&mut self.outgoing, msg);
    }

    /// Takes the oldest queued outbound message, if any, for the caller
    /// to encode and write; the queue's order is untouched otherwise.
    pub fn take_next_outgoing(&mut self) -> (r: Option<Message>)
        ensures
            match r {
                Some(m) => old(self).spec_outgoing().len() > 0 && m == old(self).spec_outgoing()[0]
                    && final(self).spec_outgoing() == old(self).spec_outgoing().drop_first(),
                None => old(self).spec_outgoing().len() == 0 && final(self).spec_outgoing() == old(
                    self,
                ).spec_outgoing(),
            },
            final(self).spec_incoming() == old(self).spec_incoming(),
            final(self).spec_pending() == old(self).spec_pending(),
            final(self).spec_handlers() == old(self).spec_handlers(),
            final(self).spec_name() == old(self).spec_name(),
            final(self).spec_server_info() == old(self).spec_server_info(),
            final(self).spec_state() == old(self).spec_state(),
    {
        crate::fifo::msg_queue_remove(&mut self.outgoing)
    }

    /// Queues a handler operation by hand, as the surrounding interface
    /// does when the person using the client writes a chat line.
    pub fn manual_handler_operation(&mut self, oper: HandlerOperation)
        ensures
            final(self).spec_pending() == old(self).spec_pending().push(oper),
            final(self).spec_incoming() == old(self).spec_incoming(),
            final(self).spec_outgoing() == old(self).spec_outgoing(),
            final(self).spec_handlers() == old(self).spec_handlers(),
            final(self).spec_name() == old(self).spec_name(),
            final(self).spec_server_info() == old(self).spec_server_info(),
            final(self).spec_state() == old(self).spec_state(),
    {
        crate::fifo::client_op_queue_add(&mut self.pending_op, oper);
    }

    /// Decides how to end the connection. The message returned, if any,
    /// must be sent before the socket is shut down: a graceful close says
    /// goodbye, the other modes send nothing. Afterwards the machine is
    /// closed for good.
    pub fn close(&mut self, method: CloseType) -> (r: Option<Message>)
        ensures
            match method {
                CloseType::Graceful => r matches Some(m) && m@.data
                    matches MessageVarientView::DisconnectMessage,
                _ => r is None,
            },
            final(self).spec_state() == ClientState::Closed,
            final(self).spec_incoming() == old(self).spec_incoming(),
            final(self).spec_outgoing() == old(self).spec_outgoing(),
            final(self).spec_pending() == old(self).spec_pending(),
            final(self).spec_handlers() == old(self).spec_handlers(),
            final(self).spec_name() == old(self).spec_name(),
            final(self).spec_server_info() == old(self).spec_server_info(),
    {
        self.state = ClientState::Closed;
        match method {
            CloseType::Graceful => Some(Message { data: MessageVarient::DisconnectMessage {  } }),
            _ => None,
        }
    }

    /// Hands one read message to the machine: a forced disconnect from
    /// the server ends the connection and is reported with its reason and
    /// parting text, anything else joins the incoming queue in arrival
    /// order, never dropped.
    pub fn update_read(&mut self, msg: Message) -> (r: UpdateReadStatus)
        ensures
            match msg@.data {
                MessageVarientView::ServerForceDisconnect { reason, close_message } => {
                    &&& r matches UpdateReadStatus::ServerClosed { reason: rr, close_message: cm }
                        && rr == reason && cm@ == close_message
                    &&& *final(self) == *old(self)
                },
                _ => {
                    &&& r matches UpdateReadStatus::Success
                    &&& final(self).spec_incoming() == old(self).spec_incoming().push(msg)
                    &&& final(self).spec_outgoing() == old(self).spec_outgoing()
                    &&& final(self).spec_pending() == old(self).spec_pending()
                    &&& final(self).spec_handlers() == old(self).spec_handlers()
                    &&& final(self).spec_name() == old(self).spec_name()
                    &&& final(self).spec_server_info() == old(self).spec_server_info()
                    &&& final(self).spec_state() == old(self).spec_state()
                },
            },
    {
        match msg.data {
            MessageVarient::ServerForceDisconnect { reason, close_message } => {
                UpdateReadStatus::ServerClosed { reason, close_message }
            },
            _ => {
                crate::fifo::msg_queue_add(&mut self.incoming, msg);
                UpdateReadStatus::Success
            },
        }
    }

    /// One tick of the protocol state machine, exactly one state active
    /// at a time:
    /// in `Begin` it queues the connect handshake and advances; in
    /// `Handshake` it accepts exactly `ServerInfo`, refusing the
    /// connection for good when the server refused it, and puts any other
    /// message back rather than dropping it; in `GetHandlerDefaultOps` it
    /// collects every handler's startup operations; in `Ready` it answers
    /// `Ping` ahead of all dispatch, and otherwise offers the oldest
    /// message to each handler in registration order, first claim wins —
    /// handlers after the first claimant are never invoked. A message no
    /// handler claims is handed back, and the machine keeps running.
    pub fn update(&mut self) -> (r: UpdateStatus)
        ensures
            final(self).spec_name() == old(self).spec_name(),
            old(self).spec_state() == ClientState::Begin ==> {
                &&& r matches UpdateStatus::Success
                &&& final(self).spec_state() == ClientState::Handshake
                &&& final(self).spec_outgoing().len() == old(self).spec_outgoing().len() + 1
                &&& final(self).spec_outgoing().last()@.data
                    matches MessageVarientView::ConnectMessage { name } && name == old(
                    self,
                ).spec_name()
                &&& final(self).spec_outgoing().drop_last() == old(self).spec_outgoing()
                &&& final(self).spec_incoming() == old(self).spec_incoming()
                &&& final(self).spec_pending() == old(self).spec_pending()
                &&& final(self).spec_handlers() == old(self).spec_handlers()
                &&& final(self).spec_server_info() == old(self).spec_server_info()
            },
            old(self).spec_state() == ClientState::Handshake && old(self).spec_incoming().len()
                == 0 ==> (r matches UpdateStatus::Noop && *final(self) == *old(self)),
            old(self).spec_state() == ClientState::Handshake && old(self).spec_incoming().len()
                > 0 ==> {
                let m = old(self).spec_incoming()[0];
                match m@.data {
                    MessageVarientView::ServerInfo {
                        server_name,
                        conn_status,
                        your_uuid,
                        ..
                    } => match conn_status {
                        crate::msg::ConnectionStatusView::Refused { .. } => {
                            &&& r matches UpdateStatus::ConnectionRefused
                            &&& final(self).spec_state() == ClientState::Closed
                            &&& final(self).spec_incoming() == old(
                                self,
                            ).spec_incoming().drop_first()
                            &&& final(self).spec_outgoing() == old(self).spec_outgoing()
                            &&& final(self).spec_pending() == old(self).spec_pending()
                            &&& final(self).spec_handlers() == old(self).spec_handlers()
                            &&& final(self).spec_server_info() == old(self).spec_server_info()
                        },
                        crate::msg::ConnectionStatusView::Connected => {
                            &&& r matches UpdateStatus::Success
                            &&& final(self).spec_state() == ClientState::GetHandlerDefaultOps
                            &&& final(self).spec_server_info() matches Some(si) && si.name@
                                == server_name && si.client_uuid.id == your_uuid
                            &&& final(self).spec_incoming() == old(
                                self,
                            ).spec_incoming().drop_first()
                            &&& final(self).spec_outgoing() == old(self).spec_outgoing()
                            &&& final(self).spec_pending() == old(self).spec_pending()
                            &&& final(self).spec_handlers() == old(self).spec_handlers()
                        },
                    },
                    _ => {
                        &&& r matches UpdateStatus::Unexpected(u) && u == m
                        &&& final(self).spec_state() == ClientState::Handshake
                        &&& final(self).spec_incoming().len() == old(self).spec_incoming().len()
                        &&& final(self).spec_incoming().drop_last() == old(
                            self,
                        ).spec_incoming().drop_first()
                        &&& final(self).spec_incoming().last()@ == m@
                        &&& final(self).spec_outgoing() == old(self).spec_outgoing()
                        &&& final(self).spec_pending() == old(self).spec_pending()
                        &&& final(self).spec_handlers() == old(self).spec_handlers()
                        &&& final(self).spec_server_info() == old(self).spec_server_info()
                    },
                }
            },
            old(self).spec_state() == ClientState::GetHandlerDefaultOps ==> {
                &&& r matches UpdateStatus::Success
                &&& final(self).spec_state() == ClientState::Ready
                &&& final(self).spec_pending() == old(self).spec_pending()
                    + crate::handler::all_default_ops(old(self).spec_handlers())
                &&& final(self).spec_incoming() == old(self).spec_incoming()
                &&& final(self).spec_outgoing() == old(self).spec_outgoing()
                &&& final(self).spec_handlers() == old(self).spec_handlers()
                &&& final(self).spec_server_info() == old(self).spec_server_info()
            },
            old(self).spec_state() == ClientState::Ready && old(self).spec_incoming().len() == 0
                ==> (r matches UpdateStatus::Noop && *final(self) == *old(self)),
            old(self).spec_state() == ClientState::Ready && old(self).spec_incoming().len() > 0
                && (old(self).spec_incoming()[0]@.data matches MessageVarientView::Ping) ==> {
                &&& r matches UpdateStatus::Success
                &&& final(self).spec_state() == ClientState::Ready
                &&& final(self).spec_incoming() == old(self).spec_incoming().drop_first()
                &&& final(self).spec_outgoing().len() == old(self).spec_outgoing().len() + 1
                &&& final(self).spec_outgoing().last()@.data matches MessageVarientView::Pong
                &&& final(self).spec_outgoing().drop_last() == old(self).spec_outgoing()
                &&& final(self).spec_pending() == old(self).spec_pending()
                &&& final(self).spec_handlers() == old(self).spec_handlers()
                &&& final(self).spec_server_info() == old(self).spec_server_info()
            },
            old(self).spec_state() == ClientState::Ready && old(self).spec_incoming().len() > 0
                && !(old(self).spec_incoming()[0]@.data matches MessageVarientView::Ping) ==> {
                let m = old(self).spec_incoming()[0];
                let hs = old(self).spec_handlers();
                &&& final(self).spec_state() == ClientState::Ready
                &&& final(self).spec_incoming() == old(self).spec_incoming().drop_first()
                &&& final(self).spec_outgoing() == old(self).spec_outgoing()
                &&& final(self).spec_pending() == old(self).spec_pending()
                &&& final(self).spec_server_info() == old(self).spec_server_info()
                &&& final(self).spec_handlers().len() == hs.len()
                &&& if exists|k: int| 0 <= k < hs.len() && (#[trigger] hs[k].claims(&m)) {
                    let k = crate::handler::first_claimant(hs, m);
                    &&& r matches UpdateStatus::Success
                    &&& 0 <= k < hs.len()
                    &&& hs[k].claims(&m)
                    &&& forall|j: int| 0 <= j < k ==> !(#[trigger] hs[j].claims(&m))
                    &&& forall|j: int|
                        0 <= j < hs.len() && j != k ==> final(self).spec_handlers()[j] == hs[j]
                    &&& final(self).spec_handlers()[k].ops().map_values(
                        |o: HandlerOperation| ClientHandler::op_view(o),
                    ) == hs[k].ops().map_values(|o: HandlerOperation| ClientHandler::op_view(o))
                        + hs[k].ops_for(&m)
                    &&& final(self).spec_handlers()[k].global_ops().map_values(
                        |g: GlobalHandlerOperation| g@,
                    ) == hs[k].global_ops().map_values(|g: GlobalHandlerOperation| g@) + hs[
                        k
                    ].global_ops_for(&m)
                } else {
                    &&& r matches UpdateStatus::Unhandled(u) && u == m
                    &&& final(self).spec_handlers() == hs
                }
            },
            old(self).spec_state() == ClientState::Closed ==> (r matches UpdateStatus::Noop
                && *final(self) == *old(self)),
    {
        match self.state {
            ClientState::Begin => {
                let connect = crate::msg::gen_connect(self.name.clone());
                crate::fifo::msg_queue_add(&mut self.outgoing, connect);
                self.state = ClientState::Handshake;
                UpdateStatus::Success
            },
            ClientState::Handshake => {
                if crate::fifo::msg_queue_size(&self.incoming) == 0 {
                    return UpdateStatus::Noop;
                }
                match crate::fifo::msg_queue_remove(&mut self.incoming) {
                    None => {
                        proof {
                            assert(false);
                        }
                        UpdateStatus::Noop
                    },
                    Some(msg) => {
                        match &msg.data {
                            MessageVarient::ServerInfo {
                                server_name,
                                conn_status,
                                your_uuid,
                                ..
                            } => {
                                match conn_status {
                                    ConnectionStatus::Refused { .. } => {
                                        self.state = ClientState::Closed;
                                        UpdateStatus::ConnectionRefused
                                    },
                                    ConnectionStatus::Connected => {
                                        self.server_info = Some(
                                            ServerInfo {
                                                name: server_name.clone(),
                                                client_uuid: UserId { id: *your_uuid },
                                            },
                                        );
                                        self.state = ClientState::GetHandlerDefaultOps;
                                        UpdateStatus::Success
                                    },
                                }
                            },
                            _ => {
                                let copy = msg.clone();
                                crate::fifo::msg_queue_add(&mut self.incoming, copy);
                                UpdateStatus::Unexpected(msg)
                            },
                        }
                    },
                }
            },
            ClientState::GetHandlerDefaultOps => {
                let ghost hs0 = self.handlers@;
                let ghost base = crate::fifo::client_op_queue(&self.pending_op);
                let ghost snap = *self;
                let n = self.handlers.len();
                for i in 0..n
                    invariant
                        n == self.handlers@.len(),
                        self.handlers@ == hs0,
                        crate::fifo::client_op_queue(&self.pending_op) == base
                            + crate::handler::all_default_ops(hs0.take(i as int)),
                        self.spec_incoming() == snap.spec_incoming(),
                        self.spec_outgoing() == snap.spec_outgoing(),
                        self.spec_name() == snap.spec_name(),
                        self.spec_server_info() == snap.spec_server_info(),
                        self.spec_state() == snap.spec_state(),
                {
                    let mut h = self.handlers.remove(i);
                    let ops = h.get_default_operations();
                    self.handlers.insert(i, h);
                    proof {
                        assert(self.handlers@ =~= hs0);
                    }
                    enqueue_ops(&mut self.pending_op, ops);
                    proof {
                        assert(hs0.take(i as int).push(hs0[i as int]) =~= hs0.take(i + 1 as int));
                        crate::handler::lemma_all_default_ops_push(
                            hs0.take(i as int),
                            hs0[i as int],
                        );
                    }
                }
                proof {
                    assert(hs0.take(hs0.len() as int) =~= hs0);
                }
                self.state = ClientState::Ready;
                UpdateStatus::Success
            },
            ClientState::Ready => {
                if crate::fifo::msg_queue_size(&self.incoming) == 0 {
                    return UpdateStatus::Noop;
                }
                match crate::fifo::msg_queue_remove(&mut self.incoming) {
                    None => {
                        proof {
                            assert(false);
                        }
                        UpdateStatus::Noop
                    },
                    Some(msg) => {
                        let is_ping = match &msg.data {
                            MessageVarient::Ping => true,
                            _ => false,
                        };
                        if is_ping {
                            crate::fifo::msg_queue_add(
                                &mut self.outgoing,
                                Message { data: MessageVarient::Pong },
                            );
                            UpdateStatus::Success
                        } else {
                            let ghost hs0 = self.handlers@;
                            let ghost snap = *self;
                            let mut i: usize = 0;
                            let mut claimed = false;
                            let ghost mut kk: int = 0;
                            while !claimed && i < self.handlers.len()
                                invariant
                                    self.handlers@.len() == hs0.len(),
                                    i <= hs0.len(),
                                    !claimed ==> self.handlers@ == hs0 && (forall|j: int|
                                        0 <= j < i ==> !(#[trigger] hs0[j].claims(&msg))),
                                    claimed ==> {
                                        &&& 0 <= kk < hs0.len()
                                        &&& hs0[kk].claims(&msg)
                                        &&& forall|j: int|
                                            0 <= j < kk ==> !(#[trigger] hs0[j].claims(&msg))
                                        &&& forall|j: int|
                                            0 <= j < hs0.len() && j != kk ==> self.handlers@[j]
                                                == hs0[j]
                                        &&& self.handlers@[kk].ops().map_values(
                                            |o: HandlerOperation| ClientHandler::op_view(o),
                                        ) == hs0[kk].ops().map_values(
                                            |o: HandlerOperation| ClientHandler::op_view(o),
                                        ) + hs0[kk].ops_for(&msg)
                                        &&& self.handlers@[kk].global_ops().map_values(
                                            |g: GlobalHandlerOperation| g@,
                                        ) == hs0[kk].global_ops().map_values(
                                            |g: GlobalHandlerOperation| g@,
                                        ) + hs0[kk].global_ops_for(&msg)
                                    },
                                    self.spec_incoming() == snap.spec_incoming(),
                                    self.spec_outgoing() == snap.spec_outgoing(),
                                    self.spec_pending() == snap.spec_pending(),
                                    self.spec_name() == snap.spec_name(),
                                    self.spec_server_info() == snap.spec_server_info(),
                                    self.spec_state() == snap.spec_state(),
                                decreases hs0.len() - i + (if claimed {
                                    0int
                                } else {
                                    1int
                                }),
                            {
                                let mut h = self.handlers.remove(i);
                                proof {
                                    assert(h == hs0[i as int]);
                                }
                                let res = h.handle(&msg);
                                let ghost hafter = h;
                                self.handlers.insert(i, h);
                                proof {
                                    assert(self.handlers@ =~= hs0.update(i as int, hafter));
                                    if !res {
                                        assert(hafter == hs0[i as int]);
                                        assert(self.handlers@ =~= hs0);
                                    } else {
                                        assert(hs0[i as int].claims(&msg));
                                    }
                                }
                                if res {
                                    claimed = true;
                                    proof {
                                        kk = i as int;
                                    }
                                } else {
                                    i = i + 1;
                                }
                            }
                            if claimed {
                                proof {
                                    assert(hs0[kk].claims(&msg));
                                    crate::handler::lemma_first_claimant(hs0, msg, kk);
                                }
                                UpdateStatus::Success
                            } else {
                                UpdateStatus::Unhandled(msg)
                            }
                        }
                    },
                }
            },
            ClientState::Closed => UpdateStatus::Noop,
        }
    }

    /// Asks every handler for its accumulated operations and queues them
    /// all, in registration order, oldest first within each handler;
    /// afterwards no handler holds any.
    pub fn collect_actions(&mut self)
        ensures
            final(self).spec_pending() == old(self).spec_pending() + crate::handler::all_ops(
                old(self).spec_handlers(),
            ),
            final(self).spec_handlers().len() == old(self).spec_handlers().len(),
            forall|j: int|
                0 <= j < old(self).spec_handlers().len()
                    ==> (#[trigger] final(self).spec_handlers()[j]).ops() == Seq::<
                    HandlerOperation,
                >::empty(),
            forall|j: int, m: Message|
                0 <= j < old(self).spec_handlers().len()
                    ==> (#[trigger] final(self).spec_handlers()[j].claims(&m)) == old(
                    self,
                ).spec_handlers()[j].claims(&m),
            forall|j: int|
                0 <= j < old(self).spec_handlers().len()
                    ==> (#[trigger] final(self).spec_handlers()[j]).default_ops() == old(
                    self,
                ).spec_handlers()[j].default_ops(),
            final(self).spec_incoming() == old(self).spec_incoming(),
            final(self).spec_outgoing() == old(self).spec_outgoing(),
            final(self).spec_name() == old(self).spec_name(),
            final(self).spec_server_info() == old(self).spec_server_info(),
            final(self).spec_state() == old(self).spec_state(),
    {
        let ghost hs0 = self.handlers@;
        let ghost base = crate::fifo::client_op_queue(&self.pending_op);
        let ghost snap = *self;
        let n = self.handlers.len();
        for i in 0..n
            invariant
                n == self.handlers@.len(),
                self.handlers@.len() == hs0.len(),
                crate::fifo::client_op_queue(&self.pending_op) == base + crate::handler::all_ops(
                    hs0.take(i as int),
                ),
                forall|j: int| i <= j < hs0.len() ==> self.handlers@[j] == hs0[j],
                forall|j: int|
                    0 <= j < i ==> (#[trigger] self.handlers@[j]).ops() == Seq::<
                        HandlerOperation,
                    >::empty(),
                forall|j: int, m: Message|
                    0 <= j < i ==> (#[trigger] self.handlers@[j].claims(&m)) == hs0[j].claims(&m),
                forall|j: int|
                    0 <= j < i ==> (#[trigger] self.handlers@[j]).default_ops()
                        == hs0[j].default_ops(),
                self.spec_incoming() == snap.spec_incoming(),
                self.spec_outgoing() == snap.spec_outgoing(),
                self.spec_name() == snap.spec_name(),
                self.spec_server_info() == snap.spec_server_info(),
                self.spec_state() == snap.spec_state(),
        {
            let mut h = self.handlers.remove(i);
            proof {
                assert(h == hs0[i as int]);
            }
            let ops = h.get_operations();
            self.handlers.insert(i, h);
            match ops {
                Some(v) => {
                    enqueue_ops(&mut self.pending_op, v);
                },
                None => {},
            }
            proof {
                assert(hs0.take(i as int).push(hs0[i as int]) =~= hs0.take(i + 1 as int));
                crate::handler::lemma_all_ops_push(hs0.take(i as int), hs0[i as int]);
                assert(crate::fifo::client_op_queue(&self.pending_op) =~= base
                    + crate::handler::all_ops(hs0.take(i + 1 as int)));
            }
        }
        proof {
            assert(hs0.take(hs0.len() as int) =~= hs0);
        }
    }

    /// Executes the oldest pending operation. A message for the server is
    /// resolved here, queued for sending, and `Ok(None)` says there is
    /// nothing more to do; an interface-bound operation comes back as
    /// `Ok(Some(op))` for the caller to perform, since only the caller
    /// can reach the screen; `Err(None)` says nothing was pending. No
    /// other outcome exists: every operation kind is recognized.
    pub fn execute_action(&mut self) -> (r: Result<Option<HandlerOperation>, Option<
        HandlerOperation,
    >>)
        ensures
            old(self).spec_pending().len() == 0 ==> (r matches Err(o) && o is None && *final(self)
                == *old(self)),
            old(self).spec_pending().len() > 0 ==> {
                &&& final(self).spec_pending() == old(self).spec_pending().drop_first()
                &&& match old(self).spec_pending()[0] {
                    HandlerOperation::InterfaceOperation(_) => r matches Ok(o) && o matches Some(op)
                        && op == old(self).spec_pending()[0] && final(self).spec_outgoing() == old(
                        self,
                    ).spec_outgoing(),
                    HandlerOperation::ServerMsg { msg } => r matches Ok(o) && o is None
                        && final(self).spec_outgoing() == old(self).spec_outgoing().push(msg),
                }
                &&& final(self).spec_incoming() == old(self).spec_incoming()
                &&& final(self).spec_handlers() == old(self).spec_handlers()
                &&& final(self).spec_name() == old(self).spec_name()
                &&& final(self).spec_server_info() == old(self).spec_server_info()
                &&& final(self).spec_state() == old(self).spec_state()
            },
    {
        if crate::fifo::client_op_queue_size(&self.pending_op) == 0 {
            return Err(None);
        }
        match crate::fifo::client_op_queue_remove(&mut self.pending_op) {
            None => {
                proof {
                    assert(false);
                }
                Err(None)
            },
            Some(op) => match op {
                HandlerOperation::InterfaceOperation(_) => Ok(Some(op)),
                HandlerOperation::ServerMsg { msg } => {
                    crate::fifo::msg_queue_add(&mut self.outgoing, msg);
                    Ok(None)
                },
            },
        }
    }

    /// Whether a relayed chat line is this client's own, coming back to
    /// it; its author identity is compared against the one the server
    /// assigned. The caller shows only lines that are not its own.
    pub fn is_own_message(&self, chat: &ChatMessage) -> (r: bool)
        requires
            self.spec_server_info() is Some,
            chat@.author_uuid is Some,
        ensures
            match self.spec_server_info() {
                Some(si) => r == (chat@.author_uuid == Some(si.client_uuid.id)),
                None => true,
            },
    {
        match (&self.server_info, &chat.author_uuid) {
            (Some(si), Some(u)) => si.client_uuid.id == u.id,
            _ => false,
        }
    }
}

/// The handlers a client starts with: chat lines and presence updates.
pub fn get_default() -> (r: Vec<ClientHandler>)
    ensures
        r@.len() == 2,
        r@[0] matches ClientHandler::IncomingChat(h) && h.pending_ops() == Seq::<
            HandlerOperation,
        >::empty(),
        r@[1] matches ClientHandler::InfoUpdate(h) && h.pending_ops() == Seq::<
            HandlerOperation,
        >::empty(),
{
    let mut r: Vec<ClientHandler> = Vec::new();
    r.push(ClientHandler::IncomingChat(IncomingChatHandler::new()));
    r.push(ClientHandler::InfoUpdate(InfoUpdateHandler::new()));
    r
}

} // verus!
