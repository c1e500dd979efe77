//! The message catalog: every value that can cross a connection, together
//! with the mathematical view of each message used by the contracts.
use vstd::prelude::*;

verus! {

/// Reasons a server may give when it terminates a connection.
#[derive(Clone, Copy, Debug, PartialEq, Eq)]
pub enum ServerDisconnectReason {
    Closed,
    ClientRequestedDisconnect,
    InvalidConnectionSequence,
}

/// The 128-bit identity a server assigns to a connection when it is
/// accepted; independent of the client's self-reported display name.
#[derive(Clone, Copy, Debug, PartialEq, Eq)]
pub struct UserId {
    pub id: u128,
}

/// One change to the set of connected users, as sent inside
/// `ServerInfoUpdate`.
#[derive(Debug, PartialEq, Eq)]
pub enum UserNameUpdate {
    NewUser { uuid: u128 },
    UserNamed { uuid: u128, name: String },
    UserLeft { uuid: u128, name: Option<String> },
}

/// Mathematical view of a `UserNameUpdate`: strings become char sequences.
pub enum UserNameUpdateView {
    NewUser { uuid: u128 },
    UserNamed { uuid: u128, name: Seq<char> },
    UserLeft { uuid: u128, name: Option<Seq<char>> },
}

impl View for UserNameUpdate {
    type V = UserNameUpdateView;

    open spec fn view(&self) -> UserNameUpdateView {
        match self {
            UserNameUpdate::NewUser { uuid } => UserNameUpdateView::NewUser { uuid: *uuid },
            UserNameUpdate::UserNamed { uuid, name } => UserNameUpdateView::UserNamed {
                uuid: *uuid,
                name: name@,
            },
            UserNameUpdate::UserLeft { uuid, name } => UserNameUpdateView::UserLeft {
                uuid: *uuid,
                name: match name {
                    Some(n) => Some(n@),
                    None => None,
                },
            },
        }
    }
}

/// Whether the server accepted or refused a connection, sent in `ServerInfo`.
#[derive(Debug, PartialEq, Eq)]
pub enum ConnectionStatus {
    Connected,
    Refused { reason: String },
}

/// Mathematical view of a `ConnectionStatus`.
pub enum ConnectionStatusView {
    Connected,
    Refused { reason: Seq<char> },
}

impl View for ConnectionStatus {
    type V = ConnectionStatusView;

    open spec fn view(&self) -> ConnectionStatusView {
        match self {
            ConnectionStatus::Connected => ConnectionStatusView::Connected,
            ConnectionStatus::Refused { reason } => ConnectionStatusView::Refused {
                reason: reason@,
            },
        }
    }
}

/// The tagged union of everything one side may say to the other.
#[derive(Debug, PartialEq, Eq)]
pub enum MessageVarient {
    /// Client sends this as its last message when it leaves.
    DisconnectMessage {},
    /// Client sends this as its first message.
    ConnectMessage { name: String },
    /// Server answers a `ConnectMessage` with this, and with nothing else
    /// at any other time.
    ServerInfo {
        server_name: String,
        conn_status: ConnectionStatus,
        connected_users: Vec<UserNameUpdate>,
        your_uuid: u128,
    },
    /// Update to server info; may be sent at any time.
    ServerInfoUpdate { name: Option<String>, user_updates: Vec<UserNameUpdate> },
    /// Request a simple response.
    Ping,
    /// The simple response.
    Pong,
    /// Server has disconnected the client for some reason.
    ServerForceDisconnect { reason: ServerDisconnectReason, close_message: String },
    /// Client sends a chat line to the server.
    ClientSendChat { content: String },
    /// Server relays a chat line to a client.
    ServerSendChat { content: String, author: String, author_uuid: u128 },
    TestMessage {},
    TestMessageResponse {},
}

/// Mathematical view of a `MessageVarient`.
pub enum MessageVarientView {
    DisconnectMessage,
    ConnectMessage { name: Seq<char> },
    ServerInfo {
        server_name: Seq<char>,
        conn_status: ConnectionStatusView,
        connected_users: Seq<UserNameUpdateView>,
        your_uuid: u128,
    },
    ServerInfoUpdate { name: Option<Seq<char>>, user_updates: Seq<UserNameUpdateView> },
    Ping,
    Pong,
    ServerForceDisconnect { reason: ServerDisconnectReason, close_message: Seq<char> },
    ClientSendChat { content: Seq<char> },
    ServerSendChat { content: Seq<char>, author: Seq<char>, author_uuid: u128 },
    TestMessage,
    TestMessageResponse,
}

impl View for MessageVarient {
    type V = MessageVarientView;

    open spec fn view(&self) -> MessageVarientView {
        match self {
            MessageVarient::DisconnectMessage {} => MessageVarientView::DisconnectMessage,
            MessageVarient::ConnectMessage { name } => MessageVarientView::ConnectMessage {
                name: name@,
            },
            MessageVarient::ServerInfo { server_name, conn_status, connected_users, your_uuid } => {
                MessageVarientView::ServerInfo {
                    server_name: server_name@,
                    conn_status: conn_status@,
                    connected_users: connected_users@.map_values(|u: UserNameUpdate| u@),
                    your_uuid: *your_uuid,
                }
            },
            MessageVarient::ServerInfoUpdate { name, user_updates } => {
                MessageVarientView::ServerInfoUpdate {
                    name: match name {
                        Some(n) => Some(n@),
                        None => None,
                    },
                    user_updates: user_updates@.map_values(|u: UserNameUpdate| u@),
                }
            },
            MessageVarient::Ping => MessageVarientView::Ping,
            MessageVarient::Pong => MessageVarientView::Pong,
            MessageVarient::ServerForceDisconnect { reason, close_message } => {
                MessageVarientView::ServerForceDisconnect {
                    reason: *reason,
                    close_message: close_message@,
                }
            },
            MessageVarient::ClientSendChat { content } => MessageVarientView::ClientSendChat {
                content: content@,
            },
            MessageVarient::ServerSendChat { content, author, author_uuid } => {
                MessageVarientView::ServerSendChat {
                    content: content@,
                    author: author@,
                    author_uuid: *author_uuid,
                }
            },
            MessageVarient::TestMessage {} => MessageVarientView::TestMessage,
            MessageVarient::TestMessageResponse {} => MessageVarientView::TestMessageResponse,
        }
    }
}

/// One message as framed and sent over a connection.
#[derive(Debug, PartialEq, Eq)]
pub struct Message {
    pub data: MessageVarient,
}

/// Mathematical view of a `Message`.
pub struct MessageView {
    pub data: MessageVarientView,
}

impl View for Message {
    type V = MessageView;

    open spec fn view(&self) -> MessageView {
        MessageView { data: self.data@ }
    }
}

fn clone_opt_string(s: &Option<String>) -> (r: Option<String>)
    ensures
        (match r {
            Some(t) => Some(t@),
            None => None,
        }) == (match s {
            Some(t) => Some(t@),
            None => None,
        }),
{
    match s {
        None => None,
        Some(t) => Some(t.clone()),
    }
}

impl Clone for UserNameUpdate {
    /// A copy that carries the same identity and the same characters.
    fn clone(&self) -> (r: Self)
        ensures
            r@ == self@,
    {
        match self {
            UserNameUpdate::NewUser { uuid } => UserNameUpdate::NewUser { uuid: *uuid },
            UserNameUpdate::UserNamed { uuid, name } => UserNameUpdate::UserNamed {
                uuid: *uuid,
                name: name.clone(),
            },
            UserNameUpdate::UserLeft { uuid, name } => UserNameUpdate::UserLeft {
                uuid: *uuid,
                name: clone_opt_string(name),
            },
        }
    }
}

fn clone_update_vec(v: &Vec<UserNameUpdate>) -> (r: Vec<UserNameUpdate>)
    ensures
        r@.map_values(|u: UserNameUpdate| u@) == v@.map_values(|u: UserNameUpdate| u@),
{
    let mut r: Vec<UserNameUpdate> = Vec::new();
    for i in 0..v.len()
        invariant
            r@.len() == i,
            forall|j: int| 0 <= j < i ==> (#[trigger] r@[j])@ == v@[j]@,
    {
        r.push(v[i].clone());
    }
    proof {
        assert(r@.map_values(|u: UserNameUpdate| u@) =~= v@.map_values(|u: UserNameUpdate| u@));
    }
    r
}

impl Clone for ConnectionStatus {
    /// A copy with the same status and the same refusal reason.
    fn clone(&self) -> (r: Self)
        ensures
            r@ == self@,
    {
        match self {
            ConnectionStatus::Connected => ConnectionStatus::Connected,
            ConnectionStatus::Refused { reason } => ConnectionStatus::Refused {
                reason: reason.clone(),
            },
        }
    }
}

impl Clone for MessageVarient {
    /// A copy whose view is identical: same variant, same field contents.
    fn clone(&self) -> (r: Self)
        ensures
            r@ == self@,
    {
        match self {
            MessageVarient::DisconnectMessage {} => MessageVarient::DisconnectMessage {},
            MessageVarient::ConnectMessage { name } => MessageVarient::ConnectMessage {
                name: name.clone(),
            },
            MessageVarient::ServerInfo { server_name, conn_status, connected_users, your_uuid } => {
                let r = MessageVarient::ServerInfo {
                    server_name: server_name.clone(),
                    conn_status: conn_status.clone(),
                    connected_users: clone_update_vec(connected_users),
                    your_uuid: *your_uuid,
                };
                proof {
                    assert(r@ == self@);
                }
                r
            },
            MessageVarient::ServerInfoUpdate { name, user_updates } => {
                let r = MessageVarient::ServerInfoUpdate {
                    name: clone_opt_string(name),
                    user_updates: clone_update_vec(user_updates),
                };
                proof {
                    assert(r@ == self@);
                }
                r
            },
            MessageVarient::Ping => MessageVarient::Ping,
            MessageVarient::Pong => MessageVarient::Pong,
            MessageVarient::ServerForceDisconnect { reason, close_message } => {
                MessageVarient::ServerForceDisconnect {
                    reason: *reason,
                    close_message: close_message.clone(),
                }
            },
            MessageVarient::ClientSendChat { content } => MessageVarient::ClientSendChat {
                content: content.clone(),
            },
            MessageVarient::ServerSendChat { content, author, author_uuid } => {
                MessageVarient::ServerSendChat {
                    content: content.clone(),
                    author: author.clone(),
                    author_uuid: *author_uuid,
                }
            },
            MessageVarient::TestMessage {} => MessageVarient::TestMessage {},
            MessageVarient::TestMessageResponse {} => MessageVarient::TestMessageResponse {},
        }
    }
}

impl Clone for Message {
    /// A copy whose view is identical to the original's.
    fn clone(&self) -> (r: Self)
        ensures
            r@ == self@,
    {
        Message { data: self.data.clone() }
    }
}

/// The liveness request; valid at any time once a connection is ready.
pub fn ping() -> (r: Message)
    ensures
        r@.data matches MessageVarientView::Ping,
{
    Message { data: MessageVarient::Ping }
}

/// The first message a client sends: its self-declared display name.
pub fn gen_connect(name: String) -> (r: Message)
    ensures
        r@.data matches MessageVarientView::ConnectMessage { name: n } && n == name@,
{
    Message { data: MessageVarient::ConnectMessage { name } }
}

/// The name of a message variant, as used in diagnostics.
pub open spec fn spec_varient_name(d: MessageVarientView) -> Seq<char> {
    match d {
        MessageVarientView::DisconnectMessage => "DisconnectMessage"@,
        MessageVarientView::ConnectMessage { .. } => "ConnectMessage"@,
        MessageVarientView::ServerInfo { .. } => "ServerInfo"@,
        MessageVarientView::ServerInfoUpdate { .. } => "ServerInfoUpdate"@,
        MessageVarientView::Ping => "Ping"@,
        MessageVarientView::Pong => "Pong"@,
        MessageVarientView::ServerForceDisconnect { .. } => "ServerForceDisconnect"@,
        MessageVarientView::ClientSendChat { .. } => "ClientSendChat"@,
        MessageVarientView::ServerSendChat { .. } => "ServerSendChat"@,
        MessageVarientView::TestMessage => "TestMessage"@,
        MessageVarientView::TestMessageResponse => "TestMessageResponse"@,
    }
}

/// The name of a message variant, for a diagnostic to carry.
pub fn varient_name(d: &MessageVarient) -> (r: &'static str)
    ensures
        r@ == spec_varient_name(d@),
{
    match d {
        MessageVarient::DisconnectMessage {} => "DisconnectMessage",
        MessageVarient::ConnectMessage { .. } => "ConnectMessage",
        MessageVarient::ServerInfo { .. } => "ServerInfo",
        MessageVarient::ServerInfoUpdate { .. } => "ServerInfoUpdate",
        MessageVarient::Ping => "Ping",
        MessageVarient::Pong => "Pong",
        MessageVarient::ServerForceDisconnect { .. } => "ServerForceDisconnect",
        MessageVarient::ClientSendChat { .. } => "ClientSendChat",
        MessageVarient::ServerSendChat { .. } => "ServerSendChat",
        MessageVarient::TestMessage {} => "TestMessage",
        MessageVarient::TestMessageResponse {} => "TestMessageResponse",
    }
}

/// What can be wrong with a received frame header; each part that can
/// mismatch gets its own kind so a malformed stream can be diagnosed.
#[derive(Clone, Copy, Debug, PartialEq, Eq)]
pub enum HeaderParserError {
    InvalidLength,
    InvalidPrefix,
    InvalidMsgSize,
    InvalidSuffix,
}

/// Total length of a frame header on the wire: prefix marker, the 64-bit
/// payload length, suffix marker.
pub const HEADER_LEN: usize = 9 + 8 + 10;

/// The marker bytes that open every header: the ASCII text `ds-header`.
pub open spec fn header_prefix() -> Seq<u8> {
    seq![100u8, 115u8, 45u8, 104u8, 101u8, 97u8, 100u8, 101u8, 114u8]
}

/// The marker bytes that close every header: the ASCII text `header-end`.
pub open spec fn header_suffix() -> Seq<u8> {
    seq![104u8, 101u8, 97u8, 100u8, 101u8, 114u8, 45u8, 101u8, 110u8, 100u8]
}

/// The length field as it crosses the wire: 8 bytes big-endian.
pub open spec fn spec_u64_be_bytes(n: u64) -> Seq<u8> {
    vstd::bytes::spec_u64_to_le_bytes(n).reverse()
}

/// The number an 8-byte big-endian length field holds.
pub open spec fn spec_u64_from_be_bytes(s: Seq<u8>) -> u64 {
    vstd::bytes::spec_u64_from_le_bytes(s.reverse())
}

/// The big-endian length field is 8 bytes and reads back to its number.
pub proof fn lemma_u64_be_bytes(n: u64)
    ensures
        spec_u64_be_bytes(n).len() == 8,
        spec_u64_from_be_bytes(spec_u64_be_bytes(n)) == n,
{
    vstd::bytes::lemma_auto_spec_u64_to_from_le_bytes();
    assert(spec_u64_be_bytes(n).reverse() =~= vstd::bytes::spec_u64_to_le_bytes(n));
}

/// Renders the big-endian length field.
fn u64_to_be_bytes(n: u64) -> (r: Vec<u8>)
    ensures
        r@ == spec_u64_be_bytes(n),
{
    let le = vstd::bytes::u64_to_le_bytes(n);
    let mut r: Vec<u8> = Vec::new();
    let mut i: usize = 8;
    while i > 0
        invariant
            le@ == vstd::bytes::spec_u64_to_le_bytes(n),
            le@.len() == 8,
            i <= 8,
            r@.len() == 8 - i,
            forall|j: int| 0 <= j < r@.len() ==> r@[j] == le@[7 - j],
        decreases i,
    {
        i = i - 1;
        r.push(le[i]);
    }
    proof {
        assert(r@ =~= spec_u64_be_bytes(n));
    }
    r
}

/// Reads the big-endian length field.
fn u64_from_be_bytes(s: &[u8]) -> (r: u64)
    requires
        s@.len() == 8,
    ensures
        r == spec_u64_from_be_bytes(s@),
{
    let mut rev: Vec<u8> = Vec::new();
    let mut i: usize = 8;
    while i > 0
        invariant
            s@.len() == 8,
            i <= 8,
            rev@.len() == 8 - i,
            forall|j: int| 0 <= j < rev@.len() ==> rev@[j] == s@[7 - j],
        decreases i,
    {
        i = i - 1;
        rev.push(*vstd::slice::slice_index_get(s, i));
    }
    proof {
        assert(rev@ =~= s@.reverse());
    }
    vstd::bytes::u64_from_le_bytes(rev.as_slice())
}

/// The exact bytes of a header that announces a payload of `n` bytes.
pub open spec fn spec_header_bytes(n: u64) -> Seq<u8> {
    header_prefix() + spec_u64_be_bytes(n) + header_suffix()
}

/// What parsing a header buffer yields: the announced payload length, or
/// the first mismatch found (length, then prefix, then suffix).
pub open spec fn spec_parse_header(b: Seq<u8>) -> Result<u64, HeaderParserError> {
    if b.len() != HEADER_LEN {
        Err(HeaderParserError::InvalidLength)
    } else if b.subrange(0, 9) != header_prefix() {
        Err(HeaderParserError::InvalidPrefix)
    } else if b.subrange(17, 27) != header_suffix() {
        Err(HeaderParserError::InvalidSuffix)
    } else {
        Ok(spec_u64_from_be_bytes(b.subrange(9, 17)))
    }
}

fn header_prefix_bytes() -> (r: Vec<u8>)
    ensures
        r@ == header_prefix(),
{
    let mut r: Vec<u8> = Vec::new();
    r.push(100);
    r.push(115);
    r.push(45);
    r.push(104);
    r.push(101);
    r.push(97);
    r.push(100);
    r.push(101);
    r.push(114);
    proof {
        assert(r@ =~= header_prefix());
    }
    r
}

fn header_suffix_bytes() -> (r: Vec<u8>)
    ensures
        r@ == header_suffix(),
{
    let mut r: Vec<u8> = Vec::new();
    r.push(104);
    r.push(101);
    r.push(97);
    r.push(100);
    r.push(101);
    r.push(114);
    r.push(45);
    r.push(101);
    r.push(110);
    r.push(100);
    proof {
        assert(r@ =~= header_suffix());
    }
    r
}

/// Header for a `Message`: a fixed-size preamble announcing how many bytes
/// of serialized payload follow it on the wire.
#[derive(Clone, Copy, Debug, PartialEq, Eq)]
pub struct Header {
    msg_size: u64,
}

impl View for Header {
    type V = u64;

    closed spec fn view(&self) -> u64 {
        self.msg_size
    }
}

impl Header {
    /// Creates a header announcing exactly the length of `msg`.
    pub fn new(msg: &[u8]) -> (r: Self)
        ensures
            r@ == msg@.len(),
    {
        Self { msg_size: msg.len() as u64 }
    }

    /// Creates a header of size 0.
    pub fn blank() -> (r: Self)
        ensures
            r@ == 0,
    {
        Self { msg_size: 0 }
    }

    /// The payload length this header announces.
    pub fn size(&self) -> (r: usize)
        requires
            self@ <= usize::MAX,
        ensures
            r == self@,
    {
        self.msg_size as usize
    }

    /// The payload length this header announces, if it fits the machine's
    /// address space; a length that cannot even be allocated is reported
    /// rather than truncated.
    pub fn size_checked(&self) -> (r: Option<usize>)
        ensures
            match r {
                Some(v) => v == self@ && self@ <= usize::MAX,
                None => self@ > usize::MAX,
            },
    {
        if self.msg_size <= usize::MAX as u64 {
            Some(self.msg_size as usize)
        } else {
            None
        }
    }

    /// Renders the header into its exact wire bytes.
    pub fn to_bytes(&self) -> (r: Vec<u8>)
        ensures
            r@ == spec_header_bytes(self@),
    {
        let mut r = header_prefix_bytes();
        let mut mid = u64_to_be_bytes(self.msg_size);
        r.append(&mut mid);
        let mut suffix = header_suffix_bytes();
        r.append(&mut suffix);
        proof {
            assert(r@ =~= spec_header_bytes(self@));
        }
        r
    }

    /// Parses a header buffer, reporting which part was invalid: the total
    /// length, the prefix marker, or the suffix marker.
    pub fn from_bytes(header: &[u8]) -> (r: Result<Self, HeaderParserError>)
        ensures
            match r {
                Ok(h) => spec_parse_header(header@) == Ok::<u64, HeaderParserError>(h@),
                Err(e) => spec_parse_header(header@) == Err::<u64, HeaderParserError>(e),
            },
    {
        if header.len() != HEADER_LEN {
            return Err(HeaderParserError::InvalidLength);
        }
        let prefix = header_prefix_bytes();
        for i in 0..9
            invariant
                header@.len() == 27,
                prefix@ == header_prefix(),
                forall|j: int| 0 <= j < i ==> header@[j] == header_prefix()[j],
        {
            if header[i] != prefix[i] {
                proof {
                    assert(header@.subrange(0, 9)[i as int] != header_prefix()[i as int]);
                }
                return Err(HeaderParserError::InvalidPrefix);
            }
        }
        proof {
            assert(header@.subrange(0, 9) =~= header_prefix());
        }
        let suffix = header_suffix_bytes();
        for i in 0..10
            invariant
                header@.len() == 27,
                suffix@ == header_suffix(),
                header@.subrange(0, 9) == header_prefix(),
                forall|j: int| 0 <= j < i ==> header@[17 + j] == header_suffix()[j],
        {
            if header[17 + i] != suffix[i] {
                proof {
                    assert(header@.subrange(17, 27)[i as int] != header_suffix()[i as int]);
                }
                return Err(HeaderParserError::InvalidSuffix);
            }
        }
        proof {
            assert(header@.subrange(17, 27) =~= header_suffix());
        }
        let mid = vstd::slice::slice_subrange(header, 9, 17);
        let n = u64_from_be_bytes(mid);
        Ok(Self { msg_size: n })
    }
}

/// A rendered header is always exactly `HEADER_LEN` bytes.
pub proof fn lemma_header_bytes_len(n: u64)
    ensures
        spec_header_bytes(n).len() == HEADER_LEN,
{
    lemma_u64_be_bytes(n);
}

/// A header parses back to exactly the length it was rendered from.
pub proof fn lemma_header_round_trip(n: u64)
    ensures
        spec_parse_header(spec_header_bytes(n)) == Ok::<u64, HeaderParserError>(n),
{
    lemma_u64_be_bytes(n);
    let b = spec_header_bytes(n);
    assert(b.len() == HEADER_LEN);
    assert(b.subrange(0, 9) =~= header_prefix());
    assert(b.subrange(17, 27) =~= header_suffix());
    assert(b.subrange(9, 17) =~= spec_u64_be_bytes(n));
}

/// Corrupting any single byte of the prefix marker region of a rendered
/// header makes parsing report exactly `InvalidPrefix`.
pub proof fn lemma_header_corrupt_prefix(n: u64, b: Seq<u8>, i: int)
    requires
        0 <= i < 9,
        b.len() == HEADER_LEN,
        b[i] != spec_header_bytes(n)[i],
        forall|j: int| 0 <= j < HEADER_LEN && j != i ==> b[j] == spec_header_bytes(n)[j],
    ensures
        spec_parse_header(b) == Err::<u64, HeaderParserError>(HeaderParserError::InvalidPrefix),
{
    lemma_u64_be_bytes(n);
    let good = spec_header_bytes(n);
    assert(good.subrange(0, 9) =~= header_prefix());
    assert(b.subrange(0, 9)[i] != header_prefix()[i]);
}

/// Corrupting any single byte of the suffix marker region of a rendered
/// header makes parsing report exactly `InvalidSuffix`, never a length or
/// prefix error.
pub proof fn lemma_header_corrupt_suffix(n: u64, b: Seq<u8>, i: int)
    requires
        17 <= i < 27,
        b.len() == HEADER_LEN,
        b[i] != spec_header_bytes(n)[i],
        forall|j: int| 0 <= j < HEADER_LEN && j != i ==> b[j] == spec_header_bytes(n)[j],
    ensures
        spec_parse_header(b) == Err::<u64, HeaderParserError>(HeaderParserError::InvalidSuffix),
{
    lemma_u64_be_bytes(n);
    let good = spec_header_bytes(n);
    assert(good.subrange(0, 9) =~= header_prefix());
    assert(b.subrange(0, 9) =~= header_prefix());
    assert(good.subrange(17, 27) =~= header_suffix());
    assert(b.subrange(17, 27)[i - 17] != header_suffix()[i - 17]);
}

} // verus!
