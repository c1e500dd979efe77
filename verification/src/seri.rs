//! Serialization of the message catalog: the exact byte layout of every
//! `Message`, an encoder that renders it, and a strict decoder that accepts
//! precisely the bytes the encoder produces and nothing else.
//!
//! Layout: one tag byte per variant, 64-bit little-endian lengths, UTF-8
//! string bytes, 128-bit little-endian identities. The specification
//! functions here are the single source of truth; the round-trip between
//! them is proved below.
use vstd::prelude::*;

use crate::msg::ConnectionStatus;
use crate::msg::ConnectionStatusView;
use crate::msg::Header;
use crate::msg::Message;
use crate::msg::MessageVarient;
use crate::msg::MessageVarientView;
use crate::msg::MessageView;
use crate::msg::ServerDisconnectReason;
use crate::msg::UserNameUpdate;
use crate::msg::UserNameUpdateView;
use crate::msg::spec_header_bytes;

verus! {

/// Decoding rejected the payload: it does not match the layout of any
/// message variant, or it has bytes left over after one.
#[derive(Clone, Copy, Debug, PartialEq, Eq)]
pub enum DecodeError {
    CorruptPayload,
}

/// A message together with how many payload bytes it occupied on the wire.
#[derive(Debug)]
pub struct GetMessageResponse {
    pub msg: Message,
    pub bytes: usize,
}

// ---------------------------------------------------------------------------
// The byte layout, as specification functions over message views.
// ---------------------------------------------------------------------------
/// A 64-bit length or count: 8 bytes little-endian.
pub open spec fn spec_enc_u64(n: u64) -> Seq<u8> {
    vstd::bytes::spec_u64_to_le_bytes(n)
}

/// A 128-bit identity: 16 bytes little-endian.
pub open spec fn spec_enc_u128(n: u128) -> Seq<u8> {
    vstd::bytes::spec_u128_to_le_bytes(n)
}

/// A string: its UTF-8 byte length, then its UTF-8 bytes.
pub open spec fn spec_enc_str(s: Seq<char>) -> Seq<u8> {
    spec_enc_u64(vstd::utf8::encode_utf8(s).len() as u64) + vstd::utf8::encode_utf8(s)
}

/// An optional string: a presence byte, then the string if present.
pub open spec fn spec_enc_opt_str(s: Option<Seq<char>>) -> Seq<u8> {
    match s {
        None => seq![0u8],
        Some(t) => seq![1u8] + spec_enc_str(t),
    }
}

/// A disconnect reason: one byte.
pub open spec fn spec_enc_reason(r: ServerDisconnectReason) -> Seq<u8> {
    match r {
        ServerDisconnectReason::Closed => seq![0u8],
        ServerDisconnectReason::ClientRequestedDisconnect => seq![1u8],
        ServerDisconnectReason::InvalidConnectionSequence => seq![2u8],
    }
}

/// A connection status: a tag byte, then the refusal reason if refused.
pub open spec fn spec_enc_status(c: ConnectionStatusView) -> Seq<u8> {
    match c {
        ConnectionStatusView::Connected => seq![0u8],
        ConnectionStatusView::Refused { reason } => seq![1u8] + spec_enc_str(reason),
    }
}

/// One user update: a tag byte, the identity, then the variant's fields.
pub open spec fn spec_enc_update(u: UserNameUpdateView) -> Seq<u8> {
    match u {
        UserNameUpdateView::NewUser { uuid } => seq![0u8] + spec_enc_u128(uuid),
        UserNameUpdateView::UserNamed { uuid, name } => seq![1u8] + spec_enc_u128(uuid)
            + spec_enc_str(name),
        UserNameUpdateView::UserLeft { uuid, name } => seq![2u8] + spec_enc_u128(uuid)
            + spec_enc_opt_str(name),
    }
}

/// The updates of a list, one after the other, without a count.
pub open spec fn spec_enc_update_seq(us: Seq<UserNameUpdateView>) -> Seq<u8>
    decreases us.len(),
{
    if us.len() == 0 {
        Seq::empty()
    } else {
        spec_enc_update(us[0]) + spec_enc_update_seq(us.drop_first())
    }
}

/// A list of user updates: a 64-bit count, then each update in order.
pub open spec fn spec_enc_updates(us: Seq<UserNameUpdateView>) -> Seq<u8> {
    spec_enc_u64(us.len() as u64) + spec_enc_update_seq(us)
}

/// The exact payload bytes of a message: a variant tag byte followed by the
/// variant's fields in declaration order.
pub open spec fn spec_msg_bytes(m: MessageView) -> Seq<u8> {
    match m.data {
        MessageVarientView::DisconnectMessage => seq![0u8],
        MessageVarientView::ConnectMessage { name } => seq![1u8] + spec_enc_str(name),
        MessageVarientView::ServerInfo { server_name, conn_status, connected_users, your_uuid } =>
            seq![2u8] + spec_enc_str(server_name) + spec_enc_status(conn_status)
                + spec_enc_updates(connected_users) + spec_enc_u128(your_uuid),
        MessageVarientView::ServerInfoUpdate { name, user_updates } => seq![3u8]
            + spec_enc_opt_str(name) + spec_enc_updates(user_updates),
        MessageVarientView::Ping => seq![4u8],
        MessageVarientView::Pong => seq![5u8],
        MessageVarientView::ServerForceDisconnect { reason, close_message } => seq![6u8]
            + spec_enc_reason(reason) + spec_enc_str(close_message),
        MessageVarientView::ClientSendChat { content } => seq![7u8] + spec_enc_str(content),
        MessageVarientView::ServerSendChat { content, author, author_uuid } => seq![8u8]
            + spec_enc_str(content) + spec_enc_str(author) + spec_enc_u128(author_uuid),
        MessageVarientView::TestMessage => seq![9u8],
        MessageVarientView::TestMessageResponse => seq![10u8],
    }
}

/// The bytes of a whole frame: the header announcing the payload length,
/// then the payload.
pub open spec fn spec_frame_bytes(m: MessageView) -> Seq<u8> {
    spec_header_bytes(spec_msg_bytes(m).len() as u64) + spec_msg_bytes(m)
}

// ---------------------------------------------------------------------------
// Well-formedness: every length and count must fit its 64-bit field. Every
// message actually held in memory satisfies this, since its strings and
// lists are no longer than the address space.
// ---------------------------------------------------------------------------
pub open spec fn str_wf(s: Seq<char>) -> bool {
    vstd::utf8::encode_utf8(s).len() <= u64::MAX
}

pub open spec fn opt_str_wf(s: Option<Seq<char>>) -> bool {
    match s {
        None => true,
        Some(t) => str_wf(t),
    }
}

pub open spec fn status_wf(c: ConnectionStatusView) -> bool {
    match c {
        ConnectionStatusView::Connected => true,
        ConnectionStatusView::Refused { reason } => str_wf(reason),
    }
}

pub open spec fn update_wf(u: UserNameUpdateView) -> bool {
    match u {
        UserNameUpdateView::NewUser { .. } => true,
        UserNameUpdateView::UserNamed { name, .. } => str_wf(name),
        UserNameUpdateView::UserLeft { name, .. } => opt_str_wf(name),
    }
}

pub open spec fn update_seq_wf(us: Seq<UserNameUpdateView>) -> bool {
    us.len() <= u64::MAX && forall|i: int| 0 <= i < us.len() ==> update_wf(#[trigger] us[i])
}

/// Every length field of the message's encoding fits in 64 bits.
pub open spec fn msg_wf(m: MessageView) -> bool {
    match m.data {
        MessageVarientView::DisconnectMessage => true,
        MessageVarientView::ConnectMessage { name } => str_wf(name),
        MessageVarientView::ServerInfo { server_name, conn_status, connected_users, .. } => str_wf(
            server_name,
        ) && status_wf(conn_status) && update_seq_wf(connected_users),
        MessageVarientView::ServerInfoUpdate { name, user_updates } => opt_str_wf(name)
            && update_seq_wf(user_updates),
        MessageVarientView::Ping => true,
        MessageVarientView::Pong => true,
        MessageVarientView::ServerForceDisconnect { close_message, .. } => str_wf(close_message),
        MessageVarientView::ClientSendChat { content } => str_wf(content),
        MessageVarientView::ServerSendChat { content, author, .. } => str_wf(content) && str_wf(
            author,
        ),
        MessageVarientView::TestMessage => true,
        MessageVarientView::TestMessageResponse => true,
    }
}

// ---------------------------------------------------------------------------
// The strict decoder, as specification functions. Each reads one item at a
// byte offset and yields the item with the offset just past it, or nothing
// if the bytes there cannot be that item.
// ---------------------------------------------------------------------------
pub open spec fn sd_u8(b: Seq<u8>, i: int) -> Option<(u8, int)> {
    if 0 <= i && i + 1 <= b.len() {
        Some((b[i], i + 1))
    } else {
        None
    }
}

pub open spec fn sd_u64(b: Seq<u8>, i: int) -> Option<(u64, int)> {
    if 0 <= i && i + 8 <= b.len() {
        Some((vstd::bytes::spec_u64_from_le_bytes(b.subrange(i, i + 8)), i + 8))
    } else {
        None
    }
}

pub open spec fn sd_u128(b: Seq<u8>, i: int) -> Option<(u128, int)> {
    if 0 <= i && i + 16 <= b.len() {
        Some((vstd::bytes::spec_u128_from_le_bytes(b.subrange(i, i + 16)), i + 16))
    } else {
        None
    }
}

pub open spec fn sd_str(b: Seq<u8>, i: int) -> Option<(Seq<char>, int)> {
    match sd_u64(b, i) {
        None => None,
        Some((n, j)) => if j + n <= b.len() && vstd::utf8::valid_utf8(
            b.subrange(j, j + n),
        ) {
            Some((vstd::utf8::decode_utf8(b.subrange(j, j + n)), j + n))
        } else {
            None
        },
    }
}

pub open spec fn sd_opt_str(b: Seq<u8>, i: int) -> Option<(Option<Seq<char>>, int)> {
    match sd_u8(b, i) {
        None => None,
        Some((t, j)) => if t == 0 {
            Some((None, j))
        } else if t == 1 {
            match sd_str(b, j) {
                None => None,
                Some((s, k)) => Some((Some(s), k)),
            }
        } else {
            None
        },
    }
}

pub open spec fn sd_reason(b: Seq<u8>, i: int) -> Option<(ServerDisconnectReason, int)> {
    match sd_u8(b, i) {
        None => None,
        Some((t, j)) => if t == 0 {
            Some((ServerDisconnectReason::Closed, j))
        } else if t == 1 {
            Some((ServerDisconnectReason::ClientRequestedDisconnect, j))
        } else if t == 2 {
            Some((ServerDisconnectReason::InvalidConnectionSequence, j))
        } else {
            None
        },
    }
}

pub open spec fn sd_status(b: Seq<u8>, i: int) -> Option<(ConnectionStatusView, int)> {
    match sd_u8(b, i) {
        None => None,
        Some((t, j)) => if t == 0 {
            Some((ConnectionStatusView::Connected, j))
        } else if t == 1 {
            match sd_str(b, j) {
                None => None,
                Some((s, k)) => Some((ConnectionStatusView::Refused { reason: s }, k)),
            }
        } else {
            None
        },
    }
}

pub open spec fn sd_update(b: Seq<u8>, i: int) -> Option<(UserNameUpdateView, int)> {
    match sd_u8(b, i) {
        None => None,
        Some((t, j)) => match sd_u128(b, j) {
            None => None,
            Some((uuid, k)) => if t == 0 {
                Some((UserNameUpdateView::NewUser { uuid }, k))
            } else if t == 1 {
                match sd_str(b, k) {
                    None => None,
                    Some((name, l)) => Some((UserNameUpdateView::UserNamed { uuid, name }, l)),
                }
            } else if t == 2 {
                match sd_opt_str(b, k) {
                    None => None,
                    Some((name, l)) => Some((UserNameUpdateView::UserLeft { uuid, name }, l)),
                }
            } else {
                None
            },
        },
    }
}

pub open spec fn sd_update_list(b: Seq<u8>, i: int, n: int) -> Option<
    (Seq<UserNameUpdateView>, int),
>
    decreases n,
{
    if n <= 0 {
        Some((Seq::empty(), i))
    } else {
        match sd_update(b, i) {
            None => None,
            Some((u, j)) => match sd_update_list(b, j, n - 1) {
                None => None,
                Some((us, k)) => Some((seq![u] + us, k)),
            },
        }
    }
}

pub open spec fn sd_updates(b: Seq<u8>, i: int) -> Option<(Seq<UserNameUpdateView>, int)> {
    match sd_u64(b, i) {
        None => None,
        Some((n, j)) => sd_update_list(b, j, n as int),
    }
}

pub open spec fn sd_varient(b: Seq<u8>, i: int) -> Option<(MessageVarientView, int)> {
    match sd_u8(b, i) {
        None => None,
        Some((tag, j)) => if tag == 0 {
            Some((MessageVarientView::DisconnectMessage, j))
        } else if tag == 1 {
            match sd_str(b, j) {
                None => None,
                Some((name, k)) => Some((MessageVarientView::ConnectMessage { name }, k)),
            }
        } else if tag == 2 {
            match sd_str(b, j) {
                None => None,
                Some((server_name, k)) => match sd_status(b, k) {
                    None => None,
                    Some((conn_status, l)) => match sd_updates(b, l) {
                        None => None,
                        Some((connected_users, m)) => match sd_u128(b, m) {
                            None => None,
                            Some((your_uuid, o)) => Some(
                                (
                                    MessageVarientView::ServerInfo {
                                        server_name,
                                        conn_status,
                                        connected_users,
                                        your_uuid,
                                    },
                                    o,
                                ),
                            ),
                        },
                    },
                },
            }
        } else if tag == 3 {
            match sd_opt_str(b, j) {
                None => None,
                Some((name, k)) => match sd_updates(b, k) {
                    None => None,
                    Some((user_updates, l)) => Some(
                        (MessageVarientView::ServerInfoUpdate { name, user_updates }, l),
                    ),
                },
            }
        } else if tag == 4 {
            Some((MessageVarientView::Ping, j))
        } else if tag == 5 {
            Some((MessageVarientView::Pong, j))
        } else if tag == 6 {
            match sd_reason(b, j) {
                None => None,
                Some((reason, k)) => match sd_str(b, k) {
                    None => None,
                    Some((close_message, l)) => Some(
                        (MessageVarientView::ServerForceDisconnect { reason, close_message }, l),
                    ),
                },
            }
        } else if tag == 7 {
            match sd_str(b, j) {
                None => None,
                Some((content, k)) => Some((MessageVarientView::ClientSendChat { content }, k)),
            }
        } else if tag == 8 {
            match sd_str(b, j) {
                None => None,
                Some((content, k)) => match sd_str(b, k) {
                    None => None,
                    Some((author, l)) => match sd_u128(b, l) {
                        None => None,
                        Some((author_uuid, m)) => Some(
                            (MessageVarientView::ServerSendChat { content, author, author_uuid }, m),
                        ),
                    },
                },
            }
        } else if tag == 9 {
            Some((MessageVarientView::TestMessage, j))
        } else if tag == 10 {
            Some((MessageVarientView::TestMessageResponse, j))
        } else {
            None
        },
    }
}

/// What a payload buffer decodes to: exactly one message variant consuming
/// every byte, or nothing.
pub open spec fn spec_decode_msg(b: Seq<u8>) -> Option<MessageView> {
    match sd_varient(b, 0) {
        None => None,
        Some((v, j)) => if j == b.len() {
            Some(MessageView { data: v })
        } else {
            None
        },
    }
}

// ---------------------------------------------------------------------------
// The encoder. Each piece appends its exact layout bytes to the output.
// ---------------------------------------------------------------------------
fn enc_u64(out: &mut Vec<u8>, n: u64)
    ensures
        final(out)@ == old(out)@ + spec_enc_u64(n),
{
    let mut bytes = vstd::bytes::u64_to_le_bytes(n);
    out.append(&mut bytes);
}

fn enc_u128(out: &mut Vec<u8>, n: u128)
    ensures
        final(out)@ == old(out)@ + spec_enc_u128(n),
{
    let mut bytes = vstd::bytes::u128_to_le_bytes(n);
    out.append(&mut bytes);
}

fn enc_str(out: &mut Vec<u8>, s: &str)
    ensures
        final(out)@ == old(out)@ + spec_enc_str(s@),
        str_wf(s@),
{
    let bytes = s.as_bytes();
    let n = bytes.len() as u64;
    enc_u64(out, n);
    out.extend_from_slice(bytes);
    proof {
        assert(out@ =~= old(out)@ + spec_enc_str(s@));
    }
}

fn enc_opt_str(out: &mut Vec<u8>, s: &Option<String>)
    ensures
        final(out)@ == old(out)@ + spec_enc_opt_str(match s {
            Some(t) => Some(t@),
            None => None,
        }),
        opt_str_wf(match s {
            Some(t) => Some(t@),
            None => None,
        }),
{
    match s {
        None => {
            out.push(0);
            proof {
                assert(out@ =~= old(out)@ + spec_enc_opt_str(None));
            }
        },
        Some(t) => {
            out.push(1);
            enc_str(out, t.as_str());
            proof {
                assert(out@ =~= old(out)@ + spec_enc_opt_str(Some(t@)));
            }
        },
    }
}

fn enc_reason(out: &mut Vec<u8>, r: &ServerDisconnectReason)
    ensures
        final(out)@ == old(out)@ + spec_enc_reason(*r),
{
    match r {
        ServerDisconnectReason::Closed => out.push(0),
        ServerDisconnectReason::ClientRequestedDisconnect => out.push(1),
        ServerDisconnectReason::InvalidConnectionSequence => out.push(2),
    }
    proof {
        assert(out@ =~= old(out)@ + spec_enc_reason(*r));
    }
}

fn enc_status(out: &mut Vec<u8>, c: &ConnectionStatus)
    ensures
        final(out)@ == old(out)@ + spec_enc_status(c@),
        status_wf(c@),
{
    match c {
        ConnectionStatus::Connected => {
            out.push(0);
        },
        ConnectionStatus::Refused { reason } => {
            out.push(1);
            enc_str(out, reason.as_str());
        },
    }
    proof {
        assert(out@ =~= old(out)@ + spec_enc_status(c@));
    }
}

fn enc_update(out: &mut Vec<u8>, u: &UserNameUpdate)
    ensures
        final(out)@ == old(out)@ + spec_enc_update(u@),
        update_wf(u@),
{
    match u {
        UserNameUpdate::NewUser { uuid } => {
            out.push(0);
            enc_u128(out, *uuid);
        },
        UserNameUpdate::UserNamed { uuid, name } => {
            out.push(1);
            enc_u128(out, *uuid);
            enc_str(out, name.as_str());
        },
        UserNameUpdate::UserLeft { uuid, name } => {
            out.push(2);
            enc_u128(out, *uuid);
            enc_opt_str(out, name);
        },
    }
    proof {
        assert(out@ =~= old(out)@ + spec_enc_update(u@));
    }
}

/// Appending one update's bytes extends the flat encoding of a list.
proof fn lemma_enc_update_seq_push(us: Seq<UserNameUpdateView>, u: UserNameUpdateView)
    ensures
        spec_enc_update_seq(us.push(u)) == spec_enc_update_seq(us) + spec_enc_update(u),
    decreases us.len(),
{
    if us.len() == 0 {
        assert(us.push(u).drop_first() =~= Seq::<UserNameUpdateView>::empty());
        assert(us.push(u)[0] == u);
        assert(spec_enc_update_seq(us.push(u)) == spec_enc_update(u) + spec_enc_update_seq(
            Seq::<UserNameUpdateView>::empty(),
        ));
        assert(us =~= Seq::<UserNameUpdateView>::empty());
        assert(spec_enc_update_seq(us.push(u)) =~= spec_enc_update_seq(us) + spec_enc_update(u));
    } else {
        assert(us.push(u).drop_first() =~= us.drop_first().push(u));
        lemma_enc_update_seq_push(us.drop_first(), u);
        assert(us.push(u)[0] == us[0]);
        assert(spec_enc_update_seq(us.push(u)) == spec_enc_update(us[0]) + (spec_enc_update_seq(
            us.drop_first(),
        ) + spec_enc_update(u)));
        assert(spec_enc_update(us[0]) + (spec_enc_update_seq(us.drop_first()) + spec_enc_update(u))
            =~= (spec_enc_update(us[0]) + spec_enc_update_seq(us.drop_first())) + spec_enc_update(
            u,
        ));
    }
}

fn enc_updates(out: &mut Vec<u8>, us: &Vec<UserNameUpdate>)
    ensures
        final(out)@ == old(out)@ + spec_enc_updates(us@.map_values(|u: UserNameUpdate| u@)),
        update_seq_wf(us@.map_values(|u: UserNameUpdate| u@)),
{
    let ghost views = us@.map_values(|u: UserNameUpdate| u@);
    let n = us.len() as u64;
    enc_u64(out, n);
    let ghost base = out@;
    for i in 0..us.len()
        invariant
            us@.map_values(|u: UserNameUpdate| u@) == views,
            i <= us.len(),
            out@ == base + spec_enc_update_seq(views.take(i as int)),
            forall|j: int| 0 <= j < i ==> update_wf(#[trigger] views[j]),
    {
        let ghost before = out@;
        enc_update(out, &us[i]);
        proof {
            assert(views.take(i as int).push(us@[i as int]@) =~= views.take(i + 1 as int));
            lemma_enc_update_seq_push(views.take(i as int), us@[i as int]@);
            assert(out@ =~= base + spec_enc_update_seq(views.take(i + 1 as int)));
        }
    }
    proof {
        assert(views.take(us@.len() as int) =~= views);
        assert(out@ =~= old(out)@ + spec_enc_updates(views));
    }
}

fn enc_varient(out: &mut Vec<u8>, v: &MessageVarient)
    ensures
        final(out)@ == old(out)@ + spec_msg_bytes(MessageView { data: v@ }),
        msg_wf(MessageView { data: v@ }),
{
    match v {
        MessageVarient::DisconnectMessage {} => {
            out.push(0);
        },
        MessageVarient::ConnectMessage { name } => {
            out.push(1);
            enc_str(out, name.as_str());
        },
        MessageVarient::ServerInfo { server_name, conn_status, connected_users, your_uuid } => {
            out.push(2);
            enc_str(out, server_name.as_str());
            enc_status(out, conn_status);
            enc_updates(out, connected_users);
            enc_u128(out, *your_uuid);
        },
        MessageVarient::ServerInfoUpdate { name, user_updates } => {
            out.push(3);
            enc_opt_str(out, name);
            enc_updates(out, user_updates);
        },
        MessageVarient::Ping => {
            out.push(4);
        },
        MessageVarient::Pong => {
            out.push(5);
        },
        MessageVarient::ServerForceDisconnect { reason, close_message } => {
            out.push(6);
            enc_reason(out, reason);
            enc_str(out, close_message.as_str());
        },
        MessageVarient::ClientSendChat { content } => {
            out.push(7);
            enc_str(out, content.as_str());
        },
        MessageVarient::ServerSendChat { content, author, author_uuid } => {
            out.push(8);
            enc_str(out, content.as_str());
            enc_str(out, author.as_str());
            enc_u128(out, *author_uuid);
        },
        MessageVarient::TestMessage {} => {
            out.push(9);
        },
        MessageVarient::TestMessageResponse {} => {
            out.push(10);
        },
    }
    proof {
        assert(out@ =~= old(out)@ + spec_msg_bytes(MessageView { data: v@ }));
    }
}

// ---------------------------------------------------------------------------
// The decoder. Each piece reads one item at a cursor position and returns
// it with the position just past it; its contract says it computes exactly
// what the specification decoder does.
// ---------------------------------------------------------------------------
/// Relies on std's `String::from_utf8`: it succeeds exactly when the input
/// is valid UTF-8, and the returned string then holds those very bytes.
#[verifier::external_body]
pub(crate) fn string_from_utf8(bytes: Vec<u8>) -> (r: Option<String>)
    ensures
        match r {
            Some(s) => vstd::utf8::valid_utf8(bytes@) && vstd::utf8::encode_utf8(s@) == bytes@,
            None => !vstd::utf8::valid_utf8(bytes@),
        },
{
    match String::from_utf8(bytes) {
        Ok(s) => Some(s),
        Err(_) => None,
    }
}

fn rd_u8(b: &[u8], pos: usize) -> (r: Option<(u8, usize)>)
    ensures
        match r {
            Some((v, p)) => sd_u8(b@, pos as int) == Some((v, p as int)),
            None => sd_u8(b@, pos as int) is None,
        },
{
    if pos < b.len() {
        let v = *vstd::slice::slice_index_get(b, pos);
        Some((v, pos + 1))
    } else {
        None
    }
}

fn rd_u64(b: &[u8], pos: usize) -> (r: Option<(u64, usize)>)
    ensures
        match r {
            Some((v, p)) => sd_u64(b@, pos as int) == Some((v, p as int)) && p <= b@.len(),
            None => sd_u64(b@, pos as int) is None,
        },
{
    if b.len() >= 8 && pos <= b.len() - 8 {
        let sl = vstd::slice::slice_subrange(b, pos, pos + 8);
        let v = vstd::bytes::u64_from_le_bytes(sl);
        Some((v, pos + 8))
    } else {
        None
    }
}

fn rd_u128(b: &[u8], pos: usize) -> (r: Option<(u128, usize)>)
    ensures
        match r {
            Some((v, p)) => sd_u128(b@, pos as int) == Some((v, p as int)) && p <= b@.len(),
            None => sd_u128(b@, pos as int) is None,
        },
{
    if b.len() >= 16 && pos <= b.len() - 16 {
        let sl = vstd::slice::slice_subrange(b, pos, pos + 16);
        let v = vstd::bytes::u128_from_le_bytes(sl);
        Some((v, pos + 16))
    } else {
        None
    }
}

fn rd_str(b: &[u8], pos: usize) -> (r: Option<(String, usize)>)
    ensures
        match r {
            Some((s, p)) => sd_str(b@, pos as int) matches Some(x) && x.0 == s@ && x.1 == p as int
                && p <= b@.len(),
            None => sd_str(b@, pos as int) is None,
        },
{
    match rd_u64(b, pos) {
        None => None,
        Some((n, j)) => {
            if n > (b.len() - j) as u64 {
                return None;
            }
            let l = n as usize;
            let sl = vstd::slice::slice_subrange(b, j, j + l);
            let v = vstd::slice::slice_to_vec(sl);
            match string_from_utf8(v) {
                None => None,
                Some(s) => {
                    proof {
                        vstd::utf8::encode_utf8_decode_utf8(s@);
                    }
                    Some((s, j + l))
                },
            }
        },
    }
}

fn rd_opt_str(b: &[u8], pos: usize) -> (r: Option<(Option<String>, usize)>)
    ensures
        match r {
            Some((s, p)) => sd_opt_str(b@, pos as int) matches Some(x) && x.0 == (match s {
                Some(t) => Some(t@),
                None => None,
            }) && x.1 == p as int && p <= b@.len(),
            None => sd_opt_str(b@, pos as int) is None,
        },
{
    match rd_u8(b, pos) {
        None => None,
        Some((t, j)) => {
            if t == 0 {
                Some((None, j))
            } else if t == 1 {
                match rd_str(b, j) {
                    None => None,
                    Some((s, k)) => Some((Some(s), k)),
                }
            } else {
                None
            }
        },
    }
}

fn rd_reason(b: &[u8], pos: usize) -> (r: Option<(ServerDisconnectReason, usize)>)
    ensures
        match r {
            Some((v, p)) => sd_reason(b@, pos as int) == Some((v, p as int)) && p <= b@.len(),
            None => sd_reason(b@, pos as int) is None,
        },
{
    match rd_u8(b, pos) {
        None => None,
        Some((t, j)) => {
            if t == 0 {
                Some((ServerDisconnectReason::Closed, j))
            } else if t == 1 {
                Some((ServerDisconnectReason::ClientRequestedDisconnect, j))
            } else if t == 2 {
                Some((ServerDisconnectReason::InvalidConnectionSequence, j))
            } else {
                None
            }
        },
    }
}

fn rd_status(b: &[u8], pos: usize) -> (r: Option<(ConnectionStatus, usize)>)
    ensures
        match r {
            Some((v, p)) => sd_status(b@, pos as int) matches Some(x) && x.0 == v@ && x.1
                == p as int && p <= b@.len(),
            None => sd_status(b@, pos as int) is None,
        },
{
    match rd_u8(b, pos) {
        None => None,
        Some((t, j)) => {
            if t == 0 {
                Some((ConnectionStatus::Connected, j))
            } else if t == 1 {
                match rd_str(b, j) {
                    None => None,
                    Some((s, k)) => Some((ConnectionStatus::Refused { reason: s }, k)),
                }
            } else {
                None
            }
        },
    }
}

fn rd_update(b: &[u8], pos: usize) -> (r: Option<(UserNameUpdate, usize)>)
    ensures
        match r {
            Some((v, p)) => sd_update(b@, pos as int) matches Some(x) && x.0 == v@ && x.1
                == p as int && p <= b@.len(),
            None => sd_update(b@, pos as int) is None,
        },
{
    match rd_u8(b, pos) {
        None => None,
        Some((t, j)) => match rd_u128(b, j) {
            None => None,
            Some((uuid, k)) => {
                if t == 0 {
                    Some((UserNameUpdate::NewUser { uuid }, k))
                } else if t == 1 {
                    match rd_str(b, k) {
                        None => None,
                        Some((name, l)) => Some((UserNameUpdate::UserNamed { uuid, name }, l)),
                    }
                } else if t == 2 {
                    match rd_opt_str(b, k) {
                        None => None,
                        Some((name, l)) => Some((UserNameUpdate::UserLeft { uuid, name }, l)),
                    }
                } else {
                    None
                }
            },
        },
    }
}

fn rd_updates(b: &[u8], pos: usize) -> (r: Option<(Vec<UserNameUpdate>, usize)>)
    ensures
        match r {
            Some((v, p)) => sd_updates(b@, pos as int) matches Some(x) && x.0 == v@.map_values(
                |u: UserNameUpdate| u@,
            ) && x.1 == p as int && p <= b@.len(),
            None => sd_updates(b@, pos as int) is None,
        },
{
    match rd_u64(b, pos) {
        None => {
            assert(sd_updates(b@, pos as int) is None);
            None
        },
        Some((n, j)) => {
            let mut acc: Vec<UserNameUpdate> = Vec::new();
            let mut cur: usize = j;
            let mut k: u64 = 0;
            loop
                invariant
                    k <= n,
                    cur <= b@.len(),
                    sd_u64(b@, pos as int) == Some((n, j as int)),
                    match sd_update_list(b@, cur as int, n as int - k as int) {
                        None => sd_update_list(b@, j as int, n as int) is None,
                        Some((rest, end)) => sd_update_list(b@, j as int, n as int) matches Some(
                            y,
                        ) && y.0 == acc@.map_values(|u: UserNameUpdate| u@) + rest && y.1 == end,
                    },
                decreases n - k,
            {
                if k == n {
                    proof {
                        assert(sd_update_list(b@, cur as int, 0) == Some(
                            (Seq::<UserNameUpdateView>::empty(), cur as int),
                        ));
                        assert(acc@.map_values(|u: UserNameUpdate| u@)
                            + Seq::<UserNameUpdateView>::empty() =~= acc@.map_values(
                            |u: UserNameUpdate| u@,
                        ));
                    }
                    return Some((acc, cur));
                }
                match rd_update(b, cur) {
                    None => {
                        return None;
                    },
                    Some((u, next)) => {
                        proof {
                            let rest0 = sd_update_list(b@, next as int, n as int - k as int - 1);
                            if rest0 is Some {
                                let (rest, end) = rest0.unwrap();
                                assert(acc@.map_values(|x: UserNameUpdate| x@) + (seq![u@] + rest)
                                    =~= acc@.push(u).map_values(|x: UserNameUpdate| x@) + rest);
                            }
                        }
                        acc.push(u);
                        cur = next;
                        k = k + 1;
                    },
                }
            }
        },
    }
}

fn rd_varient(b: &[u8], pos: usize) -> (r: Option<(MessageVarient, usize)>)
    ensures
        match r {
            Some((v, p)) => sd_varient(b@, pos as int) matches Some(x) && x.0 == v@ && x.1
                == p as int && p <= b@.len(),
            None => sd_varient(b@, pos as int) is None,
        },
{
    match rd_u8(b, pos) {
        None => None,
        Some((tag, j)) => {
            if tag == 0 {
                Some((MessageVarient::DisconnectMessage {}, j))
            } else if tag == 1 {
                match rd_str(b, j) {
                    None => None,
                    Some((name, k)) => Some((MessageVarient::ConnectMessage { name }, k)),
                }
            } else if tag == 2 {
                match rd_str(b, j) {
                    None => None,
                    Some((server_name, k)) => match rd_status(b, k) {
                        None => None,
                        Some((conn_status, l)) => match rd_updates(b, l) {
                            None => None,
                            Some((connected_users, m)) => match rd_u128(b, m) {
                                None => None,
                                Some((your_uuid, o)) => Some(
                                    (
                                        MessageVarient::ServerInfo {
                                            server_name,
                                            conn_status,
                                            connected_users,
                                            your_uuid,
                                        },
                                        o,
                                    ),
                                ),
                            },
                        },
                    },
                }
            } else if tag == 3 {
                match rd_opt_str(b, j) {
                    None => None,
                    Some((name, k)) => match rd_updates(b, k) {
                        None => None,
                        Some((user_updates, l)) => Some(
                            (MessageVarient::ServerInfoUpdate { name, user_updates }, l),
                        ),
                    },
                }
            } else if tag == 4 {
                Some((MessageVarient::Ping, j))
            } else if tag == 5 {
                Some((MessageVarient::Pong, j))
            } else if tag == 6 {
                match rd_reason(b, j) {
                    None => None,
                    Some((reason, k)) => match rd_str(b, k) {
                        None => None,
                        Some((close_message, l)) => Some(
                            (MessageVarient::ServerForceDisconnect { reason, close_message }, l),
                        ),
                    },
                }
            } else if tag == 7 {
                match rd_str(b, j) {
                    None => None,
                    Some((content, k)) => Some((MessageVarient::ClientSendChat { content }, k)),
                }
            } else if tag == 8 {
                match rd_str(b, j) {
                    None => None,
                    Some((content, k)) => match rd_str(b, k) {
                        None => None,
                        Some((author, l)) => match rd_u128(b, l) {
                            None => None,
                            Some((author_uuid, m)) => Some(
                                (
                                    MessageVarient::ServerSendChat {
                                        content,
                                        author,
                                        author_uuid,
                                    },
                                    m,
                                ),
                            ),
                        },
                    },
                }
            } else if tag == 9 {
                Some((MessageVarient::TestMessage {}, j))
            } else if tag == 10 {
                Some((MessageVarient::TestMessageResponse {}, j))
            } else {
                None
            }
        },
    }
}

/// Decode a payload buffer into the one message it holds. Strict: accepts
/// exactly the buffers that `spec_decode_msg` accepts — one well-formed
/// variant with no bytes left over — and rejects everything else.
pub fn deserialize(bytes: &[u8]) -> (r: Result<Message, DecodeError>)
    ensures
        match r {
            Ok(m) => spec_decode_msg(bytes@) == Some(m@),
            Err(e) => spec_decode_msg(bytes@) is None && e == DecodeError::CorruptPayload,
        },
{
    match rd_varient(bytes, 0) {
        None => Err(DecodeError::CorruptPayload),
        Some((v, p)) => {
            if p == bytes.len() {
                Ok(Message { data: v })
            } else {
                Err(DecodeError::CorruptPayload)
            }
        },
    }
}

/// A message rendered to payload bytes, with the header that announces
/// exactly their length.
pub struct SerializedMessage {
    message_bytes: Vec<u8>,
    header: Header,
}

impl SerializedMessage {
    /// The payload bytes this message rendered to.
    pub closed spec fn payload(&self) -> Seq<u8> {
        self.message_bytes@
    }

    /// The header announces exactly the payload length.
    pub closed spec fn wf(&self) -> bool {
        self.header@ == self.message_bytes@.len()
    }

    /// The whole frame: header bytes, then the payload.
    pub fn into_bytes(self) -> (r: Vec<u8>)
        requires
            self.wf(),
        ensures
            r@ == spec_header_bytes(self.payload().len() as u64) + self.payload(),
    {
        let mut result = self.header.to_bytes();
        let mut payload = self.message_bytes;
        result.append(&mut payload);
        result
    }

    /// The payload length in bytes, excluding the header.
    pub fn size(&self) -> (r: usize)
        ensures
            r == self.payload().len(),
    {
        self.message_bytes.len()
    }
}

/// Serialize a `Message` for sending over a connection. Every constructible
/// message serializes; its payload is exactly `spec_msg_bytes` of its view.
pub fn serialize(message: &Message) -> (r: SerializedMessage)
    ensures
        r.wf(),
        r.payload() == spec_msg_bytes(message@),
        msg_wf(message@),
{
    let mut out: Vec<u8> = Vec::new();
    enc_varient(&mut out, &message.data);
    let header = Header::new(out.as_slice());
    SerializedMessage { message_bytes: out, header }
}

// ---------------------------------------------------------------------------
// The round trip: the decoder yields back exactly what the encoder wrote.
// ---------------------------------------------------------------------------
/// Splitting a matched region: when the bytes at `i` are `pre + post`,
/// the bytes at `i` are `pre` and those after them are `post`.
proof fn lemma_chunk(b: Seq<u8>, i: int, pre: Seq<u8>, post: Seq<u8>)
    requires
        0 <= i,
        i + pre.len() + post.len() <= b.len(),
        b.subrange(i, i + pre.len() + post.len()) == pre + post,
    ensures
        b.subrange(i, i + pre.len()) == pre,
        b.subrange(i + pre.len(), i + pre.len() + post.len()) == post,
{
    let whole = b.subrange(i, i + pre.len() + post.len());
    assert forall|k: int| 0 <= k < pre.len() implies b.subrange(i, i + pre.len())[k] == pre[k] by {
        assert(whole[k] == b[i + k]);
        assert((pre + post)[k] == pre[k]);
    }
    assert(b.subrange(i, i + pre.len()) =~= pre);
    assert forall|k: int|
        0 <= k < post.len() implies b.subrange(i + pre.len(), i + pre.len() + post.len())[k]
        == post[k] by {
        assert(whole[pre.len() + k] == b[i + pre.len() + k]);
        assert((pre + post)[pre.len() + k] == post[k]);
    }
    assert(b.subrange(i + pre.len(), i + pre.len() + post.len()) =~= post);
}

proof fn lemma_rt_u8(b: Seq<u8>, i: int, v: u8)
    requires
        0 <= i,
        i + 1 <= b.len(),
        b.subrange(i, i + 1) == seq![v],
    ensures
        sd_u8(b, i) == Some((v, i + 1)),
{
    assert(b.subrange(i, i + 1)[0] == b[i]);
}

proof fn lemma_rt_u64(b: Seq<u8>, i: int, n: u64)
    requires
        0 <= i,
        i + 8 <= b.len(),
        b.subrange(i, i + 8) == spec_enc_u64(n),
    ensures
        sd_u64(b, i) == Some((n, i + 8)),
{
    vstd::bytes::lemma_auto_spec_u64_to_from_le_bytes();
}

proof fn lemma_rt_u128(b: Seq<u8>, i: int, n: u128)
    requires
        0 <= i,
        i + 16 <= b.len(),
        b.subrange(i, i + 16) == spec_enc_u128(n),
    ensures
        sd_u128(b, i) == Some((n, i + 16)),
{
    vstd::bytes::lemma_auto_spec_u128_to_from_le_bytes();
    assert(vstd::bytes::spec_u128_to_le_bytes(n).len() == 16);
}

/// The 16-byte length of an encoded 128-bit identity, stated so callers
/// have it at hand.
proof fn lemma_enc_u128_len(n: u128)
    ensures
        spec_enc_u128(n).len() == 16,
{
    vstd::bytes::lemma_auto_spec_u128_to_from_le_bytes();
    assert(vstd::bytes::spec_u128_to_le_bytes(n).len() == 16);
}

proof fn lemma_rt_str(b: Seq<u8>, i: int, s: Seq<char>)
    requires
        str_wf(s),
        0 <= i,
        i + spec_enc_str(s).len() <= b.len(),
        b.subrange(i, i + spec_enc_str(s).len()) == spec_enc_str(s),
    ensures
        sd_str(b, i) == Some((s, i + spec_enc_str(s).len())),
{
    vstd::bytes::lemma_auto_spec_u64_to_from_le_bytes();
    let u = vstd::utf8::encode_utf8(s);
    let l = u.len() as int;
    let lenbytes = spec_enc_u64(u.len() as u64);
    lemma_chunk(b, i, lenbytes, u);
    lemma_rt_u64(b, i, u.len() as u64);
    vstd::utf8::encode_utf8_valid_utf8(s);
    vstd::utf8::encode_utf8_decode_utf8(s);
    assert(b.subrange(i + 8, i + 8 + l) == u);
}

proof fn lemma_rt_opt_str(b: Seq<u8>, i: int, s: Option<Seq<char>>)
    requires
        opt_str_wf(s),
        0 <= i,
        i + spec_enc_opt_str(s).len() <= b.len(),
        b.subrange(i, i + spec_enc_opt_str(s).len()) == spec_enc_opt_str(s),
    ensures
        sd_opt_str(b, i) == Some((s, i + spec_enc_opt_str(s).len())),
{
    match s {
        None => {
            lemma_rt_u8(b, i, 0);
        },
        Some(t) => {
            assert(spec_enc_opt_str(s) =~= seq![1u8] + spec_enc_str(t));
            lemma_chunk(b, i, seq![1u8], spec_enc_str(t));
            lemma_rt_u8(b, i, 1);
            lemma_rt_str(b, i + 1, t);
        },
    }
}

proof fn lemma_rt_reason(b: Seq<u8>, i: int, r: ServerDisconnectReason)
    requires
        0 <= i,
        i + spec_enc_reason(r).len() <= b.len(),
        b.subrange(i, i + spec_enc_reason(r).len()) == spec_enc_reason(r),
    ensures
        sd_reason(b, i) == Some((r, i + spec_enc_reason(r).len())),
{
    match r {
        ServerDisconnectReason::Closed => lemma_rt_u8(b, i, 0),
        ServerDisconnectReason::ClientRequestedDisconnect => lemma_rt_u8(b, i, 1),
        ServerDisconnectReason::InvalidConnectionSequence => lemma_rt_u8(b, i, 2),
    }
}

proof fn lemma_rt_status(b: Seq<u8>, i: int, c: ConnectionStatusView)
    requires
        status_wf(c),
        0 <= i,
        i + spec_enc_status(c).len() <= b.len(),
        b.subrange(i, i + spec_enc_status(c).len()) == spec_enc_status(c),
    ensures
        sd_status(b, i) == Some((c, i + spec_enc_status(c).len())),
{
    match c {
        ConnectionStatusView::Connected => {
            lemma_rt_u8(b, i, 0);
        },
        ConnectionStatusView::Refused { reason } => {
            assert(spec_enc_status(c) =~= seq![1u8] + spec_enc_str(reason));
            lemma_chunk(b, i, seq![1u8], spec_enc_str(reason));
            lemma_rt_u8(b, i, 1);
            lemma_rt_str(b, i + 1, reason);
        },
    }
}

proof fn lemma_rt_update(b: Seq<u8>, i: int, u: UserNameUpdateView)
    requires
        update_wf(u),
        0 <= i,
        i + spec_enc_update(u).len() <= b.len(),
        b.subrange(i, i + spec_enc_update(u).len()) == spec_enc_update(u),
    ensures
        sd_update(b, i) == Some((u, i + spec_enc_update(u).len())),
{
    match u {
        UserNameUpdateView::NewUser { uuid } => {
            lemma_enc_u128_len(uuid);
            lemma_chunk(b, i, seq![0u8], spec_enc_u128(uuid));
            lemma_rt_u8(b, i, 0);
            lemma_rt_u128(b, i + 1, uuid);
        },
        UserNameUpdateView::UserNamed { uuid, name } => {
            lemma_enc_u128_len(uuid);
            assert(spec_enc_update(u) =~= seq![1u8] + (spec_enc_u128(uuid) + spec_enc_str(name)));
            lemma_chunk(b, i, seq![1u8], spec_enc_u128(uuid) + spec_enc_str(name));
            lemma_chunk(b, i + 1, spec_enc_u128(uuid), spec_enc_str(name));
            lemma_rt_u8(b, i, 1);
            lemma_rt_u128(b, i + 1, uuid);
            lemma_rt_str(b, i + 17, name);
        },
        UserNameUpdateView::UserLeft { uuid, name } => {
            lemma_enc_u128_len(uuid);
            assert(spec_enc_update(u) =~= seq![2u8] + (spec_enc_u128(uuid) + spec_enc_opt_str(
                name,
            )));
            lemma_chunk(b, i, seq![2u8], spec_enc_u128(uuid) + spec_enc_opt_str(name));
            lemma_chunk(b, i + 1, spec_enc_u128(uuid), spec_enc_opt_str(name));
            lemma_rt_u8(b, i, 2);
            lemma_rt_u128(b, i + 1, uuid);
            lemma_rt_opt_str(b, i + 17, name);
        },
    }
}

proof fn lemma_rt_update_seq(b: Seq<u8>, i: int, us: Seq<UserNameUpdateView>)
    requires
        forall|k: int| 0 <= k < us.len() ==> update_wf(#[trigger] us[k]),
        0 <= i,
        i + spec_enc_update_seq(us).len() <= b.len(),
        b.subrange(i, i + spec_enc_update_seq(us).len()) == spec_enc_update_seq(us),
    ensures
        sd_update_list(b, i, us.len() as int) == Some((us, i + spec_enc_update_seq(us).len())),
    decreases us.len(),
{
    if us.len() == 0 {
        assert(us =~= Seq::<UserNameUpdateView>::empty());
    } else {
        let head = spec_enc_update(us[0]);
        let tail = spec_enc_update_seq(us.drop_first());
        lemma_chunk(b, i, head, tail);
        lemma_rt_update(b, i, us[0]);
        lemma_rt_update_seq(b, i + head.len(), us.drop_first());
        assert(seq![us[0]] + us.drop_first() =~= us);
    }
}

proof fn lemma_rt_updates(b: Seq<u8>, i: int, us: Seq<UserNameUpdateView>)
    requires
        update_seq_wf(us),
        0 <= i,
        i + spec_enc_updates(us).len() <= b.len(),
        b.subrange(i, i + spec_enc_updates(us).len()) == spec_enc_updates(us),
    ensures
        sd_updates(b, i) == Some((us, i + spec_enc_updates(us).len())),
{
    vstd::bytes::lemma_auto_spec_u64_to_from_le_bytes();
    lemma_chunk(b, i, spec_enc_u64(us.len() as u64), spec_enc_update_seq(us));
    lemma_rt_u64(b, i, us.len() as u64);
    lemma_rt_update_seq(b, i + 8, us);
}

#[verifier::rlimit(60)]
proof fn lemma_rt_varient(b: Seq<u8>, i: int, d: MessageVarientView)
    requires
        msg_wf(MessageView { data: d }),
        0 <= i,
        i + spec_msg_bytes(MessageView { data: d }).len() <= b.len(),
        b.subrange(i, i + spec_msg_bytes(MessageView { data: d }).len()) == spec_msg_bytes(
            MessageView { data: d },
        ),
    ensures
        sd_varient(b, i) == Some((d, i + spec_msg_bytes(MessageView { data: d }).len())),
{
    let enc = spec_msg_bytes(MessageView { data: d });
    match d {
        MessageVarientView::DisconnectMessage => {
            lemma_rt_u8(b, i, 0);
        },
        MessageVarientView::ConnectMessage { name } => {
            assert(enc =~= seq![1u8] + spec_enc_str(name));
            lemma_chunk(b, i, seq![1u8], spec_enc_str(name));
            lemma_rt_u8(b, i, 1);
            lemma_rt_str(b, i + 1, name);
        },
        MessageVarientView::ServerInfo { server_name, conn_status, connected_users, your_uuid } => {
            let e1 = spec_enc_str(server_name);
            let e2 = spec_enc_status(conn_status);
            let e3 = spec_enc_updates(connected_users);
            let e4 = spec_enc_u128(your_uuid);
            lemma_enc_u128_len(your_uuid);
            assert(enc =~= seq![2u8] + (e1 + (e2 + (e3 + e4))));
            lemma_chunk(b, i, seq![2u8], e1 + (e2 + (e3 + e4)));
            lemma_chunk(b, i + 1, e1, e2 + (e3 + e4));
            lemma_chunk(b, i + 1 + e1.len(), e2, e3 + e4);
            lemma_chunk(b, i + 1 + e1.len() + e2.len(), e3, e4);
            lemma_rt_u8(b, i, 2);
            lemma_rt_str(b, i + 1, server_name);
            lemma_rt_status(b, i + 1 + e1.len(), conn_status);
            lemma_rt_updates(b, i + 1 + e1.len() + e2.len(), connected_users);
            lemma_rt_u128(b, i + 1 + e1.len() + e2.len() + e3.len(), your_uuid);
        },
        MessageVarientView::ServerInfoUpdate { name, user_updates } => {
            let e1 = spec_enc_opt_str(name);
            let e2 = spec_enc_updates(user_updates);
            assert(enc =~= seq![3u8] + (e1 + e2));
            lemma_chunk(b, i, seq![3u8], e1 + e2);
            lemma_chunk(b, i + 1, e1, e2);
            lemma_rt_u8(b, i, 3);
            lemma_rt_opt_str(b, i + 1, name);
            lemma_rt_updates(b, i + 1 + e1.len(), user_updates);
        },
        MessageVarientView::Ping => {
            lemma_rt_u8(b, i, 4);
        },
        MessageVarientView::Pong => {
            lemma_rt_u8(b, i, 5);
        },
        MessageVarientView::ServerForceDisconnect { reason, close_message } => {
            let e1 = spec_enc_reason(reason);
            let e2 = spec_enc_str(close_message);
            assert(enc =~= seq![6u8] + (e1 + e2));
            lemma_chunk(b, i, seq![6u8], e1 + e2);
            lemma_chunk(b, i + 1, e1, e2);
            lemma_rt_u8(b, i, 6);
            lemma_rt_reason(b, i + 1, reason);
            lemma_rt_str(b, i + 1 + e1.len(), close_message);
        },
        MessageVarientView::ClientSendChat { content } => {
            assert(enc =~= seq![7u8] + spec_enc_str(content));
            lemma_chunk(b, i, seq![7u8], spec_enc_str(content));
            lemma_rt_u8(b, i, 7);
            lemma_rt_str(b, i + 1, content);
        },
        MessageVarientView::ServerSendChat { content, author, author_uuid } => {
            let e1 = spec_enc_str(content);
            let e2 = spec_enc_str(author);
            let e3 = spec_enc_u128(author_uuid);
            lemma_enc_u128_len(author_uuid);
            assert(enc =~= seq![8u8] + (e1 + (e2 + e3)));
            lemma_chunk(b, i, seq![8u8], e1 + (e2 + e3));
            lemma_chunk(b, i + 1, e1, e2 + e3);
            lemma_chunk(b, i + 1 + e1.len(), e2, e3);
            lemma_rt_u8(b, i, 8);
            lemma_rt_str(b, i + 1, content);
            lemma_rt_str(b, i + 1 + e1.len(), author);
            lemma_rt_u128(b, i + 1 + e1.len() + e2.len(), author_uuid);
        },
        MessageVarientView::TestMessage => {
            lemma_rt_u8(b, i, 9);
        },
        MessageVarientView::TestMessageResponse => {
            lemma_rt_u8(b, i, 10);
        },
    }
}

/// Round trip: every well-formed message value decodes back from its own
/// encoding, so `deserialize` inverts `serialize` on every constructible
/// `Message`.
pub proof fn lemma_msg_round_trip(m: MessageView)
    requires
        msg_wf(m),
    ensures
        spec_decode_msg(spec_msg_bytes(m)) == Some(m),
{
    let b = spec_msg_bytes(m);
    assert(b.subrange(0, b.len() as int) =~= b);
    lemma_rt_varient(b, 0, m.data);
}

} // verus!
