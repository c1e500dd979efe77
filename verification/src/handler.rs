//! The pluggable-handler interface. A handler is the unit of per-message
//! business logic: it may claim an incoming message, accumulate operations
//! for the connection to perform on its behalf, and emit or react to
//! cross-connection global events. Handlers never touch the socket; they
//! only hand operations over.
use vstd::prelude::*;

use crate::msg::Message;
use crate::msg::MessageView;

verus! {

/// A cross-connection event, fanned out to every connection's handler set
/// over the shared broadcast channel.
#[derive(Debug, PartialEq, Eq)]
pub enum GlobalHandlerOperation {
    /// Relay a message to every connected client.
    MsgAll { msg: Message },
    /// A client connected and was assigned this identity.
    ClientConnect { uuid: u128 },
    /// A client declared its display name.
    ClientNamed { uuid: u128, name: String },
    /// A client's connection ended.
    ClientDisconnect { uuid: u128, name: Option<String> },
}

/// Mathematical view of a `GlobalHandlerOperation`.
pub enum GlobalHandlerOperationView {
    MsgAll { msg: MessageView },
    ClientConnect { uuid: u128 },
    ClientNamed { uuid: u128, name: Seq<char> },
    ClientDisconnect { uuid: u128, name: Option<Seq<char>> },
}

impl View for GlobalHandlerOperation {
    type V = GlobalHandlerOperationView;

    open spec fn view(&self) -> GlobalHandlerOperationView {
        match self {
            GlobalHandlerOperation::MsgAll { msg } => GlobalHandlerOperationView::MsgAll {
                msg: msg@,
            },
            GlobalHandlerOperation::ClientConnect { uuid } => {
                GlobalHandlerOperationView::ClientConnect { uuid: *uuid }
            },
            GlobalHandlerOperation::ClientNamed { uuid, name } => {
                GlobalHandlerOperationView::ClientNamed { uuid: *uuid, name: name@ }
            },
            GlobalHandlerOperation::ClientDisconnect { uuid, name } => {
                GlobalHandlerOperationView::ClientDisconnect {
                    uuid: *uuid,
                    name: match name {
                        Some(n) => Some(n@),
                        None => None,
                    },
                }
            },
        }
    }
}

impl Clone for GlobalHandlerOperation {
    /// A copy whose view is identical to the original's.
    fn clone(&self) -> (r: Self)
        ensures
            r@ == self@,
    {
        match self {
            GlobalHandlerOperation::MsgAll { msg } => GlobalHandlerOperation::MsgAll {
                msg: msg.clone(),
            },
            GlobalHandlerOperation::ClientConnect { uuid } => {
                GlobalHandlerOperation::ClientConnect { uuid: *uuid }
            },
            GlobalHandlerOperation::ClientNamed { uuid, name } => {
                GlobalHandlerOperation::ClientNamed { uuid: *uuid, name: name.clone() }
            },
            GlobalHandlerOperation::ClientDisconnect { uuid, name } => {
                GlobalHandlerOperation::ClientDisconnect {
                    uuid: *uuid,
                    name: match name {
                        None => None,
                        Some(n) => Some(n.clone()),
                    },
                }
            },
        }
    }
}

/// The capability set of a message handler. Implementations say through
/// the specification methods which messages they claim and what they have
/// accumulated, so the dispatch engine's contract can be exact about them.
pub trait MessageHandler: Sized {
    /// The kind of operation this handler asks its connection to perform.
    type Operation;

    /// The mathematical view of one such operation.
    type OperationView;

    /// The view of one operation.
    spec fn op_view(op: Self::Operation) -> Self::OperationView;

    /// Which messages this handler claims when offered them.
    spec fn claims(&self, msg: &Message) -> bool;

    /// The operations a claimed message makes this handler accumulate,
    /// as views, in order.
    spec fn ops_for(&self, msg: &Message) -> Seq<Self::OperationView>;

    /// The global events a claimed message makes this handler accumulate,
    /// as views, in order.
    spec fn global_ops_for(&self, msg: &Message) -> Seq<GlobalHandlerOperationView>;

    /// The operations one global event makes this handler accumulate, as
    /// views, in order.
    spec fn ops_for_event(&self, op: &GlobalHandlerOperation) -> Seq<Self::OperationView>;

    /// The operations accumulated and not yet handed over.
    spec fn ops(&self) -> Seq<Self::Operation>;

    /// The global events accumulated and not yet handed over.
    spec fn global_ops(&self) -> Seq<GlobalHandlerOperation>;

    /// The operations this handler wants performed once, right after the
    /// handshake completes.
    spec fn default_ops(&self) -> Seq<Self::Operation>;

    /// Offers a message. Returns whether the handler claimed it; an
    /// unclaimed message leaves the handler exactly as it was, so trying
    /// the next handler is harmless. A claimed message adds exactly the
    /// handler's operations and global events for it, and changes nothing
    /// else the handler answers for.
    fn handle(&mut self, msg: &Message) -> (r: bool)
        ensures
            r == old(self).claims(msg),
            !r ==> *final(self) == *old(self),
            r ==> final(self).ops().map_values(|o: Self::Operation| Self::op_view(o)) == old(
                self,
            ).ops().map_values(|o: Self::Operation| Self::op_view(o)) + old(self).ops_for(msg),
            r ==> final(self).global_ops().map_values(|g: GlobalHandlerOperation| g@) == old(
                self,
            ).global_ops().map_values(|g: GlobalHandlerOperation| g@) + old(self).global_ops_for(
                msg,
            ),
            r ==> (forall|m: Message| final(self).claims(&m) == old(self).claims(&m)),
            r ==> final(self).default_ops() == old(self).default_ops(),
            r ==> (forall|e: GlobalHandlerOperation|
                final(self).ops_for_event(&e) == old(self).ops_for_event(&e)),
            r ==> (forall|m: Message| final(self).ops_for(&m) == old(self).ops_for(&m)),
            r ==> (forall|m: Message| final(self).global_ops_for(&m) == old(self).global_ops_for(&m));

    /// Reacts to one global event from another connection: the handler
    /// accumulates exactly its operations for that event and changes
    /// nothing else it answers for.
    fn handle_global_op(&mut self, op: &GlobalHandlerOperation)
        ensures
            final(self).ops().map_values(|o: Self::Operation| Self::op_view(o)) == old(
                self,
            ).ops().map_values(|o: Self::Operation| Self::op_view(o)) + old(self).ops_for_event(
                op,
            ),
            final(self).global_ops() == old(self).global_ops(),
            forall|m: Message| final(self).claims(&m) == old(self).claims(&m),
            final(self).default_ops() == old(self).default_ops(),
            forall|e: GlobalHandlerOperation|
                final(self).ops_for_event(&e) == old(self).ops_for_event(&e);

    /// Hands over every accumulated operation, oldest first, leaving none
    /// behind; `None` exactly when there was nothing. Touches nothing else.
    fn get_operations(&mut self) -> (r: Option<Vec<Self::Operation>>)
        ensures
            final(self).ops() == Seq::<Self::Operation>::empty(),
            match r {
                Some(v) => v@ == old(self).ops() && v@.len() > 0,
                None => old(self).ops() == Seq::<Self::Operation>::empty(),
            },
            forall|m: Message| final(self).claims(&m) == old(self).claims(&m),
            final(self).global_ops() == old(self).global_ops(),
            final(self).default_ops() == old(self).default_ops();

    /// The operations to run once, right after the handshake. Reading them
    /// changes nothing.
    fn get_default_operations(&mut self) -> (r: Vec<Self::Operation>)
        ensures
            r@ == old(self).default_ops(),
            *final(self) == *old(self);

    /// Hands over every accumulated global event, oldest first, leaving
    /// none behind; `None` exactly when there was nothing. Touches nothing
    /// else.
    fn get_global_operations(&mut self) -> (r: Option<Vec<GlobalHandlerOperation>>)
        ensures
            final(self).global_ops() == Seq::<GlobalHandlerOperation>::empty(),
            match r {
                Some(v) => v@ == old(self).global_ops() && v@.len() > 0,
                None => old(self).global_ops() == Seq::<GlobalHandlerOperation>::empty(),
            },
            forall|m: Message| final(self).claims(&m) == old(self).claims(&m),
            final(self).ops() == old(self).ops(),
            final(self).default_ops() == old(self).default_ops();
}

/// The position of the first handler in the list that claims the
/// message; the list length when none does.
pub open spec fn first_claimant<H: MessageHandler>(hs: Seq<H>, m: Message) -> int
    decreases hs.len(),
{
    if hs.len() == 0 {
        0
    } else if hs[0].claims(&m) {
        0
    } else {
        1 + first_claimant(hs.drop_first(), m)
    }
}

/// A handler that claims the message, with none claiming before it, is
/// the first claimant.
pub proof fn lemma_first_claimant<H: MessageHandler>(hs: Seq<H>, m: Message, k: int)
    requires
        0 <= k < hs.len(),
        hs[k].claims(&m),
        forall|j: int| 0 <= j < k ==> !(#[trigger] hs[j].claims(&m)),
    ensures
        first_claimant(hs, m) == k,
    decreases k,
{
    if k == 0 {
    } else {
        assert(!hs[0].claims(&m));
        assert(hs.drop_first()[k - 1] == hs[k]);
        assert forall|j: int| 0 <= j < k - 1 implies !(#[trigger] hs.drop_first()[j].claims(&m)) by {
            assert(hs.drop_first()[j] == hs[j + 1]);
        }
        lemma_first_claimant(hs.drop_first(), m, k - 1);
    }
}

/// The operations one handler accumulates from a batch of global events
/// fed to it in order, as views.
pub open spec fn events_effect<H: MessageHandler>(h: &H, es: Seq<GlobalHandlerOperation>) -> Seq<
    H::OperationView,
>
    decreases es.len(),
{
    if es.len() == 0 {
        Seq::empty()
    } else {
        h.ops_for_event(&es[0]) + events_effect(h, es.drop_first())
    }
}

/// Extending the event batch by one extends the accumulated operations by
/// that event's.
pub proof fn lemma_events_effect_push<H: MessageHandler>(
    h: &H,
    es: Seq<GlobalHandlerOperation>,
    e: GlobalHandlerOperation,
)
    ensures
        events_effect(h, es.push(e)) == events_effect(h, es) + h.ops_for_event(&e),
    decreases es.len(),
{
    if es.len() == 0 {
        assert(es.push(e).drop_first() =~= Seq::<GlobalHandlerOperation>::empty());
        assert(es =~= Seq::<GlobalHandlerOperation>::empty());
        assert(events_effect(h, es.push(e)) == h.ops_for_event(&e) + events_effect(
            h,
            Seq::<GlobalHandlerOperation>::empty(),
        ));
        assert(events_effect(h, es.push(e)) =~= events_effect(h, es) + h.ops_for_event(&e));
    } else {
        assert(es.push(e).drop_first() =~= es.drop_first().push(e));
        lemma_events_effect_push(h, es.drop_first(), e);
        assert(es.push(e)[0] == es[0]);
        assert(events_effect(h, es.push(e)) == h.ops_for_event(&es[0]) + (events_effect(
            h,
            es.drop_first(),
        ) + h.ops_for_event(&e)));
        assert(h.ops_for_event(&es[0]) + (events_effect(h, es.drop_first()) + h.ops_for_event(&e))
            =~= (h.ops_for_event(&es[0]) + events_effect(h, es.drop_first())) + h.ops_for_event(
            &e,
        ));
    }
}

/// Everything the handlers of a list want performed once, right after the
/// handshake: each handler's startup operations, in registration order.
pub open spec fn all_default_ops<H: MessageHandler>(hs: Seq<H>) -> Seq<H::Operation>
    decreases hs.len(),
{
    if hs.len() == 0 {
        Seq::empty()
    } else {
        hs[0].default_ops() + all_default_ops(hs.drop_first())
    }
}

/// Everything the handlers of a list have accumulated for their
/// connection to perform, in registration order, oldest first within
/// each handler.
pub open spec fn all_ops<H: MessageHandler>(hs: Seq<H>) -> Seq<H::Operation>
    decreases hs.len(),
{
    if hs.len() == 0 {
        Seq::empty()
    } else {
        hs[0].ops() + all_ops(hs.drop_first())
    }
}

/// Every global event the handlers of a list have accumulated to emit,
/// in registration order.
pub open spec fn all_global_ops<H: MessageHandler>(hs: Seq<H>) -> Seq<GlobalHandlerOperation>
    decreases hs.len(),
{
    if hs.len() == 0 {
        Seq::empty()
    } else {
        hs[0].global_ops() + all_global_ops(hs.drop_first())
    }
}

/// Extending the handler list by one extends its startup operations by
/// that handler's.
pub proof fn lemma_all_default_ops_push<H: MessageHandler>(hs: Seq<H>, h: H)
    ensures
        all_default_ops(hs.push(h)) == all_default_ops(hs) + h.default_ops(),
    decreases hs.len(),
{
    if hs.len() == 0 {
        assert(hs.push(h).drop_first() =~= Seq::<H>::empty());
        assert(hs =~= Seq::<H>::empty());
        assert(all_default_ops(hs.push(h)) == h.default_ops() + all_default_ops(
            Seq::<H>::empty(),
        ));
        assert(all_default_ops(hs.push(h)) =~= all_default_ops(hs) + h.default_ops());
    } else {
        assert(hs.push(h).drop_first() =~= hs.drop_first().push(h));
        lemma_all_default_ops_push(hs.drop_first(), h);
        assert(hs.push(h)[0] == hs[0]);
        assert(all_default_ops(hs.push(h)) == hs[0].default_ops() + (all_default_ops(
            hs.drop_first(),
        ) + h.default_ops()));
        assert(hs[0].default_ops() + (all_default_ops(hs.drop_first()) + h.default_ops()) =~= (
        hs[0].default_ops() + all_default_ops(hs.drop_first())) + h.default_ops());
    }
}

/// Extending the handler list by one extends its accumulated operations
/// by that handler's.
pub proof fn lemma_all_ops_push<H: MessageHandler>(hs: Seq<H>, h: H)
    ensures
        all_ops(hs.push(h)) == all_ops(hs) + h.ops(),
    decreases hs.len(),
{
    if hs.len() == 0 {
        assert(hs.push(h).drop_first() =~= Seq::<H>::empty());
        assert(hs =~= Seq::<H>::empty());
        assert(all_ops(hs.push(h)) == h.ops() + all_ops(Seq::<H>::empty()));
        assert(all_ops(hs.push(h)) =~= all_ops(hs) + h.ops());
    } else {
        assert(hs.push(h).drop_first() =~= hs.drop_first().push(h));
        lemma_all_ops_push(hs.drop_first(), h);
        assert(hs.push(h)[0] == hs[0]);
        assert(all_ops(hs.push(h)) == hs[0].ops() + (all_ops(hs.drop_first()) + h.ops()));
        assert(hs[0].ops() + (all_ops(hs.drop_first()) + h.ops()) =~= (hs[0].ops() + all_ops(
            hs.drop_first(),
        )) + h.ops());
    }
}

/// Extending the handler list by one extends its accumulated global
/// events by that handler's.
pub proof fn lemma_all_global_ops_push<H: MessageHandler>(hs: Seq<H>, h: H)
    ensures
        all_global_ops(hs.push(h)) == all_global_ops(hs) + h.global_ops(),
    decreases hs.len(),
{
    if hs.len() == 0 {
        assert(hs.push(h).drop_first() =~= Seq::<H>::empty());
        assert(hs =~= Seq::<H>::empty());
        assert(all_global_ops(hs.push(h)) == h.global_ops() + all_global_ops(Seq::<H>::empty()));
        assert(all_global_ops(hs.push(h)) =~= all_global_ops(hs) + h.global_ops());
    } else {
        assert(hs.push(h).drop_first() =~= hs.drop_first().push(h));
        lemma_all_global_ops_push(hs.drop_first(), h);
        assert(hs.push(h)[0] == hs[0]);
        assert(all_global_ops(hs.push(h)) == hs[0].global_ops() + (all_global_ops(hs.drop_first())
            + h.global_ops()));
        assert(hs[0].global_ops() + (all_global_ops(hs.drop_first()) + h.global_ops()) =~= (
        hs[0].global_ops() + all_global_ops(hs.drop_first())) + h.global_ops());
    }
}

/// A server-side handler additionally receives the connected client's
/// identity once the handshake names it.
pub trait ServerClientInfo: MessageHandler {
    /// What the connection tells the handler about its client.
    type ClientData;

    /// Whether this handler records the client's identity at all; a
    /// handler whose work does not mention the client needs none.
    spec fn keeps_client_data(&self) -> bool;

    /// What the handler has recorded of its client.
    spec fn client_data(&self) -> Option<Self::ClientData>;

    /// Accepts the client's identity, once known: a handler that keeps it
    /// records exactly this value, one that needs none is untouched, and
    /// nothing else the handler answers for changes.
    fn accept_client_data(&mut self, data: Self::ClientData)
        ensures
            old(self).keeps_client_data() ==> final(self).client_data() == Some(data),
            !old(self).keeps_client_data() ==> *final(self) == *old(self),
            final(self).keeps_client_data() == old(self).keeps_client_data(),
            final(self).ops() == old(self).ops(),
            final(self).global_ops() == old(self).global_ops(),
            forall|m: Message| final(self).claims(&m) == old(self).claims(&m),
            final(self).default_ops() == old(self).default_ops(),
            forall|e: GlobalHandlerOperation|
                final(self).ops_for_event(&e) == old(self).ops_for_event(&e);
}

/// What a server-side message handler must be able to do.
pub trait ServerMessageHandler: MessageHandler + ServerClientInfo {

}

} // verus!
