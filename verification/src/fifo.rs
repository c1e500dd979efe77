//! The FIFO queues that every connection owns: incoming and outgoing
//! messages, pending handler operations, pending global events. They are
//! `queues::Queue` values; each instantiation gets a name for its contents
//! and thin wrappers whose contracts state what the crate's code does:
//! `add` appends at the back and always succeeds, `remove` takes the
//! oldest element and fails only on an empty queue, `peek` shows the
//! oldest element without taking it.
use vstd::prelude::*;

use crate::handler::GlobalHandlerOperation;
use crate::msg::Message;

verus! {

/// The queues crate's FIFO queue, declared so its values can live in
/// the connection types; its contents are visible only through the
/// names and wrappers below.
#[verifier::external_type_specification]
#[verifier::external_body]
#[verifier::reject_recursive_types(T)]
pub struct ExQueue<T: Clone>(queues::Queue<T>);

/// The messages held by a message queue, oldest first.
pub uninterp spec fn msg_queue(q: &queues::Queue<Message>) -> Seq<Message>;

/// Relies on queues::Queue::new: the new queue is empty.
#[verifier::external_body]
pub fn msg_queue_new() -> (r: queues::Queue<Message>)
    ensures
        msg_queue(&r) == Seq::<Message>::empty(),
{
    queues::Queue::new()
}

/// Relies on queues::Queue::add: appends at the back; on this unbounded
/// queue it always succeeds.
#[verifier::external_body]
pub fn msg_queue_add(q: &mut queues::Queue<Message>, m: Message)
    ensures
        msg_queue(final(q)) == msg_queue(old(q)).push(m),
{
    let _ = queues::IsQueue::add(q, m);
}

/// Relies on queues::Queue::remove: takes and returns the oldest element;
/// fails exactly on an empty queue, which it leaves unchanged.
#[verifier::external_body]
pub fn msg_queue_remove(q: &mut queues::Queue<Message>) -> (r: Option<Message>)
    ensures
        match r {
            Some(v) => msg_queue(old(q)).len() > 0 && v == msg_queue(old(q))[0] && msg_queue(
                final(q),
            ) == msg_queue(old(q)).drop_first(),
            None => msg_queue(old(q)).len() == 0 && msg_queue(final(q)) == msg_queue(old(q)),
        },
{
    match queues::IsQueue::remove(q) {
        Ok(v) => Some(v),
        Err(_) => None,
    }
}

/// Relies on queues::Queue::size: the number of elements held.
#[verifier::external_body]
pub fn msg_queue_size(q: &queues::Queue<Message>) -> (r: usize)
    ensures
        r == msg_queue(q).len(),
{
    queues::IsQueue::size(q)
}

/// The operations held by a client-side operation queue, oldest first.
pub uninterp spec fn client_op_queue(q: &queues::Queue<crate::client::HandlerOperation>) -> Seq<
    crate::client::HandlerOperation,
>;

/// Relies on queues::Queue::new: the new queue is empty.
#[verifier::external_body]
pub fn client_op_queue_new() -> (r: queues::Queue<crate::client::HandlerOperation>)
    ensures
        client_op_queue(&r) == Seq::<crate::client::HandlerOperation>::empty(),
{
    queues::Queue::new()
}

/// Relies on queues::Queue::add: appends at the back; on this unbounded
/// queue it always succeeds.
#[verifier::external_body]
pub fn client_op_queue_add(
    q: &mut queues::Queue<crate::client::HandlerOperation>,
    v: crate::client::HandlerOperation,
)
    ensures
        client_op_queue(final(q)) == client_op_queue(old(q)).push(v),
{
    let _ = queues::IsQueue::add(q, v);
}

/// Relies on queues::Queue::remove: takes and returns the oldest element;
/// fails exactly on an empty queue, which it leaves unchanged.
#[verifier::external_body]
pub fn client_op_queue_remove(q: &mut queues::Queue<crate::client::HandlerOperation>) -> (r: Option<
    crate::client::HandlerOperation,
>)
    ensures
        match r {
            Some(v) => client_op_queue(old(q)).len() > 0 && v == client_op_queue(old(q))[0]
                && client_op_queue(final(q)) == client_op_queue(old(q)).drop_first(),
            None => client_op_queue(old(q)).len() == 0 && client_op_queue(final(q))
                == client_op_queue(old(q)),
        },
{
    match queues::IsQueue::remove(q) {
        Ok(v) => Some(v),
        Err(_) => None,
    }
}

/// Relies on queues::Queue::size: the number of elements held.
#[verifier::external_body]
pub fn client_op_queue_size(q: &queues::Queue<crate::client::HandlerOperation>) -> (r: usize)
    ensures
        r == client_op_queue(q).len(),
{
    queues::IsQueue::size(q)
}

/// The operations held by a server-side operation queue, oldest first.
pub uninterp spec fn server_op_queue(q: &queues::Queue<crate::server::HandlerOperation>) -> Seq<
    crate::server::HandlerOperation,
>;

/// Relies on queues::Queue::new: the new queue is empty.
#[verifier::external_body]
pub fn server_op_queue_new() -> (r: queues::Queue<crate::server::HandlerOperation>)
    ensures
        server_op_queue(&r) == Seq::<crate::server::HandlerOperation>::empty(),
{
    queues::Queue::new()
}

/// Relies on queues::Queue::add: appends at the back; on this unbounded
/// queue it always succeeds.
#[verifier::external_body]
pub fn server_op_queue_add(
    q: &mut queues::Queue<crate::server::HandlerOperation>,
    v: crate::server::HandlerOperation,
)
    ensures
        server_op_queue(final(q)) == server_op_queue(old(q)).push(v),
{
    let _ = queues::IsQueue::add(q, v);
}

/// Relies on queues::Queue::remove: takes and returns the oldest element;
/// fails exactly on an empty queue, which it leaves unchanged.
#[verifier::external_body]
pub fn server_op_queue_remove(q: &mut queues::Queue<crate::server::HandlerOperation>) -> (r: Option<
    crate::server::HandlerOperation,
>)
    ensures
        match r {
            Some(v) => server_op_queue(old(q)).len() > 0 && v == server_op_queue(old(q))[0]
                && server_op_queue(final(q)) == server_op_queue(old(q)).drop_first(),
            None => server_op_queue(old(q)).len() == 0 && server_op_queue(final(q))
                == server_op_queue(old(q)),
        },
{
    match queues::IsQueue::remove(q) {
        Ok(v) => Some(v),
        Err(_) => None,
    }
}

/// Relies on queues::Queue::size: the number of elements held.
#[verifier::external_body]
pub fn server_op_queue_size(q: &queues::Queue<crate::server::HandlerOperation>) -> (r: usize)
    ensures
        r == server_op_queue(q).len(),
{
    queues::IsQueue::size(q)
}

/// The global events held by an event queue, oldest first.
pub uninterp spec fn global_op_queue(q: &queues::Queue<GlobalHandlerOperation>) -> Seq<
    GlobalHandlerOperation,
>;

/// Relies on queues::Queue::new: the new queue is empty.
#[verifier::external_body]
pub fn global_op_queue_new() -> (r: queues::Queue<GlobalHandlerOperation>)
    ensures
        global_op_queue(&r) == Seq::<GlobalHandlerOperation>::empty(),
{
    queues::Queue::new()
}

/// Relies on queues::Queue::add: appends at the back; on this unbounded
/// queue it always succeeds.
#[verifier::external_body]
pub fn global_op_queue_add(q: &mut queues::Queue<GlobalHandlerOperation>, v: GlobalHandlerOperation)
    ensures
        global_op_queue(final(q)) == global_op_queue(old(q)).push(v),
{
    let _ = queues::IsQueue::add(q, v);
}

/// Relies on queues::Queue::remove: takes and returns the oldest element;
/// fails exactly on an empty queue, which it leaves unchanged.
#[verifier::external_body]
pub fn global_op_queue_remove(q: &mut queues::Queue<GlobalHandlerOperation>) -> (r: Option<
    GlobalHandlerOperation,
>)
    ensures
        match r {
            Some(v) => global_op_queue(old(q)).len() > 0 && v == global_op_queue(old(q))[0]
                && global_op_queue(final(q)) == global_op_queue(old(q)).drop_first(),
            None => global_op_queue(old(q)).len() == 0 && global_op_queue(final(q))
                == global_op_queue(old(q)),
        },
{
    match queues::IsQueue::remove(q) {
        Ok(v) => Some(v),
        Err(_) => None,
    }
}

/// Relies on queues::Queue::size: the number of elements held.
#[verifier::external_body]
pub fn global_op_queue_size(q: &queues::Queue<GlobalHandlerOperation>) -> (r: usize)
    ensures
        r == global_op_queue(q).len(),
{
    queues::IsQueue::size(q)
}

} // verus!
