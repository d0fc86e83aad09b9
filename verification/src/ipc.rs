//! IPC mailbox: messages waiting for their recipients, in sending order.
use vstd::prelude::*;
use std::collections::VecDeque;
use crate::least::{least_index, lemma_least_index, lemma_least_index_is};

verus! {

/// Size of a message payload in bytes.
pub const IPC_PAYLOAD_SIZE: usize = 64;

/// A message: its sender, a type tag and a fixed-size payload.
#[derive(Clone, Copy, Debug)]
pub struct IpcMessage {
    pub sender: usize,
    pub msg_type: u8,
    pub payload: [u8; 64],
}

impl IpcMessage {
    /// A message from `sender` of type `msg_type` with a zero payload.
    pub fn new(sender: usize, msg_type: u8) -> (m: Self)
        ensures
            m.sender == sender,
            m.msg_type == msg_type,
            m.payload@ == Seq::new(IPC_PAYLOAD_SIZE as nat, |i: int| 0u8),
    {
        let m = Self { sender, msg_type, payload: [0; 64] };
        assert(m.payload@ =~= Seq::new(IPC_PAYLOAD_SIZE as nat, |i: int| 0u8));
        m
    }
}

/// All undelivered messages, each with its recipient, oldest first.
pub struct Mailboxes {
    queue: VecDeque<(usize, IpcMessage)>,
}

/// Whether the message at position `i` of `q` is for `who`.
pub open spec fn is_for(q: Seq<(usize, IpcMessage)>, who: usize) -> spec_fn(int) -> bool {
    |i: int| q[i].0 == who
}

/// Position of the oldest message for `who`, if any.
pub open spec fn first_for(q: Seq<(usize, IpcMessage)>, who: usize) -> Option<int> {
    least_index(is_for(q, who), 0, q.len() as int)
}

impl Mailboxes {
    /// The undelivered messages with their recipients, oldest first.
    pub closed spec fn pending(&self) -> Seq<(usize, IpcMessage)> {
        self.queue@
    }

    /// No message waiting.
    pub fn new() -> (m: Self)
        ensures
            m.pending() == Seq::<(usize, IpcMessage)>::empty(),
    {
        Mailboxes { queue: VecDeque::new() }
    }
}

/// Queue `msg` for task `target`.
pub fn send(mb: &mut Mailboxes, target: usize, msg: IpcMessage)
    ensures
        final(mb).pending() == old(mb).pending().push((target, msg)),
{
    mb.queue.push_back((target, msg));
}

/// Take the oldest message for task `who`, if any; other messages keep
/// their order.
pub fn recv(mb: &mut Mailboxes, who: usize) -> (m: Option<IpcMessage>)
    ensures
        match first_for(old(mb).pending(), who) {
            Some(i) => m == Some(old(mb).pending()[i].1) && final(mb).pending() == old(mb).pending().remove(i),
            None => m is None && final(mb).pending() == old(mb).pending(),
        },
{
    let len = mb.queue.len();
    let mut i: usize = 0;
    while i < len
        invariant
            len == mb.queue@.len(),
            i <= len,
            mb.queue@ == old(mb).queue@,
            forall|j: int| 0 <= j < i ==> mb.queue@[j].0 != who,
        decreases len - i,
    {
        if mb.queue[i].0 == who {
            proof {
                lemma_least_index_is(is_for(mb.queue@, who), 0, len as int, i as int);
            }
            return match mb.queue.remove(i) {
                Some(entry) => Some(entry.1),
                None => None,
            };
        }
        i += 1;
    }
    proof {
        lemma_least_index(is_for(mb.queue@, who), 0, len as int);
    }
    None
}

/// Delivery is first-in first-out per recipient: a message sent to `who`
/// when none is waiting for it is exactly what the next `recv(who)` gets,
/// and the other messages are left as they were.
pub proof fn lemma_send_then_recv(q: Seq<(usize, IpcMessage)>, who: usize, msg: IpcMessage)
    requires
        first_for(q, who) is None,
    ensures
        first_for(q.push((who, msg)), who) == Some(q.len() as int),
        q.push((who, msg)).remove(q.len() as int) == q,
{
    let q2 = q.push((who, msg));
    lemma_least_index(is_for(q, who), 0, q.len() as int);
    assert forall|j: int| 0 <= j < q.len() implies !#[trigger] is_for(q2, who)(j) by {
        assert(q2[j] == q[j]);
        assert(!is_for(q, who)(j));
    }
    lemma_least_index_is(is_for(q2, who), 0, q2.len() as int, q.len() as int);
    assert(q2.remove(q.len() as int) =~= q);
}

/// Messages for other recipients keep waiting: `recv(who)` never takes a
/// message addressed to someone else.
pub proof fn lemma_recv_takes_own(q: Seq<(usize, IpcMessage)>, who: usize)
    requires
        first_for(q, who) is Some,
    ensures
        first_for(q, who) matches Some(i) && 0 <= i < q.len() && q[i].0 == who && forall|j: int|
            0 <= j < i ==> q[j].0 != who,
{
    lemma_least_index(is_for(q, who), 0, q.len() as int);
    let i = first_for(q, who).unwrap();
    assert forall|j: int| 0 <= j < i implies q[j].0 != who by {
        assert(!is_for(q, who)(j));
    }
}

} // verus!
