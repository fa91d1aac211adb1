//! The request/reply channel between plugins and the host.
//!
//! Any number of callers put requests into one queue; a single server takes
//! them out in order and answers each on the reply path that was created
//! with it. A reply path is a slot of its own: it is written once, by the
//! server, and read once, by the caller that holds the matching ticket.
//!
//! The channel is a plain value. An application that shares it between
//! threads keeps it behind a lock and lets a caller sleep while
//! [`Channel::poll`] says [`Poll::Waiting`].

use crate::plugin_api_v2::{Reply, Request};
use std::collections::HashMap;
use std::collections::VecDeque;
use vstd::prelude::*;

verus! {

broadcast use vstd::std_specs::hash::group_hash_axioms;

/// The error of a caller whose request can no longer be served.
#[derive(Clone, Copy, Debug, PartialEq, Eq, Structural)]
pub struct ChannelClosed;

/// The state of one reply path.
pub enum Slot {
    /// The request is in the queue.
    Queued,
    /// The server has taken the request and not yet answered it.
    InService,
    /// The reply is written and waits for its caller.
    Answered(Reply),
}

/// The read end of a reply path. Only the channel makes one, and it cannot
/// be copied.
#[derive(Debug, PartialEq, Eq)]
pub struct Ticket {
    number: u64,
}

impl View for Ticket {
    type V = u64;

    closed spec fn view(&self) -> u64 {
        self.number
    }
}

/// The write end of a reply path. Only the channel makes one, it cannot be
/// copied, and writing the reply uses it up.
#[derive(Debug, PartialEq, Eq)]
pub struct ReplyPath {
    number: u64,
}

impl View for ReplyPath {
    type V = u64;

    closed spec fn view(&self) -> u64 {
        self.number
    }
}

/// The mathematical state of a channel.
pub struct ChannelState {
    /// The requests not yet taken by the server, oldest first, each with the
    /// number of its reply path.
    pub pending: Seq<(u64, Request)>,
    /// The reply paths in use.
    pub slots: Map<u64, Slot>,
    /// How many reply paths were ever created.
    pub issued: nat,
    /// Whether the server still exists.
    pub receiver_alive: bool,
    /// Whether any caller still exists.
    pub senders_alive: bool,
}

impl ChannelState {
    /// A channel on which nothing has happened yet.
    pub open spec fn fresh() -> ChannelState {
        ChannelState {
            pending: Seq::empty(),
            slots: Map::empty(),
            issued: 0,
            receiver_alive: true,
            senders_alive: true,
        }
    }

    /// Whether the request of reply path `number` is in the queue.
    pub open spec fn is_pending(self, number: u64) -> bool {
        exists|i: int| 0 <= i < self.pending.len() && (#[trigger] self.pending[i]).0 == number
    }

    /// The invariant of every channel: the queue and the slots agree, no
    /// number is used twice, and the queue is in the order of creation.
    pub open spec fn wf(self) -> bool {
        &&& self.issued <= u64::MAX
        &&& self.slots.dom().finite()
        &&& forall|number: u64| #[trigger]
            self.slots.dom().contains(number) ==> number < self.issued
        &&& forall|i: int|
            0 <= i < self.pending.len() ==> self.slots.dom().contains(
                (#[trigger] self.pending[i]).0,
            ) && self.slots[self.pending[i].0] is Queued
        &&& forall|i: int, j: int|
            0 <= i < j < self.pending.len() ==> (#[trigger] self.pending[i]).0 < (
            #[trigger] self.pending[j]).0
        &&& forall|number: u64|
            self.slots.dom().contains(number) && (#[trigger] self.slots[number]) is Queued
                ==> self.is_pending(number)
    }

    /// Whether a new request is accepted: both sides exist.
    pub open spec fn open(self) -> bool {
        self.receiver_alive && self.senders_alive
    }

    /// The state after a caller has put `request` into the queue.
    pub open spec fn sent(self, request: Request) -> ChannelState {
        ChannelState {
            pending: self.pending.push((self.issued as u64, request)),
            slots: self.slots.insert(self.issued as u64, Slot::Queued),
            issued: self.issued + 1,
            ..self
        }
    }

    /// The state after the server has taken the oldest request.
    pub open spec fn received(self) -> ChannelState
        recommends
            self.pending.len() > 0,
    {
        ChannelState {
            pending: self.pending.drop_first(),
            slots: self.slots.insert(self.pending[0].0, Slot::InService),
            ..self
        }
    }

    /// Whether the server may write on reply path `number`.
    pub open spec fn in_service(self, number: u64) -> bool {
        self.slots.dom().contains(number) && self.slots[number] is InService
    }

    /// The state after the server has written `reply` on path `number`.
    pub open spec fn replied(self, number: u64, reply: Reply) -> ChannelState {
        ChannelState { slots: self.slots.insert(number, Slot::Answered(reply)), ..self }
    }

    /// Whether a reply waits on path `number`.
    pub open spec fn answered(self, number: u64) -> bool {
        self.slots.dom().contains(number) && self.slots[number] is Answered
    }

    /// The state after the caller has read the reply on path `number`.
    pub open spec fn collected(self, number: u64) -> ChannelState {
        ChannelState { slots: self.slots.remove(number), ..self }
    }

    /// What a caller that holds the ticket `number` finds.
    pub open spec fn poll(self, number: u64) -> Poll {
        if self.answered(number) {
            Poll::Ready(self.slots[number]->Answered_0)
        } else if self.slots.dom().contains(number) && self.receiver_alive {
            Poll::Waiting
        } else {
            Poll::Closed
        }
    }
}

/// What a caller finds when it looks for its reply.
#[derive(Debug, PartialEq, Eq)]
pub enum Poll {
    /// The reply. The reply path is used up.
    Ready(Reply),
    /// No reply yet, and the server still exists: look again later.
    Waiting,
    /// No reply, and none will come: the server is gone, or the ticket is
    /// not one of this channel's open reply paths.
    Closed,
}

/// What the server finds when it looks for a request.
#[derive(Debug, PartialEq, Eq)]
pub enum Received {
    /// The oldest request, with the write end of its reply path.
    Request(ReplyPath, Request),
    /// The queue is empty, and callers still exist: look again later.
    Empty,
    /// The queue is empty and every caller is gone: the server can stop.
    Closed,
}

/// The channel itself.
pub struct Channel {
    pending: VecDeque<(u64, Request)>,
    slots: HashMap<u64, Slot>,
    issued: u64,
    receiver_alive: bool,
    senders_alive: bool,
}

impl View for Channel {
    type V = ChannelState;

    closed spec fn view(&self) -> ChannelState {
        ChannelState {
            pending: self.pending@,
            slots: self.slots@,
            issued: self.issued as nat,
            receiver_alive: self.receiver_alive,
            senders_alive: self.senders_alive,
        }
    }
}

impl Channel {
    #[verifier::type_invariant]
    spec fn inv(self) -> bool {
        self@.wf()
    }

    /// How many reply paths this channel has created so far.
    pub fn issued(&self) -> (issued: u64)
        ensures
            issued == self@.issued,
    {
        self.issued
    }
}

/// Makes a channel without a bound on the number of waiting requests.
pub fn unbounded() -> (channel: Channel)
    ensures
        channel@ == ChannelState::fresh(),
        channel@.wf(),
{
    Channel {
        pending: VecDeque::new(),
        slots: HashMap::new(),
        issued: 0,
        receiver_alive: true,
        senders_alive: true,
    }
}

impl Channel {
    /// Puts `request` into the queue and returns the read end of the reply
    /// path made for it. Fails, without a trace in the channel, once the
    /// server or every caller is gone, however many reply paths were made
    /// before; only a channel that still takes requests must have a number
    /// left for the new reply path.
    pub fn send_request(&mut self, request: Request) -> (result: Result<Ticket, ChannelClosed>)
        requires
            old(self)@.open() ==> old(self)@.issued < u64::MAX,
        ensures
            match result {
                Ok(ticket) => old(self)@.open() && ticket@ == old(self)@.issued && final(self)@
                    == old(self)@.sent(request),
                Err(_) => !old(self)@.open() && final(self)@ == old(self)@,
            },
            final(self)@.wf(),
    {
        proof {
            use_type_invariant(&*self);
            if self@.open() {
                lemma_sent_wf(self@, request);
            }
        }
        if !(self.receiver_alive && self.senders_alive) {
            return Err(ChannelClosed);
        }
        let mut taken = unbounded();
        std::mem::swap(self, &mut taken);
        let Channel { mut pending, mut slots, issued, receiver_alive, senders_alive } = taken;
        pending.push_back((issued, request));
        slots.insert(issued, Slot::Queued);
        *self = Channel { pending, slots, issued: issued + 1, receiver_alive, senders_alive };
        Ok(Ticket { number: issued })
    }
}

impl Channel {
    /// Takes the oldest request out of the queue, for the server.
    pub fn recv(&mut self) -> (received: Received)
        ensures
            old(self)@.pending.len() > 0 ==> final(self)@ == old(self)@.received() && (
            received matches Received::Request(path, request) && path@ == old(self)@.pending[0].0
                && request == old(self)@.pending[0].1),
            old(self)@.pending.len() == 0 ==> final(self)@ == old(self)@ && received == (
            if old(self)@.senders_alive {
                Received::Empty
            } else {
                Received::Closed
            }),
            final(self)@.wf(),
    {
        proof {
            use_type_invariant(&*self);
            if self@.pending.len() > 0 {
                lemma_received_wf(self@);
            }
        }
        let mut taken = unbounded();
        std::mem::swap(self, &mut taken);
        let Channel { mut pending, mut slots, issued, receiver_alive, senders_alive } = taken;
        let front = pending.pop_front();
        let received = match front {
            Some((number, request)) => {
                slots.insert(number, Slot::InService);
                Received::Request(ReplyPath { number }, request)
            },
            None => {
                if senders_alive {
                    Received::Empty
                } else {
                    Received::Closed
                }
            },
        };
        *self = Channel { pending, slots, issued, receiver_alive, senders_alive };
        received
    }

    /// Writes `reply` on `path`, for the server. Nothing is written, and
    /// `false` returned, unless the path is one whose request the server
    /// has taken and not yet answered.
    pub fn reply(&mut self, path: ReplyPath, reply: Reply) -> (written: bool)
        ensures
            written == old(self)@.in_service(path@),
            final(self)@ == (if written {
                old(self)@.replied(path@, reply)
            } else {
                old(self)@
            }),
            final(self)@.wf(),
    {
        proof {
            use_type_invariant(&*self);
            if self@.in_service(path@) {
                lemma_replied_wf(self@, path@, reply);
            }
        }
        let in_service = match self.slots.get(&path.number) {
            Some(Slot::InService) => true,
            _ => false,
        };
        if !in_service {
            return false;
        }
        let mut taken = unbounded();
        std::mem::swap(self, &mut taken);
        let Channel { pending, mut slots, issued, receiver_alive, senders_alive } = taken;
        slots.insert(path.number, Slot::Answered(reply));
        *self = Channel { pending, slots, issued, receiver_alive, senders_alive };
        true
    }

    /// Looks for the reply on the path of `ticket`, for the caller. A reply
    /// that is found is taken out: it is read once.
    pub fn poll(&mut self, ticket: &Ticket) -> (found: Poll)
        ensures
            found == old(self)@.poll(ticket@),
            final(self)@ == (if old(self)@.answered(ticket@) {
                old(self)@.collected(ticket@)
            } else {
                old(self)@
            }),
            final(self)@.wf(),
    {
        proof {
            use_type_invariant(&*self);
            if self@.answered(ticket@) {
                lemma_collected_wf(self@, ticket@);
            }
        }
        let state = match self.slots.get(&ticket.number) {
            Some(Slot::Answered(_)) => 2u8,
            Some(_) => 1u8,
            None => 0u8,
        };
        if state == 2 {
            let mut taken = unbounded();
            std::mem::swap(self, &mut taken);
            let Channel { pending, mut slots, issued, receiver_alive, senders_alive } = taken;
            let slot = slots.remove(&ticket.number);
            *self = Channel { pending, slots, issued, receiver_alive, senders_alive };
            match slot {
                Some(Slot::Answered(reply)) => Poll::Ready(reply),
                _ => Poll::Closed,
            }
        } else if state == 1 && self.receiver_alive {
            Poll::Waiting
        } else {
            Poll::Closed
        }
    }

    /// Records that the server is gone. Requests still without a reply will
    /// never get one; replies already written can still be read.
    pub fn close_receiver(&mut self)
        ensures
            final(self)@ == (ChannelState { receiver_alive: false, ..old(self)@ }),
            final(self)@.wf(),
    {
        proof {
            use_type_invariant(&*self);
            lemma_step_wf(self@, Step::ServerGone);
        }
        let mut taken = unbounded();
        std::mem::swap(self, &mut taken);
        let Channel { pending, slots, issued, receiver_alive: _, senders_alive } = taken;
        *self = Channel { pending, slots, issued, receiver_alive: false, senders_alive };
    }

    /// Records that every caller is gone. The server still finds the
    /// requests that are in the queue, and after them [`Received::Closed`].
    pub fn close_senders(&mut self)
        ensures
            final(self)@ == (ChannelState { senders_alive: false, ..old(self)@ }),
            final(self)@.wf(),
    {
        proof {
            use_type_invariant(&*self);
            lemma_step_wf(self@, Step::CallersGone);
        }
        let mut taken = unbounded();
        std::mem::swap(self, &mut taken);
        let Channel { pending, slots, issued, receiver_alive, senders_alive: _ } = taken;
        *self = Channel { pending, slots, issued, receiver_alive, senders_alive: false };
    }
}

/// Taking the oldest request keeps the channel well-formed.
pub proof fn lemma_received_wf(state: ChannelState)
    requires
        state.wf(),
        state.pending.len() > 0,
    ensures
        state.received().wf(),
{
    let next = state.received();
    let number = state.pending[0].0;
    assert forall|i: int| 0 <= i < next.pending.len() implies next.slots.dom().contains(
        (#[trigger] next.pending[i]).0,
    ) && next.slots[next.pending[i].0] is Queued by {
        assert(next.pending[i] == state.pending[i + 1]);
        assert(state.pending[0].0 < state.pending[i + 1].0);
    }
    assert forall|i: int, j: int| 0 <= i < j < next.pending.len() implies (
    #[trigger] next.pending[i]).0 < (#[trigger] next.pending[j]).0 by {
        assert(next.pending[i] == state.pending[i + 1]);
        assert(next.pending[j] == state.pending[j + 1]);
    }
    assert forall|n: u64|
        next.slots.dom().contains(n) && (#[trigger] next.slots[n]) is Queued implies next.is_pending(
        n,
    ) by {
        assert(n != number);
        assert(state.is_pending(n));
        let i = choose|i: int| 0 <= i < state.pending.len() && (#[trigger] state.pending[i]).0 == n;
        assert(i > 0);
        assert(next.pending[i - 1] == state.pending[i]);
    }
}

/// Writing a reply keeps the channel well-formed.
pub proof fn lemma_replied_wf(state: ChannelState, number: u64, reply: Reply)
    requires
        state.wf(),
        state.in_service(number),
    ensures
        state.replied(number, reply).wf(),
{
    let next = state.replied(number, reply);
    assert forall|n: u64|
        next.slots.dom().contains(n) && (#[trigger] next.slots[n]) is Queued implies next.is_pending(
        n,
    ) by {
        assert(state.slots[n] is Queued);
        assert(state.is_pending(n));
        let i = choose|i: int| 0 <= i < state.pending.len() && (#[trigger] state.pending[i]).0 == n;
        assert(next.pending[i].0 == n);
    }
}

/// Reading a reply keeps the channel well-formed.
pub proof fn lemma_collected_wf(state: ChannelState, number: u64)
    requires
        state.wf(),
        state.answered(number),
    ensures
        state.collected(number).wf(),
{
    let next = state.collected(number);
    assert forall|n: u64|
        next.slots.dom().contains(n) && (#[trigger] next.slots[n]) is Queued implies next.is_pending(
        n,
    ) by {
        assert(state.slots[n] is Queued);
        assert(state.is_pending(n));
        let i = choose|i: int| 0 <= i < state.pending.len() && (#[trigger] state.pending[i]).0 == n;
        assert(next.pending[i].0 == n);
    }
}

/// Putting a request into the queue keeps the channel well-formed.
pub proof fn lemma_sent_wf(state: ChannelState, request: Request)
    requires
        state.wf(),
        state.issued < u64::MAX,
    ensures
        state.sent(request).wf(),
        !state.slots.dom().contains(state.issued as u64),
{
    let next = state.sent(request);
    let number = state.issued as u64;
    assert forall|i: int| 0 <= i < next.pending.len() implies next.slots.dom().contains(
        (#[trigger] next.pending[i]).0,
    ) && next.slots[next.pending[i].0] is Queued by {
        if i < state.pending.len() {
            assert(next.pending[i] == state.pending[i]);
        }
    }
    assert forall|i: int, j: int| 0 <= i < j < next.pending.len() implies (
    #[trigger] next.pending[i]).0 < (#[trigger] next.pending[j]).0 by {
        assert(next.pending[i] == state.pending[i]);
        if j < state.pending.len() {
            assert(next.pending[j] == state.pending[j]);
        }
    }
    assert forall|n: u64|
        next.slots.dom().contains(n) && (#[trigger] next.slots[n]) is Queued implies next.is_pending(
        n,
    ) by {
        if n == number {
            assert(next.pending[state.pending.len() as int].0 == n);
        } else {
            assert(state.is_pending(n));
            let i = choose|i: int|
                0 <= i < state.pending.len() && (#[trigger] state.pending[i]).0 == n;
            assert(next.pending[i] == state.pending[i]);
        }
    }
}

/// One thing that can happen to a channel.
pub enum Step {
    /// A caller sends a request.
    Send(Request),
    /// The server takes the oldest request.
    Receive,
    /// The server writes a reply on a path.
    Reply(u64, Reply),
    /// A caller looks for the reply on a path.
    Poll(u64),
    /// The server goes away.
    ServerGone,
    /// The last caller goes away.
    CallersGone,
}

impl ChannelState {
    /// The state after `step`, as the methods of [`Channel`] leave it.
    pub open spec fn step(self, step: Step) -> ChannelState {
        match step {
            Step::Send(request) => if self.open() && self.issued < u64::MAX {
                self.sent(request)
            } else {
                self
            },
            Step::Receive => if self.pending.len() > 0 {
                self.received()
            } else {
                self
            },
            Step::Reply(number, reply) => if self.in_service(number) {
                self.replied(number, reply)
            } else {
                self
            },
            Step::Poll(number) => if self.answered(number) {
                self.collected(number)
            } else {
                self
            },
            Step::ServerGone => ChannelState { receiver_alive: false, ..self },
            Step::CallersGone => ChannelState { senders_alive: false, ..self },
        }
    }

    /// The state after all of `steps`, in their order.
    pub open spec fn run(self, steps: Seq<Step>) -> ChannelState
        decreases steps.len(),
    {
        if steps.len() == 0 {
            self
        } else {
            self.run(steps.drop_last()).step(steps.last())
        }
    }
}

/// Whether `step` writes or reads on reply path `number`.
pub open spec fn uses_path(step: Step, number: u64) -> bool {
    match step {
        Step::Reply(n, _) => n == number,
        Step::Poll(n) => n == number,
        _ => false,
    }
}

/// Every step keeps the channel well-formed.
pub proof fn lemma_step_wf(state: ChannelState, step: Step)
    requires
        state.wf(),
    ensures
        state.step(step).wf(),
{
    match step {
        Step::Send(request) => {
            if state.open() && state.issued < u64::MAX {
                lemma_sent_wf(state, request);
            }
        },
        Step::Receive => {
            if state.pending.len() > 0 {
                lemma_received_wf(state);
            }
        },
        Step::Reply(number, reply) => {
            if state.in_service(number) {
                lemma_replied_wf(state, number, reply);
            }
        },
        Step::Poll(number) => {
            if state.answered(number) {
                lemma_collected_wf(state, number);
            }
        },
        Step::ServerGone => {
            let next = state.step(step);
            assert forall|n: u64|
                next.slots.dom().contains(n) && (#[trigger] next.slots[n]) is Queued implies next.is_pending(
                n,
            ) by {
                assert(state.slots[n] is Queued);
                assert(state.is_pending(n));
                let i = choose|i: int|
                    0 <= i < state.pending.len() && (#[trigger] state.pending[i]).0 == n;
                assert(next.pending[i].0 == n);
            }
        },
        Step::CallersGone => {
            let next = state.step(step);
            assert forall|n: u64|
                next.slots.dom().contains(n) && (#[trigger] next.slots[n]) is Queued implies next.is_pending(
                n,
            ) by {
                assert(state.slots[n] is Queued);
                assert(state.is_pending(n));
                let i = choose|i: int|
                    0 <= i < state.pending.len() && (#[trigger] state.pending[i]).0 == n;
                assert(next.pending[i].0 == n);
            }
        },
    }
}

/// Every sequence of steps keeps the channel well-formed.
pub proof fn lemma_run_wf(state: ChannelState, steps: Seq<Step>)
    requires
        state.wf(),
    ensures
        state.run(steps).wf(),
    decreases steps.len(),
{
    if steps.len() > 0 {
        lemma_run_wf(state, steps.drop_last());
        lemma_step_wf(state.run(steps.drop_last()), steps.last());
    }
}

/// A step that neither writes nor reads on an answered reply path leaves
/// the reply on it as it is.
pub proof fn lemma_other_steps_keep_reply(state: ChannelState, step: Step, number: u64)
    requires
        state.wf(),
        state.answered(number),
        !uses_path(step, number),
    ensures
        state.step(step).answered(number),
        state.step(step).slots[number] == state.slots[number],
{
    match step {
        Step::Send(request) => {
            assert(state.slots.dom().contains(number));
        },
        Step::Receive => {
            if state.pending.len() > 0 {
                assert(state.slots[state.pending[0].0] is Queued);
            }
        },
        _ => {},
    }
}

/// A reply reaches the caller it was written for: once the server has
/// written `reply` on path `number`, the holder of that ticket finds exactly
/// this reply, whatever the other callers and the server do on other paths
/// in between, in whatever order.
pub proof fn lemma_reply_reaches_its_caller(
    state: ChannelState,
    number: u64,
    reply: Reply,
    others: Seq<Step>,
)
    requires
        state.wf(),
        state.in_service(number),
        forall|i: int| 0 <= i < others.len() ==> !uses_path(#[trigger] others[i], number),
    ensures
        state.replied(number, reply).run(others).poll(number) == Poll::Ready(reply),
    decreases others.len(),
{
    let written = state.replied(number, reply);
    lemma_replied_wf(state, number, reply);
    if others.len() > 0 {
        let before = others.drop_last();
        assert forall|i: int| 0 <= i < before.len() implies !uses_path(
            #[trigger] before[i],
            number,
        ) by {
            assert(before[i] == others[i]);
        }
        lemma_reply_reaches_its_caller(state, number, reply, before);
        lemma_run_wf(written, before);
        lemma_other_steps_keep_reply(written.run(before), others.last(), number);
    }
}

/// A caller never finds another caller's reply: whatever has happened on a
/// channel since it was made, a reply that waits on path `number` is one
/// that the server wrote on that very path.
pub proof fn lemma_only_own_reply(steps: Seq<Step>, number: u64)
    ensures
        ({
            let state = ChannelState::fresh().run(steps);
            state.answered(number) ==> exists|i: int|
                0 <= i < steps.len() && #[trigger] steps[i] == Step::Reply(
                    number,
                    state.slots[number]->Answered_0,
                )
        }),
    decreases steps.len(),
{
    let state = ChannelState::fresh().run(steps);
    if steps.len() > 0 && state.answered(number) {
        let before = steps.drop_last();
        let earlier = ChannelState::fresh().run(before);
        let last = steps.last();
        lemma_only_own_reply(before, number);
        if last == Step::Reply(number, state.slots[number]->Answered_0) {
            assert(steps[steps.len() - 1] == last);
        } else {
            assert(earlier.answered(number) && earlier.slots[number] == state.slots[number]) by {
                match last {
                    Step::Send(request) => {},
                    Step::Receive => {},
                    Step::Reply(n, r) => {},
                    Step::Poll(n) => {},
                    Step::ServerGone => {},
                    Step::CallersGone => {},
                }
            }
            let i = choose|i: int|
                0 <= i < before.len() && #[trigger] before[i] == Step::Reply(
                    number,
                    earlier.slots[number]->Answered_0,
                );
            assert(steps[i] == before[i]);
        }
    }
}

/// A server that is gone stays gone, whatever happens on the channel.
pub proof fn lemma_server_stays_gone(state: ChannelState, steps: Seq<Step>)
    requires
        !state.receiver_alive,
    ensures
        !state.run(steps).receiver_alive,
    decreases steps.len(),
{
    if steps.len() > 0 {
        lemma_server_stays_gone(state, steps.drop_last());
    }
}

/// No caller waits for a server that is gone: from then on, whatever else
/// happens on the channel, a request that is sent is refused and leaves the
/// channel as it was, and a caller that looks for its reply does not find
/// `Waiting`: it gets the reply that was written in time, or learns that
/// none will come.
pub proof fn lemma_no_caller_waits_for_a_server_that_is_gone(
    state: ChannelState,
    steps: Seq<Step>,
    request: Request,
    number: u64,
)
    requires
        !state.receiver_alive,
    ensures
        state.run(steps).step(Step::Send(request)) == state.run(steps),
        state.run(steps).poll(number) != Poll::Waiting,
{
    lemma_server_stays_gone(state, steps);
}

/// A request keeps the reply path it was sent with: whatever has happened
/// on a channel since it was made, each request in the queue is one that a
/// caller sent, and it stands there with the number of the ticket that this
/// caller got for it.
pub proof fn lemma_request_keeps_its_path(steps: Seq<Step>, place: int)
    ensures
        ({
            let state = ChannelState::fresh().run(steps);
            0 <= place < state.pending.len() ==> exists|i: int|
                0 <= i < steps.len() && #[trigger] steps[i] == Step::Send(state.pending[place].1)
                    && ChannelState::fresh().run(steps.take(i)).issued == state.pending[place].0
        }),
    decreases steps.len(),
{
    let state = ChannelState::fresh().run(steps);
    if steps.len() > 0 && 0 <= place < state.pending.len() {
        let before = steps.drop_last();
        let earlier = ChannelState::fresh().run(before);
        let last = steps.last();
        let n = steps.len() - 1;
        let newly_sent = last is Send && earlier.open() && earlier.issued < u64::MAX && place
            == earlier.pending.len();
        if newly_sent {
            assert(steps.take(n) =~= before);
            assert(steps[n] == Step::Send(state.pending[place].1));
        } else {
            let back = if last is Receive && earlier.pending.len() > 0 {
                place + 1
            } else {
                place
            };
            lemma_request_keeps_its_path(before, back);
            assert(earlier.pending[back] == state.pending[place]);
            let i = choose|i: int|
                0 <= i < before.len() && #[trigger] before[i] == Step::Send(earlier.pending[back].1)
                    && ChannelState::fresh().run(before.take(i)).issued == earlier.pending[back].0;
            assert(steps.take(i) =~= before.take(i));
            assert(steps[i] == before[i]);
        }
    }
}

} // verus!
