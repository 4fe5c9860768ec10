//! Channels between the threads of the service.
//!
//! An end of a channel wraps one of `crossbeam`'s. The specifications tie what is done with an end
//! to the calls into `crossbeam`: [`one_channel`] says that two ends came out of one call that made
//! a channel, [`handed_over`] what came of a call that sends, and [`found_at_once`] and
//! [`found_waiting`] what came of calls that receive.
//!
//! For the proofs only, ends also carry a number and a record of what went through them. The two
//! ends of a channel have the same number, and ends with different numbers belong to different
//! channels; equal numbers by themselves say nothing.
use vstd::prelude::*;

verus! {

/// The sending end of `crossbeam`'s channels; nothing of its inside is known here.
#[verifier::external_type_specification]
#[verifier::external_body]
#[verifier::reject_recursive_types(T)]
pub struct ExSender<T>(crossbeam::channel::Sender<T>);

/// The receiving end of `crossbeam`'s channels; nothing of its inside is known here.
#[verifier::external_type_specification]
#[verifier::external_body]
#[verifier::reject_recursive_types(T)]
pub struct ExReceiver<T>(crossbeam::channel::Receiver<T>);

/// What came of looking for a message.
pub enum Polled<T> {
    /// A message was there.
    Message(T),
    /// No message was there.
    Empty,
    /// No message was there, and none will come: every sending end is gone.
    Disconnected,
}

/// The sending end of an unbounded channel.
#[verifier::reject_recursive_types(T)]
pub struct Tx<T> {
    inner: crossbeam::channel::Sender<T>,
    id: Ghost<nat>,
    sent: Ghost<Seq<T>>,
    others: Ghost<nat>,
}

/// The receiving end of an unbounded channel.
#[verifier::reject_recursive_types(T)]
pub struct Rx<T> {
    inner: crossbeam::channel::Receiver<T>,
    id: Ghost<nat>,
    polled: Ghost<Seq<Polled<T>>>,
}

/// Opens channels and numbers them, each with a number of its own.
pub struct ChannelIds {
    next: Ghost<nat>,
}

/// One side of a connection in both directions.
#[verifier::reject_recursive_types(S)]
#[verifier::reject_recursive_types(R)]
pub struct DuplexChannel<S, R> {
    pub tx: Tx<S>,
    pub rx: Rx<R>,
}

/// Calls `crossbeam::channel::unbounded`, which makes a channel of unbounded capacity and returns
/// its two ends. That the receiving end gets what is sent into the sending end shows only between
/// calls of different threads, so no clause says it; [`opened_together`] says of two ends that they
/// came out of one such call.
#[verifier::external_body]
fn crossbeam_unbounded<T>() -> (r: (
    crossbeam::channel::Sender<T>,
    crossbeam::channel::Receiver<T>,
)) {
    crossbeam::channel::unbounded()
}

/// Calls `crossbeam::channel::Sender::clone`, which makes another sending end of the same channel.
/// A sending end stands for its channel here, so the two are equal.
#[verifier::external_body]
fn crossbeam_sender_clone<T>(tx: &crossbeam::channel::Sender<T>) -> (r: crossbeam::channel::Sender<
    T,
>)
    ensures
        r == *tx,
{
    tx.clone()
}

/// Calls `crossbeam::channel::Sender::send`. If the channel is disconnected the message comes back;
/// whether it is depends on the other threads.
#[verifier::external_body]
fn crossbeam_send<T>(tx: &crossbeam::channel::Sender<T>, msg: T) -> (r: Result<(), T>)
    ensures
        r matches Err(back) ==> back == msg,
{
    match tx.send(msg) {
        Ok(()) => Ok(()),
        Err(e) => Err(e.into_inner()),
    }
}

/// Calls `crossbeam::channel::Receiver::try_recv`, which does not block. What it finds depends on
/// the other threads, so nothing is stated of it.
#[verifier::external_body]
fn crossbeam_try_recv<T>(rx: &crossbeam::channel::Receiver<T>) -> (r: Polled<T>) {
    match rx.try_recv() {
        Ok(msg) => Polled::Message(msg),
        Err(crossbeam::channel::TryRecvError::Empty) => Polled::Empty,
        Err(crossbeam::channel::TryRecvError::Disconnected) => Polled::Disconnected,
    }
}

/// Calls `crossbeam::channel::Receiver::recv`, which blocks until there is a message or every
/// sending end is gone. It therefore never comes back with nothing to report.
#[verifier::external_body]
fn crossbeam_recv<T>(rx: &crossbeam::channel::Receiver<T>) -> (r: Polled<T>)
    ensures
        !(r is Empty),
{
    match rx.recv() {
        Ok(msg) => Polled::Message(msg),
        Err(crossbeam::channel::RecvError) => Polled::Disconnected,
    }
}

/// The two ends came out of one call that made a channel.
pub closed spec fn opened_together<T>(
    tx: crossbeam::channel::Sender<T>,
    rx: crossbeam::channel::Receiver<T>,
) -> bool {
    call_ensures(crossbeam_unbounded::<T>, (), (tx, rx))
}

/// `r` is what came of handing `msg` to `tx`.
pub closed spec fn handed_over<T>(
    tx: crossbeam::channel::Sender<T>,
    msg: T,
    r: Result<(), T>,
) -> bool {
    call_ensures(crossbeam_send::<T>, (&tx, msg), r)
}

/// `msg` was handed to `tx`, which took it.
pub open spec fn was_taken<T>(tx: crossbeam::channel::Sender<T>, msg: T) -> bool {
    exists|r: Result<(), T>| r is Ok && #[trigger] handed_over(tx, msg, r)
}

/// `msg` was handed to `tx` and came back: the channel is disconnected.
pub open spec fn came_back<T>(tx: crossbeam::channel::Sender<T>, msg: T) -> bool {
    handed_over(tx, msg, Err(msg))
}

/// `r` is what a look for a message at `rx` found.
pub closed spec fn found_at_once<T>(rx: crossbeam::channel::Receiver<T>, r: Polled<T>) -> bool {
    call_ensures(crossbeam_try_recv::<T>, (&rx,), r)
}

/// `r` is what waiting for a message at `rx` brought.
pub closed spec fn found_waiting<T>(rx: crossbeam::channel::Receiver<T>, r: Polled<T>) -> bool {
    call_ensures(crossbeam_recv::<T>, (&rx,), r)
}

/// `tx` and `rx` are the two ends of one channel: ends of what one call made, with its number.
pub open spec fn one_channel<T>(tx: Tx<T>, rx: Rx<T>) -> bool {
    &&& opened_together(tx.channel(), rx.channel())
    &&& tx.id() == rx.id()
}

impl<T> Tx<T> {
    /// The number of the channel.
    pub closed spec fn id(self) -> nat {
        self.id@
    }

    /// The channel itself, as `crossbeam` has it.
    pub closed spec fn channel(self) -> crossbeam::channel::Sender<T> {
        self.inner
    }

    /// The messages that were sent through this end, oldest first.
    pub closed spec fn sent(self) -> Seq<T> {
        self.sent@
    }

    /// How many other ends were made from this one.
    pub closed spec fn others(self) -> nat {
        self.others@
    }

    /// Sends a message. If the channel is disconnected, the message comes back.
    pub fn send(&mut self, msg: T) -> (r: Result<(), T>)
        ensures
            final(self).id() == old(self).id(),
            final(self).channel() == old(self).channel(),
            final(self).others() == old(self).others(),
            handed_over(old(self).channel(), msg, r),
            match r {
                Ok(_) => {
                    &&& was_taken(old(self).channel(), msg)
                    &&& final(self).sent() == old(self).sent().push(msg)
                },
                Err(back) => {
                    &&& back == msg
                    &&& came_back(old(self).channel(), msg)
                    &&& final(self).sent() == old(self).sent()
                },
            },
    {
        let ghost message = msg;
        let r = crossbeam_send(&self.inner, msg);
        assert(handed_over(old(self).channel(), message, r));
        if r.is_ok() {
            self.sent = Ghost(self.sent@.push(message));
        }
        r
    }

    /// Another sending end of the same channel, through which nothing was sent yet.
    pub fn another(&mut self) -> (r: Tx<T>)
        ensures
            r.id() == old(self).id(),
            r.channel() == old(self).channel(),
            r.sent() == Seq::<T>::empty(),
            r.others() == 0,
            final(self).id() == old(self).id(),
            final(self).channel() == old(self).channel(),
            final(self).sent() == old(self).sent(),
            final(self).others() == old(self).others() + 1,
    {
        self.others = Ghost(self.others@ + 1);
        Tx {
            inner: crossbeam_sender_clone(&self.inner),
            id: Ghost(self.id@),
            sent: Ghost(Seq::empty()),
            others: Ghost(0),
        }
    }
}

impl<T> Rx<T> {
    /// The number of the channel.
    pub closed spec fn id(self) -> nat {
        self.id@
    }

    /// The channel itself, as `crossbeam` has it.
    pub closed spec fn channel(self) -> crossbeam::channel::Receiver<T> {
        self.inner
    }

    /// What came of each look for a message, oldest first.
    pub closed spec fn polled(self) -> Seq<Polled<T>> {
        self.polled@
    }

    /// Takes a message if there is one.
    pub fn try_recv(&mut self) -> (r: Polled<T>)
        ensures
            final(self).id() == old(self).id(),
            final(self).channel() == old(self).channel(),
            found_at_once(old(self).channel(), r),
            final(self).polled() == old(self).polled().push(r),
    {
        let r = crossbeam_try_recv(&self.inner);
        self.polled = Ghost(self.polled@.push(r));
        r
    }

    /// Waits for a message.
    pub fn recv(&mut self) -> (r: Polled<T>)
        ensures
            final(self).id() == old(self).id(),
            final(self).channel() == old(self).channel(),
            found_waiting(old(self).channel(), r),
            final(self).polled() == old(self).polled().push(r),
            !(r is Empty),
    {
        let r = crossbeam_recv(&self.inner);
        self.polled = Ghost(self.polled@.push(r));
        r
    }
}

impl ChannelIds {
    /// The number that the next channel gets. No channel that was opened here has it or a greater
    /// one.
    pub closed spec fn next(self) -> nat {
        self.next@
    }

    /// No channel was opened yet.
    pub fn new() -> (r: ChannelIds)
        ensures
            r.next() == 0,
    {
        ChannelIds { next: Ghost(0) }
    }

    /// Opens a channel and returns its two ends.
    pub fn open<T>(&mut self) -> (r: (Tx<T>, Rx<T>))
        ensures
            final(self).next() == old(self).next() + 1,
            one_channel(r.0, r.1),
            r.0.id() == old(self).next(),
            r.0.sent() == Seq::<T>::empty(),
            r.0.others() == 0,
            r.1.polled() == Seq::<Polled<T>>::empty(),
    {
        let (tx, rx) = crossbeam_unbounded();
        let ghost id = self.next@;
        self.next = Ghost(id + 1);
        (
            Tx { inner: tx, id: Ghost(id), sent: Ghost(Seq::empty()), others: Ghost(0) },
            Rx { inner: rx, id: Ghost(id), polled: Ghost(Seq::empty()) },
        )
    }
}

/// The two sides of one connection: each sends into the channel that the other receives from.
pub open spec fn linked<S, R>(near: DuplexChannel<S, R>, far: DuplexChannel<R, S>) -> bool {
    &&& one_channel(near.tx, far.rx)
    &&& one_channel(far.tx, near.rx)
}

/// Nothing went through this side yet, and it has no other sending end.
pub open spec fn unused<S, R>(side: DuplexChannel<S, R>) -> bool {
    &&& side.tx.sent() == Seq::<S>::empty()
    &&& side.tx.others() == 0
    &&& side.rx.polled() == Seq::<Polled<R>>::empty()
}

impl<S, R> DuplexChannel<S, R> {
    /// Makes a connection and returns its two sides.
    pub fn new_unbound_pair(ids: &mut ChannelIds) -> (r: (DuplexChannel<S, R>, DuplexChannel<R, S>))
        ensures
            linked(r.0, r.1),
            unused(r.0),
            unused(r.1),
            r.0.tx.id() == old(ids).next(),
            r.0.rx.id() == old(ids).next() + 1,
            final(ids).next() == old(ids).next() + 2,
    {
        let (near_tx, far_rx) = ids.open();
        let (far_tx, near_rx) = ids.open();
        (DuplexChannel { tx: near_tx, rx: near_rx }, DuplexChannel { tx: far_tx, rx: far_rx })
    }
}

/// Whoever is linked to a side is linked to by it.
pub proof fn linked_both_ways<S, R>(near: DuplexChannel<S, R>, far: DuplexChannel<R, S>)
    ensures
        linked(near, far) <==> linked(far, near),
{
}

/// Two ends that were opened together came out of one call of `crossbeam::channel::unbounded`.
proof fn ends_come_out_of_one_call<T>(tx: Tx<T>, rx: Rx<T>)
    requires
        opened_together(tx.channel(), rx.channel()),
    ensures
        call_ensures(crossbeam_unbounded::<T>, (), (tx.inner, rx.inner)),
{
}

/// A message that is sent goes into `crossbeam::channel::Sender::send` of the end's own channel, and
/// what comes back is what that call brought.
proof fn sending_calls_send<T>(tx: &mut Tx<T>, msg: T, r: Result<(), T>)
    requires
        call_ensures(Tx::<T>::send, (tx, msg), r),
    ensures
        call_ensures(crossbeam_send::<T>, (&old(tx).inner, msg), r),
        final(tx).inner == old(tx).inner,
{
}

/// A message was taken only if a call of `crossbeam::channel::Sender::send` with this message went
/// well, and came back only if such a call brought it back.
proof fn outcomes_are_those_of_send<T>(tx: Tx<T>, msg: T)
    ensures
        was_taken(tx.channel(), msg) ==> exists|r: Result<(), T>|
            r is Ok && #[trigger] call_ensures(crossbeam_send::<T>, (&tx.inner, msg), r),
        came_back(tx.channel(), msg) ==> call_ensures(
            crossbeam_send::<T>,
            (&tx.inner, msg),
            Err::<(), T>(msg),
        ),
{
    if was_taken(tx.channel(), msg) {
        let r = choose|r: Result<(), T>| r is Ok && #[trigger] handed_over(tx.channel(), msg, r);
        assert(call_ensures(crossbeam_send::<T>, (&tx.inner, msg), r));
    }
}

/// Another sending end comes out of `crossbeam::channel::Sender::clone` of the first, and stands for
/// the same channel.
proof fn another_end_is_a_clone<T>(tx: &mut Tx<T>, r: Tx<T>)
    requires
        call_ensures(Tx::<T>::another, (tx,), r),
    ensures
        r.inner == old(tx).inner,
        final(tx).inner == old(tx).inner,
{
}

/// A look for a message is a call of `crossbeam::channel::Receiver::try_recv` at the end's own
/// channel.
proof fn looking_calls_try_recv<T>(rx: &mut Rx<T>, r: Polled<T>)
    requires
        call_ensures(Rx::<T>::try_recv, (rx,), r),
    ensures
        call_ensures(crossbeam_try_recv::<T>, (&old(rx).inner,), r),
        final(rx).inner == old(rx).inner,
{
}

/// Waiting for a message is a call of `crossbeam::channel::Receiver::recv` at the end's own channel.
proof fn waiting_calls_recv<T>(rx: &mut Rx<T>, r: Polled<T>)
    requires
        call_ensures(Rx::<T>::recv, (rx,), r),
    ensures
        call_ensures(crossbeam_recv::<T>, (&old(rx).inner,), r),
        final(rx).inner == old(rx).inner,
{
}

/// The two ends of an opened channel came out of one call of `crossbeam::channel::unbounded`.
proof fn opening_calls_unbounded<T>(ids: &mut ChannelIds, r: (Tx<T>, Rx<T>))
    requires
        call_ensures(ChannelIds::open::<T>, (ids,), r),
    ensures
        call_ensures(crossbeam_unbounded::<T>, (), (r.0.inner, r.1.inner)),
{
}

} // verus!
