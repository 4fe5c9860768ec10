//! Laws of the channels: what an end is made from, and what a call does to it.
use vstd::prelude::*;

use crate::utils::duplex_chan::{
    found_at_once, found_waiting, handed_over, opened_together, ChannelIds, DuplexChannel, Polled,
    Rx, Tx,
};

verus! {

/// A message that is sent is handed to the channel as it is. It is on the record of the end exactly
/// if the channel took it; otherwise it comes back as it is.
pub proof fn messages_are_handed_over<T>(tx: &mut Tx<T>, msg: T, r: Result<(), T>, i: int)
    requires
        call_ensures(Tx::<T>::send, (tx, msg), r),
    ensures
        handed_over(old(tx).channel(), msg, r),
        r matches Err(back) ==> back == msg,
        final(tx).channel() == old(tx).channel(),
        final(tx).id() == old(tx).id(),
        final(tx).others() == old(tx).others(),
        r is Ok ==> final(tx).sent().len() == old(tx).sent().len() + 1,
        r is Ok ==> final(tx).sent()[old(tx).sent().len() as int] == msg,
        r is Err ==> final(tx).sent().len() == old(tx).sent().len(),
        0 <= i < old(tx).sent().len() ==> final(tx).sent()[i] == old(tx).sent()[i],
{
}

/// Another sending end leads to the same channel and starts with an empty record; the first one
/// keeps its own.
pub proof fn another_end_leads_to_the_same_channel<T>(tx: &mut Tx<T>, r: Tx<T>)
    requires
        call_ensures(Tx::<T>::another, (tx,), r),
    ensures
        r.channel() == old(tx).channel(),
        r.id() == old(tx).id(),
        r.sent().len() == 0,
        r.others() == 0,
        final(tx).channel() == old(tx).channel(),
        final(tx).id() == old(tx).id(),
        final(tx).sent() == old(tx).sent(),
        final(tx).others() == old(tx).others() + 1,
{
}

/// Looking for a message brings what the channel found, and puts it on the record.
pub proof fn looks_bring_what_the_channel_found<T>(rx: &mut Rx<T>, r: Polled<T>, i: int)
    requires
        call_ensures(Rx::<T>::try_recv, (rx,), r),
    ensures
        found_at_once(old(rx).channel(), r),
        final(rx).channel() == old(rx).channel(),
        final(rx).id() == old(rx).id(),
        final(rx).polled().len() == old(rx).polled().len() + 1,
        final(rx).polled()[old(rx).polled().len() as int] == r,
        0 <= i < old(rx).polled().len() ==> final(rx).polled()[i] == old(rx).polled()[i],
{
}

/// Waiting for a message brings what the channel found, and never nothing.
pub proof fn waits_bring_what_the_channel_found<T>(rx: &mut Rx<T>, r: Polled<T>, i: int)
    requires
        call_ensures(Rx::<T>::recv, (rx,), r),
    ensures
        found_waiting(old(rx).channel(), r),
        r is Message || r is Disconnected,
        final(rx).channel() == old(rx).channel(),
        final(rx).id() == old(rx).id(),
        final(rx).polled().len() == old(rx).polled().len() + 1,
        final(rx).polled()[old(rx).polled().len() as int] == r,
        0 <= i < old(rx).polled().len() ==> final(rx).polled()[i] == old(rx).polled()[i],
{
}

/// Numbers start at zero.
pub proof fn numbers_start_at_zero(r: ChannelIds)
    requires
        call_ensures(ChannelIds::new, (), r),
    ensures
        r.next() == 0,
{
}

/// A channel is opened with both of its ends, which have the next number and empty records.
pub proof fn channels_are_opened_with_both_ends<T>(ids: &mut ChannelIds, r: (Tx<T>, Rx<T>))
    requires
        call_ensures(ChannelIds::open::<T>, (ids,), r),
    ensures
        opened_together(r.0.channel(), r.1.channel()),
        r.0.id() == old(ids).next(),
        r.1.id() == old(ids).next(),
        final(ids).next() == old(ids).next() + 1,
        r.0.sent().len() == 0,
        r.0.others() == 0,
        r.1.polled().len() == 0,
{
}

/// Channels that are opened one after the other have different numbers.
pub proof fn channels_are_told_apart<T, U>(
    ids: &mut ChannelIds,
    first: (Tx<T>, Rx<T>),
    later: &mut ChannelIds,
    second: (Tx<U>, Rx<U>),
)
    requires
        call_ensures(ChannelIds::open::<T>, (ids,), first),
        old(later).next() >= final(ids).next(),
        call_ensures(ChannelIds::open::<U>, (later,), second),
    ensures
        first.0.id() != second.0.id(),
        first.1.id() != second.1.id(),
        first.0.id() != second.1.id(),
        first.1.id() != second.0.id(),
{
}

/// Each side of a connection sends into the channel that the other receives from, and nothing went
/// through either side. The two channels have different numbers.
pub proof fn connections_lead_both_ways<S, R>(
    ids: &mut ChannelIds,
    r: (DuplexChannel<S, R>, DuplexChannel<R, S>),
)
    requires
        call_ensures(DuplexChannel::<S, R>::new_unbound_pair, (ids,), r),
    ensures
        opened_together(r.0.tx.channel(), r.1.rx.channel()),
        opened_together(r.1.tx.channel(), r.0.rx.channel()),
        r.0.tx.id() == r.1.rx.id(),
        r.1.tx.id() == r.0.rx.id(),
        r.0.tx.id() != r.0.rx.id(),
        old(ids).next() <= r.0.tx.id() < final(ids).next(),
        old(ids).next() <= r.0.rx.id() < final(ids).next(),
        final(ids).next() == old(ids).next() + 2,
        r.0.tx.sent().len() == 0,
        r.0.rx.polled().len() == 0,
        r.1.tx.sent().len() == 0,
        r.1.rx.polled().len() == 0,
        r.0.tx.others() == 0,
        r.1.tx.others() == 0,
{
}

} // verus!
