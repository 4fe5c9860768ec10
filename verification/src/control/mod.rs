//! The control engine: starts the proxies and lets clients in.
use std::collections::HashMap;
use std::sync::Arc;

use vstd::prelude::*;

use crate::comm::{HostIdent, IpAddress, SocketAddress};
use crate::daemon::engine::{DaemonEngine, DaemonTypes};
use crate::daemon::DaemonId;
use crate::proxy::{
    ControlCommand, DeviceInfo, ProxyCommand, ProxyCompletion, ProxyResources, ProxyTypes,
    SharedRegistry,
};
use crate::registry::GlobalRegistry;
use crate::utils::duplex_chan::{
    came_back, linked, one_channel, unused, was_taken, ChannelIds, DuplexChannel, Polled, Rx, Tx,
};
use crate::utils::text::{decimal, decimal_text, joined};

pub mod selftest;

verus! {

/// The device to which the `k`-th of the peers of the proxy of the device `dev` belongs: all
/// devices but `dev`, in order.
pub open spec fn peer_device(dev: int, k: int) -> int {
    if k < dev {
        k
    } else {
        k + 1
    }
}

/// The proxy of the device `dev` hears `control`, and nothing was said yet.
pub open spec fn proxy_ready<S: ProxyTypes>(
    proxy: ProxyResources<S>,
    control: DuplexChannel<ControlCommand, S::ControlRequest>,
    dev: int,
    host: HostIdent,
    registry: SharedRegistry<S>,
) -> bool {
    &&& proxy.idle()
    &&& proxy.device_info == DeviceInfo { host, cuda_device_idx: dev as i32 }
    &&& linked(control, proxy.control_chan)
    &&& unused(control)
    &&& unused(proxy.control_chan)
    &&& proxy.daemon_tx@ == Map::<DaemonId, Tx<ProxyCompletion>>::empty()
    &&& proxy.daemon_rx@ == Seq::<(DaemonId, Rx<ProxyCommand>)>::empty()
    &&& proxy.proxy_peer_rx.polled() == Seq::<Polled<S::PeerMessage>>::empty()
    &&& proxy.global_registry == registry
}

/// The proxies of all devices hear the control engine, each through one of `controls`, and share
/// `registry`.
pub open spec fn all_ready<S: ProxyTypes>(
    proxies: Seq<ProxyResources<S>>,
    controls: Seq<DuplexChannel<ControlCommand, S::ControlRequest>>,
    host: HostIdent,
    registry: SharedRegistry<S>,
) -> bool {
    &&& proxies.len() == controls.len()
    &&& forall|dev: int|
        0 <= dev < proxies.len() ==> proxy_ready(
            #[trigger] proxies[dev],
            controls[dev],
            dev,
            host,
            registry,
        )
}

/// Each proxy has one way to each other proxy, in the order of the devices, and none to itself.
pub open spec fn peers_connected<S: ProxyTypes>(proxies: Seq<ProxyResources<S>>) -> bool {
    forall|dev: int|
        0 <= dev < proxies.len() ==> {
            let tx = (#[trigger] proxies[dev]).proxy_peer_tx@;
            &&& tx.len() == proxies.len() - 1
            &&& forall|k: int|
                0 <= k < tx.len() ==> {
                    &&& one_channel(#[trigger] tx[k], proxies[peer_device(dev, k)].proxy_peer_rx)
                    &&& tx[k].sent() == Seq::<S::PeerMessage>::empty()
                    &&& tx[k].others() == 0
                }
        }
}

/// No two of the channels between the proxies are the same.
pub open spec fn peers_distinct<S: ProxyTypes>(proxies: Seq<ProxyResources<S>>) -> bool {
    forall|a: int, b: int|
        0 <= a < b < proxies.len() ==> (#[trigger] proxies[a]).proxy_peer_rx.id() != (
        #[trigger] proxies[b]).proxy_peer_rx.id()
}

/// No two of the ways between the control engine and the proxies share a channel.
pub open spec fn controls_distinct<Q>(channels: Seq<DuplexChannel<ControlCommand, Q>>) -> bool {
    forall|a: int, b: int|
        #![trigger channels[a], channels[b]]
        0 <= a < channels.len() && 0 <= b < channels.len() && a != b ==> {
            &&& channels[a].tx.id() != channels[b].tx.id()
            &&& channels[a].rx.id() != channels[b].rx.id()
            &&& channels[a].tx.id() != channels[b].rx.id()
        }
}

/// Every channel in use has a number below `limit`.
pub open spec fn channels_below<Q>(
    channels: Seq<DuplexChannel<ControlCommand, Q>>,
    limit: nat,
) -> bool {
    forall|d: int|
        0 <= d < channels.len() ==> (#[trigger] channels[d]).tx.id() < limit
            && channels[d].rx.id() < limit
}

/// Opens one channel for the messages to each proxy.
fn open_peer_channels<M>(ids: &mut ChannelIds, device_cnt: usize) -> (r: (Vec<Tx<M>>, Vec<Rx<M>>))
    ensures
        final(ids).next() == old(ids).next() + device_cnt,
        r.0@.len() == device_cnt,
        r.1@.len() == device_cnt,
        forall|i: int|
            0 <= i < device_cnt ==> {
                &&& one_channel(#[trigger] r.0@[i], r.1@[i])
                &&& r.0@[i].id() == old(ids).next() + i
                &&& r.0@[i].sent() == Seq::<M>::empty()
                &&& r.1@[i].polled() == Seq::<Polled<M>>::empty()
            },
{
    let mut senders: Vec<Tx<M>> = Vec::new();
    let mut receivers: Vec<Rx<M>> = Vec::new();
    let mut i: usize = 0;
    while i < device_cnt
        invariant
            i <= device_cnt,
            ids.next() == old(ids).next() + i,
            senders@.len() == i,
            receivers@.len() == i,
            forall|k: int|
                0 <= k < i ==> {
                    &&& one_channel(#[trigger] senders@[k], receivers@[k])
                    &&& senders@[k].id() == old(ids).next() + k
                    &&& senders@[k].sent() == Seq::<M>::empty()
                    &&& receivers@[k].polled() == Seq::<Polled<M>>::empty()
                },
        decreases device_cnt - i,
    {
        let (sender, receiver) = ids.open();
        senders.push(sender);
        receivers.push(receiver);
        i += 1;
    }
    (senders, receivers)
}

/// The ways from the proxy of the device `dev` to the other proxies.
fn peer_senders<M>(senders: &mut Vec<Tx<M>>, dev: usize) -> (r: Vec<Tx<M>>)
    requires
        dev < old(senders)@.len(),
    ensures
        final(senders)@.len() == old(senders)@.len(),
        forall|i: int|
            0 <= i < final(senders)@.len() ==> {
                &&& (#[trigger] final(senders)@[i]).id() == old(senders)@[i].id()
                &&& final(senders)@[i].channel() == old(senders)@[i].channel()
            },
        r@.len() == old(senders)@.len() - 1,
        forall|k: int|
            0 <= k < r@.len() ==> {
                &&& (#[trigger] r@[k]).id() == old(senders)@[peer_device(dev as int, k)].id()
                &&& r@[k].channel() == old(senders)@[peer_device(dev as int, k)].channel()
                &&& r@[k].sent() == Seq::<M>::empty()
                &&& r@[k].others() == 0
            },
{
    let mut peers: Vec<Tx<M>> = Vec::new();
    let mut i: usize = 0;
    while i < senders.len()
        invariant
            i <= senders@.len(),
            dev < senders@.len() == old(senders)@.len(),
            forall|k: int|
                0 <= k < senders@.len() ==> {
                    &&& (#[trigger] senders@[k]).id() == old(senders)@[k].id()
                    &&& senders@[k].channel() == old(senders)@[k].channel()
                },
            peers@.len() == if i <= dev {
                i as int
            } else {
                i - 1
            },
            forall|k: int|
                0 <= k < peers@.len() ==> {
                    &&& (#[trigger] peers@[k]).id() == old(senders)@[peer_device(
                        dev as int,
                        k,
                    )].id()
                    &&& peers@[k].channel() == old(senders)@[peer_device(dev as int, k)].channel()
                    &&& peers@[k].sent() == Seq::<M>::empty()
                    &&& peers@[k].others() == 0
                },
        decreases senders@.len() - i,
    {
        if i != dev {
            peers.push(senders[i].another());
        }
        i += 1;
    }
    peers
}

/// Makes the proxies of `device_cnt` devices, connected with each other and with the control
/// engine. Devices do not come and go later, so all proxies are made at once.
pub fn create_proxies<S: ProxyTypes>(
    ids: &mut ChannelIds,
    registry: &SharedRegistry<S>,
    host: HostIdent,
    device_cnt: i32,
) -> (r: (Vec<DuplexChannel<ControlCommand, S::ControlRequest>>, Vec<ProxyResources<S>>))
    requires
        device_cnt >= 0,
    ensures
        r.0@.len() == device_cnt,
        r.1@.len() == device_cnt,
        all_ready(r.1@, r.0@, host, *registry),
        peers_connected(r.1@),
        peers_distinct(r.1@),
        controls_distinct(r.0@),
        final(ids).next() >= old(ids).next(),
        channels_below(r.0@, final(ids).next()),
{
    let n: usize = device_cnt as usize;
    let ghost first = ids.next();
    let (mut senders, mut receivers) = open_peer_channels(ids, n);
    let ghost inboxes = receivers@;
    let mut channels: Vec<DuplexChannel<ControlCommand, S::ControlRequest>> = Vec::new();
    let mut proxies: Vec<ProxyResources<S>> = Vec::new();
    let mut dev: usize = 0;
    while dev < n
        invariant
            dev <= n == device_cnt,
            senders@.len() == n,
            inboxes.len() == n,
            receivers@ == inboxes.skip(dev as int),
            forall|i: int|
                0 <= i < n ==> {
                    &&& one_channel(#[trigger] senders@[i], inboxes[i])
                    &&& senders@[i].id() == first + i
                    &&& inboxes[i].polled() == Seq::<Polled<S::PeerMessage>>::empty()
                },
            ids.next() == first + n + 2 * dev,
            channels@.len() == dev,
            proxies@.len() == dev,
            forall|d: int|
                0 <= d < dev ==> proxy_ready(
                    #[trigger] proxies@[d],
                    channels@[d],
                    d,
                    host,
                    *registry,
                ),
            forall|d: int|
                0 <= d < dev ==> {
                    &&& (#[trigger] channels@[d]).tx.id() == first + n + 2 * d
                    &&& channels@[d].rx.id() == first + n + 2 * d + 1
                },
            forall|d: int|
                0 <= d < dev ==> {
                    let tx = (#[trigger] proxies@[d]).proxy_peer_tx@;
                    &&& proxies@[d].proxy_peer_rx == inboxes[d]
                    &&& tx.len() == n - 1
                    &&& forall|k: int|
                        0 <= k < tx.len() ==> {
                            &&& (#[trigger] tx[k]).id() == senders@[peer_device(d, k)].id()
                            &&& tx[k].channel() == senders@[peer_device(d, k)].channel()
                            &&& tx[k].sent() == Seq::<S::PeerMessage>::empty()
                            &&& tx[k].others() == 0
                        }
                },
        decreases n - dev,
    {
        let proxy_peer_rx = receivers.remove(0);
        assert(one_channel(senders@[dev as int], inboxes[dev as int]));
        assert(receivers@ =~= inboxes.skip(dev + 1));
        let proxy_peer_tx = peer_senders(&mut senders, dev);
        let (local_side, proxy_side) = DuplexChannel::new_unbound_pair(ids);
        let proxy = ProxyResources::start(
            DeviceInfo { host, cuda_device_idx: dev as i32 },
            proxy_side,
            HashMap::new(),
            Vec::new(),
            proxy_peer_tx,
            proxy_peer_rx,
            Arc::clone(registry),
        );
        channels.push(local_side);
        proxies.push(proxy);
        dev += 1;
    }
    proof {
        assert forall|d: int| 0 <= d < proxies@.len() implies {
            let tx = (#[trigger] proxies@[d]).proxy_peer_tx@;
            forall|k: int|
                0 <= k < tx.len() ==> one_channel(
                    #[trigger] tx[k],
                    proxies@[peer_device(d, k)].proxy_peer_rx,
                )
        } by {
            let tx = proxies@[d].proxy_peer_tx@;
            assert forall|k: int| 0 <= k < tx.len() implies one_channel(
                #[trigger] tx[k],
                proxies@[peer_device(d, k)].proxy_peer_rx,
            ) by {
                let to = peer_device(d, k);
                assert(one_channel(senders@[to], inboxes[to]));
                assert(proxies@[to].proxy_peer_rx == inboxes[to]);
            }
        }
        assert forall|a: int, b: int| 0 <= a < b < proxies@.len() implies (
        #[trigger] proxies@[a]).proxy_peer_rx.id() != (#[trigger] proxies@[b]).proxy_peer_rx.id() by {
            assert(one_channel(senders@[a], inboxes[a]));
            assert(one_channel(senders@[b], inboxes[b]));
        }
    }
    (channels, proxies)
}

/// What the control engine is told about itself.
pub struct ControlConfig {
    /// What the names of the daemons' sockets begin with.
    pub mccs_daemon_basename: String,
}

/// Why a client is not let in.
#[derive(Clone, Copy, Debug, PartialEq, Eq, Structural)]
pub enum DispatchError {
    /// The client's socket has no name to answer to.
    UnnamedPeer,
    /// The proxy of this device is gone.
    ProxyGone(usize),
}

impl DispatchError {
    /// What the error says.
    pub open spec fn text(self) -> Seq<char> {
        match self {
            DispatchError::UnnamedPeer => "peer is unnamed, something is wrong"@,
            DispatchError::ProxyGone(dev) => "no proxy for device "@ + decimal_text(dev as nat),
        }
    }

    /// What the error says.
    pub fn message(&self) -> (r: String)
        ensures
            r@ == self.text(),
    {
        match self {
            DispatchError::UnnamedPeer => "peer is unnamed, something is wrong".to_owned(),
            DispatchError::ProxyGone(dev) => joined(
                "no proxy for device ",
                decimal(*dev as u64).as_str(),
            ),
        }
    }
}

/// Why there is no daemon for a client. `E` says why a connection with the client failed.
pub enum Refusal<E> {
    /// The connection with the client failed.
    NotAccepted(E),
    /// The daemon could not be connected with the proxies.
    NotConnected(DispatchError),
}

/// What came of listening for a message of a client.
#[derive(Clone, Copy, Debug, PartialEq, Eq, Structural)]
pub enum RecvOutcome {
    /// There was one; `credential` says whether it told who sent it.
    Received { credential: bool },
    /// There was none in time.
    WouldBlock,
    /// The socket failed.
    Failed,
}

/// What the control engine does next.
#[derive(Clone, Copy, Debug, PartialEq, Eq, Structural)]
pub enum LoopStep {
    /// See to the message, and listen again whatever comes of it.
    Dispatch,
    /// Listen again.
    Listen,
    /// Stop.
    Stop,
}

/// Decides whether the control engine listens for another message. `exiting` says whether the
/// service was told to stop.
pub fn before_recv(exiting: bool) -> (r: bool)
    ensures
        r == !exiting,
{
    !exiting
}

/// What the control engine does after it listened for a message. `exiting` says whether the service
/// was told to stop.
pub open spec fn step_after(outcome: RecvOutcome, exiting: bool) -> LoopStep {
    match outcome {
        RecvOutcome::Received { credential } => if credential {
            LoopStep::Dispatch
        } else {
            LoopStep::Listen
        },
        RecvOutcome::WouldBlock => LoopStep::Listen,
        RecvOutcome::Failed => if exiting {
            LoopStep::Stop
        } else {
            LoopStep::Listen
        },
    }
}

/// Decides what the control engine does after it listened for a message.
pub fn after_recv(outcome: RecvOutcome, exiting: bool) -> (r: LoopStep)
    ensures
        r == step_after(outcome, exiting),
{
    match outcome {
        RecvOutcome::Received { credential: true } => LoopStep::Dispatch,
        RecvOutcome::Failed if exiting => LoopStep::Stop,
        _ => LoopStep::Listen,
    }
}

/// The message that was received: the first `size` bytes of the buffer, and nothing that an earlier
/// message left behind them.
pub fn received(buf: &Vec<u8>, size: usize) -> (r: &[u8])
    requires
        size <= buf@.len(),
    ensures
        r@ == buf@.take(size as int),
{
    let r = vstd::slice::slice_subrange(buf.as_slice(), 0, size);
    assert(r@ =~= buf@.take(size as int));
    r
}

/// As long as the service was not told to stop, nothing that arrives and nothing that fails stops
/// the control engine; and a message without a credential is never seen to.
pub proof fn control_keeps_listening(outcome: RecvOutcome)
    ensures
        step_after(outcome, false) != LoopStep::Stop,
        forall|exiting: bool| #[trigger]
            step_after(outcome, exiting) == LoopStep::Dispatch <==> outcome
                == (RecvOutcome::Received { credential: true }),
{
}

/// A daemon as it starts: its name, and one way to each proxy.
pub struct DaemonLinks {
    pub id: DaemonId,
    pub proxy_chan: Vec<DuplexChannel<ProxyCommand, ProxyCompletion>>,
}

/// The control engine.
#[verifier::reject_recursive_types(S)]
pub struct Control<S: ProxyTypes> {
    pub config: ControlConfig,
    /// Number of daemons so far, which is also the name of the next one.
    pub daemon_cnt: DaemonId,
    /// One way to each proxy.
    pub proxy_channels: Vec<DuplexChannel<ControlCommand, S::ControlRequest>>,
    pub ids: ChannelIds,
}

/// How the devices name this host: by its loopback address, which serves as long as no other host
/// takes part.
pub fn local_host() -> (r: HostIdent)
    ensures
        r == HostIdent(SocketAddress { ip: IpAddress::V4(0x7f00_0001), port: 8000 }),
{
    HostIdent(SocketAddress { ip: IpAddress::V4(0x7f00_0001), port: 8000 })
}

/// A lower-case hexadecimal digit.
pub open spec fn is_hex_digit(c: char) -> bool {
    ('0' <= c && c <= '9') || ('a' <= c && c <= 'f')
}

/// The text of a random UUID: hexadecimal digits in groups of 8, 4, 4, 4 and 12, with the marks of
/// version 4.
pub open spec fn is_uuid_v4(text: Seq<char>) -> bool {
    &&& text.len() == 36
    &&& forall|i: int|
        0 <= i < 36 ==> if i == 8 || i == 13 || i == 18 || i == 23 {
            (#[trigger] text[i]) == '-'
        } else {
            is_hex_digit(text[i])
        }
    &&& text[14] == '4'
    &&& text[19] == '8' || text[19] == '9' || text[19] == 'a' || text[19] == 'b'
}

/// Calls `uuid::Uuid::new_v4` and takes the text that the UUID's `Display` gives: the hyphenated
/// form in lower case. Which UUID it is depends on chance. Without a source of randomness in the
/// operating system the call does not return.
#[verifier::external_body]
fn random_uuid() -> (r: String)
    ensures
        is_uuid_v4(r@),
{
    format!("{}", uuid::Uuid::new_v4())
}

/// `text` is a UUID that was drawn.
pub closed spec fn drawn_uuid(text: Seq<char>) -> bool {
    exists|uuid: String| #[trigger] call_ensures(random_uuid, (), uuid) && uuid@ == text
}

/// The name of the socket of a daemon.
pub open spec fn instance_name_text(basename: Seq<char>, uuid: Seq<char>) -> Seq<char> {
    basename + "-"@ + uuid + ".sock"@
}

/// The name of the socket of a daemon.
pub fn instance_name(basename: &str, uuid: &str) -> (r: String)
    ensures
        r@ == instance_name_text(basename@, uuid@),
{
    let mut name = joined(basename, "-");
    name.append(uuid);
    name.append(".sock");
    name
}

/// `after` is `before`, with a daemon announced to the proxy of the device `dev`; `side` leads from
/// the daemon to that proxy.
pub open spec fn daemon_announced<Q>(
    before: DuplexChannel<ControlCommand, Q>,
    after: DuplexChannel<ControlCommand, Q>,
    id: DaemonId,
    side: DuplexChannel<ProxyCommand, ProxyCompletion>,
) -> bool {
    &&& after.rx == before.rx
    &&& after.tx.id() == before.tx.id()
    &&& after.tx.channel() == before.tx.channel()
    &&& after.tx.others() == before.tx.others()
    &&& was_taken(before.tx.channel(), after.tx.sent().last())
    &&& after.tx.sent().len() == before.tx.sent().len() + 1
    &&& after.tx.sent().drop_last() == before.tx.sent()
    &&& match after.tx.sent().last() {
        ControlCommand::NewDaemon { id: named, chan } => {
            &&& named == id
            &&& linked(side, chan)
            &&& unused(side)
            &&& unused(chan)
        },
    }
}

/// `after` is `before`, with a daemon announced.
pub open spec fn some_daemon_announced<Q>(
    before: DuplexChannel<ControlCommand, Q>,
    after: DuplexChannel<ControlCommand, Q>,
    id: DaemonId,
) -> bool {
    exists|side: DuplexChannel<ProxyCommand, ProxyCompletion>| #[trigger]
        daemon_announced(before, after, id, side)
}

/// The announcement of a daemon was handed to `to` and came back.
pub open spec fn announcement_came_back(
    to: crossbeam::channel::Sender<ControlCommand>,
    id: DaemonId,
) -> bool {
    exists|command: ControlCommand| #[trigger]
        came_back(to, command) && match command {
            ControlCommand::NewDaemon { id: named, chan } => named == id,
        }
}

/// `after` is `before`, with a daemon announced to the proxies of the devices before `gone` and to
/// no other.
pub open spec fn announced_before<Q>(
    before: Seq<DuplexChannel<ControlCommand, Q>>,
    after: Seq<DuplexChannel<ControlCommand, Q>>,
    id: DaemonId,
    gone: int,
) -> bool {
    &&& forall|dev: int|
        0 <= dev < gone ==> some_daemon_announced(before[dev], #[trigger] after[dev], id)
    &&& forall|dev: int|
        gone <= dev < after.len() ==> {
            &&& (#[trigger] after[dev]).rx == before[dev].rx
            &&& after[dev].tx.id() == before[dev].tx.id()
            &&& after[dev].tx.channel() == before[dev].tx.channel()
            &&& after[dev].tx.others() == before[dev].tx.others()
            &&& after[dev].tx.sent() == before[dev].tx.sent()
        }
}

/// Decides what becomes of a daemon after it was announced to the proxy of the device `dev`; `sent`
/// is what came of sending the announcement.
pub fn after_announcement(dev: usize, sent: Result<(), ControlCommand>) -> (r: Result<
    (),
    DispatchError,
>)
    ensures
        match sent {
            Ok(_) => r is Ok,
            Err(_) => r == Err::<(), DispatchError>(DispatchError::ProxyGone(dev)),
        },
{
    match sent {
        Ok(()) => Ok(()),
        Err(_) => Err(DispatchError::ProxyGone(dev)),
    }
}

impl<S: ProxyTypes> Control<S> {
    /// The channels in use are among those that were opened.
    pub open spec fn wf(self) -> bool {
        channels_below(self.proxy_channels@, self.ids.next())
    }

    /// A daemon was named and connected with every proxy, through channels of its own; `links` is
    /// what the daemon holds.
    pub open spec fn registers(self, before: Self, links: DaemonLinks) -> bool {
        &&& links.id == before.daemon_cnt
        &&& self.daemon_cnt == before.daemon_cnt + 1
        &&& links.proxy_chan@.len() == before.proxy_channels@.len()
        &&& self.proxy_channels@.len() == before.proxy_channels@.len()
        &&& forall|dev: int|
            0 <= dev < links.proxy_chan@.len() ==> daemon_announced(
                before.proxy_channels@[dev],
                self.proxy_channels@[dev],
                links.id,
                #[trigger] links.proxy_chan@[dev],
            )
        &&& forall|dev: int|
            0 <= dev < links.proxy_chan@.len() ==> {
                &&& (#[trigger] links.proxy_chan@[dev]).tx.id() == before.ids.next() + 2 * dev
                &&& links.proxy_chan@[dev].rx.id() == before.ids.next() + 2 * dev + 1
            }
        &&& self.ids.next() == before.ids.next() + 2 * links.proxy_chan@.len()
    }

    /// No daemon was named, because its announcement to the proxy that `e` names came back; only the
    /// proxies before it have heard of one.
    pub open spec fn refuses(self, before: Self, e: DispatchError) -> bool {
        &&& self.daemon_cnt == before.daemon_cnt
        &&& self.ids.next() >= before.ids.next()
        &&& self.proxy_channels@.len() == before.proxy_channels@.len()
        &&& e matches DispatchError::ProxyGone(gone) && gone < before.proxy_channels@.len()
            && announced_before(
            before.proxy_channels@,
            self.proxy_channels@,
            before.daemon_cnt,
            gone as int,
        ) && announcement_came_back(
            before.proxy_channels@[gone as int].tx.channel(),
            before.daemon_cnt,
        )
    }

    /// The control engine of a host with `device_cnt` devices, and what its proxies start with. They
    /// share a fresh registry.
    pub fn new(
        config: ControlConfig,
        transport_delegator: S::Delegator,
        device_cnt: i32,
    ) -> (r: (Control<S>, Vec<ProxyResources<S>>))
        requires
            device_cnt >= 0,
        ensures
            r.0.wf(),
            r.0.config == config,
            r.0.daemon_cnt == 0,
            r.0.proxy_channels@.len() == device_cnt,
            r.1@.len() == device_cnt,
            exists|registry: SharedRegistry<S>| #[trigger]
                all_ready(
                    r.1@,
                    r.0.proxy_channels@,
                    HostIdent(SocketAddress { ip: IpAddress::V4(0x7f00_0001), port: 8000 }),
                    registry,
                ) && registry.fresh() && registry.transport_delegator == transport_delegator,
            peers_connected(r.1@),
            peers_distinct(r.1@),
            controls_distinct(r.0.proxy_channels@),
    {
        let mut ids = ChannelIds::new();
        let registry = GlobalRegistry::new(transport_delegator);
        let (proxy_channels, proxies) = create_proxies(&mut ids, &registry, local_host(), device_cnt);
        (Control { config, daemon_cnt: 0, proxy_channels, ids }, proxies)
    }

    /// Decides whether a client can be let in, and under which name its daemon will listen. `peer`
    /// is the name of the client's socket, if it has one.
    pub fn new_client<P>(&self, peer: Option<P>) -> (r: Result<(P, String), DispatchError>)
        ensures
            match peer {
                Some(path) => r matches Ok((client, name)) && client == path && exists|
                    uuid: Seq<char>,
                |
                    is_uuid_v4(uuid) && drawn_uuid(uuid) && name@ == #[trigger] instance_name_text(
                        self.config.mccs_daemon_basename@,
                        uuid,
                    ),
                None => r == Err::<(P, String), DispatchError>(DispatchError::UnnamedPeer),
            },
    {
        match peer {
            Some(path) => {
                let uuid = random_uuid();
                let name = instance_name(self.config.mccs_daemon_basename.as_str(), uuid.as_str());
                Ok((path, name))
            },
            None => Err(DispatchError::UnnamedPeer),
        }
    }

    /// Names a new daemon and connects it with every proxy.
    ///
    /// Where a proxy is gone, the proxies before it have heard of the daemon and its name is not
    /// used up.
    pub fn register_daemon(&mut self) -> (r: Result<DaemonLinks, DispatchError>)
        requires
            old(self).wf(),
            old(self).daemon_cnt < u64::MAX,
        ensures
            final(self).wf(),
            final(self).config == old(self).config,
            final(self).proxy_channels@.len() == old(self).proxy_channels@.len(),
            final(self).ids.next() >= old(self).ids.next(),
            match r {
                Ok(links) => final(self).registers(*old(self), links),
                Err(e) => final(self).refuses(*old(self), e),
            },
    {
        let daemon_id: DaemonId = self.daemon_cnt;
        let num_devices: usize = self.proxy_channels.len();
        let mut daemon_channels: Vec<DuplexChannel<ProxyCommand, ProxyCompletion>> = Vec::new();
        let mut dev: usize = 0;
        while dev < num_devices
            invariant
                dev <= num_devices == self.proxy_channels@.len(),
                num_devices == old(self).proxy_channels@.len(),
                channels_below(self.proxy_channels@, self.ids.next()),
                daemon_id == old(self).daemon_cnt,
                self.daemon_cnt == old(self).daemon_cnt,
                self.config == old(self).config,
                self.ids.next() == old(self).ids.next() + 2 * dev,
                daemon_channels@.len() == dev,
                forall|d: int|
                    0 <= d < dev ==> daemon_announced(
                        old(self).proxy_channels@[d],
                        self.proxy_channels@[d],
                        daemon_id,
                        #[trigger] daemon_channels@[d],
                    ),
                forall|d: int|
                    0 <= d < dev ==> {
                        &&& (#[trigger] daemon_channels@[d]).tx.id() == old(self).ids.next() + 2 * d
                        &&& daemon_channels@[d].rx.id() == old(self).ids.next() + 2 * d + 1
                    },
                forall|d: int|
                    dev <= d < num_devices ==> #[trigger] self.proxy_channels@[d]
                        == old(self).proxy_channels@[d],
            decreases num_devices - dev,
        {
            let (daemon_side, proxy_side) = DuplexChannel::new_unbound_pair(&mut self.ids);
            let command = ControlCommand::NewDaemon { id: daemon_id, chan: proxy_side };
            let ghost announcement = command;
            let sent = self.proxy_channels[dev].tx.send(command);
            match after_announcement(dev, sent) {
                Ok(()) => {},
                Err(e) => {
                    assert(came_back(old(self).proxy_channels@[dev as int].tx.channel(), announcement));
                    assert forall|d: int| 0 <= d < dev implies some_daemon_announced(
                        old(self).proxy_channels@[d],
                        #[trigger] self.proxy_channels@[d],
                        old(self).daemon_cnt,
                    ) by {
                        assert(daemon_announced(
                            old(self).proxy_channels@[d],
                            self.proxy_channels@[d],
                            daemon_id,
                            daemon_channels@[d],
                        ));
                    }
                    return Err(e);
                },
            }
            daemon_channels.push(daemon_side);
            assert(self.proxy_channels@[dev as int].tx.sent().drop_last()
                =~= old(self).proxy_channels@[dev as int].tx.sent());
            dev += 1;
        }
        self.daemon_cnt = self.daemon_cnt + 1;
        Ok(DaemonLinks { id: daemon_id, proxy_chan: daemon_channels })
    }

    /// Goes on with a client after it was asked to connect, and hands out its daemon. `accepted` is
    /// the connection with the client, or why there is none; without one nothing changes, and no
    /// proxy hears of a daemon.
    pub fn client_accepted<D: DaemonTypes, E>(
        &mut self,
        accepted: Result<D::Customer, E>,
    ) -> (r: Result<DaemonEngine<D>, Refusal<E>>)
        requires
            old(self).wf(),
            accepted is Ok ==> old(self).daemon_cnt < u64::MAX,
        ensures
            final(self).wf(),
            match accepted {
                Ok(connection) => match r {
                    Ok(daemon) => {
                        &&& daemon.idle()
                        &&& daemon.customer == connection
                        &&& final(self).config == old(self).config
                        &&& final(self).registers(*old(self), daemon.links())
                    },
                    Err(Refusal::NotAccepted(_)) => false,
                    Err(Refusal::NotConnected(e)) => {
                        &&& final(self).config == old(self).config
                        &&& final(self).refuses(*old(self), e)
                    },
                },
                Err(e) => {
                    &&& r == Err::<DaemonEngine<D>, Refusal<E>>(Refusal::NotAccepted(e))
                    &&& *final(self) == *old(self)
                },
            },
    {
        match accepted {
            Ok(customer) => match self.register_daemon() {
                Ok(links) => Ok(DaemonEngine::start(links, customer)),
                Err(e) => Err(Refusal::NotConnected(e)),
            },
            Err(e) => Err(Refusal::NotAccepted(e)),
        }
    }
}

/// A proxy reaches each other proxy in one way, and only one; and it has no way to itself.
pub proof fn one_way_to_each_peer<S: ProxyTypes>(
    proxies: Seq<ProxyResources<S>>,
    from: int,
    to: int,
)
    requires
        peers_connected(proxies),
        peers_distinct(proxies),
        0 <= from < proxies.len(),
        0 <= to < proxies.len(),
    ensures
        from != to ==> exists|k: int|
            0 <= k < proxies[from].proxy_peer_tx@.len() && one_channel(
                #[trigger] proxies[from].proxy_peer_tx@[k],
                proxies[to].proxy_peer_rx,
            ),
        forall|j: int, k: int|
            #![trigger proxies[from].proxy_peer_tx@[j], proxies[from].proxy_peer_tx@[k]]
            0 <= j < proxies[from].proxy_peer_tx@.len() && 0 <= k
                < proxies[from].proxy_peer_tx@.len() && proxies[from].proxy_peer_tx@[j].id()
                == proxies[from].proxy_peer_tx@[k].id() ==> j == k,
        forall|k: int|
            0 <= k < proxies[from].proxy_peer_tx@.len() ==> (
            #[trigger] proxies[from].proxy_peer_tx@[k]).id() != proxies[from].proxy_peer_rx.id(),
{
    let tx = proxies[from].proxy_peer_tx@;
    if from != to {
        let k = if to < from {
            to
        } else {
            to - 1
        };
        assert(one_channel(tx[k], proxies[to].proxy_peer_rx));
    }
    assert forall|j: int, k: int|
        #![trigger tx[j], tx[k]]
        0 <= j < tx.len() && 0 <= k < tx.len() && tx[j].id() == tx[k].id() implies j == k by {
        let a = proxies[peer_device(from, j)];
        let b = proxies[peer_device(from, k)];
        assert(a.proxy_peer_rx.id() == b.proxy_peer_rx.id());
    }
    assert forall|k: int| 0 <= k < tx.len() implies (#[trigger] tx[k]).id()
        != proxies[from].proxy_peer_rx.id() by {
        let other = proxies[peer_device(from, k)];
        assert(other.proxy_peer_rx.id() == tx[k].id());
    }
}

/// Two daemons, one registered some time after the other, have different names and share no
/// channel.
pub proof fn daemons_share_nothing<S: ProxyTypes>(
    before_first: Control<S>,
    after_first: Control<S>,
    first: DaemonLinks,
    before_second: Control<S>,
    after_second: Control<S>,
    second: DaemonLinks,
    a: int,
    b: int,
)
    requires
        after_first.registers(before_first, first),
        before_second.daemon_cnt >= after_first.daemon_cnt,
        before_second.ids.next() >= after_first.ids.next(),
        after_second.registers(before_second, second),
        0 <= a < first.proxy_chan@.len(),
        0 <= b < second.proxy_chan@.len(),
    ensures
        first.id < second.id,
        first.proxy_chan@[a].tx.id() != second.proxy_chan@[b].tx.id(),
        first.proxy_chan@[a].tx.id() != second.proxy_chan@[b].rx.id(),
        first.proxy_chan@[a].rx.id() != second.proxy_chan@[b].tx.id(),
        first.proxy_chan@[a].rx.id() != second.proxy_chan@[b].rx.id(),
{
}

/// What came of one client that asked for a daemon.
pub ghost enum Attempt {
    /// It got one.
    Registered(DaemonLinks),
    /// The daemon could not be connected with the proxies.
    NotConnected(DispatchError),
    /// The connection with the client failed.
    NotAccepted,
    /// The client's socket has no name.
    Unnamed,
}

impl<S: ProxyTypes> Control<S> {
    /// `attempt` brought the control engine from `before` to here.
    pub open spec fn attempted(self, before: Self, attempt: Attempt) -> bool {
        match attempt {
            Attempt::Registered(links) => self.registers(before, links),
            Attempt::NotConnected(e) => self.refuses(before, e),
            Attempt::NotAccepted => self == before,
            Attempt::Unnamed => self == before,
        }
    }
}

/// The daemons that clients got, in order.
pub open spec fn registered(attempts: Seq<Attempt>) -> Seq<DaemonLinks>
    decreases attempts.len(),
{
    if attempts.len() == 0 {
        Seq::empty()
    } else {
        match attempts.last() {
            Attempt::Registered(links) => registered(attempts.drop_last()).push(links),
            _ => registered(attempts.drop_last()),
        }
    }
}

/// However many clients ask, the daemons get consecutive names, in the order in which clients get
/// them; a client that gets none uses up no name. `states` are states of the control engine, with
/// one of `attempts` between each and the next. From the start on, the names are 0, 1, 2 and so on.
pub proof fn daemons_are_named_in_turn<S: ProxyTypes>(
    states: Seq<Control<S>>,
    attempts: Seq<Attempt>,
)
    requires
        states.len() == attempts.len() + 1,
        forall|i: int|
            0 <= i < attempts.len() ==> states[i + 1].attempted(states[i], #[trigger] attempts[i]),
    ensures
        states.last().daemon_cnt == states[0].daemon_cnt + registered(attempts).len(),
        forall|k: int|
            0 <= k < registered(attempts).len() ==> (#[trigger] registered(attempts)[k]).id
                == states[0].daemon_cnt + k,
    decreases attempts.len(),
{
    if attempts.len() > 0 {
        let earlier = attempts.drop_last();
        let then = states.drop_last();
        assert forall|i: int| 0 <= i < earlier.len() implies then[i + 1].attempted(
            then[i],
            #[trigger] earlier[i],
        ) by {
            assert(attempts[i] == earlier[i]);
        }
        daemons_are_named_in_turn(then, earlier);
        let last = attempts.len() - 1;
        assert(states[last + 1].attempted(states[last], attempts[last]));
    }
}

/// One turn of the control engine's loop: what it was told before it listened, what came of
/// listening, and what it was told by then; and what the buffer held after listening, with the size
/// of the message.
pub ghost struct Turn {
    pub exiting_before: bool,
    pub outcome: RecvOutcome,
    pub exiting_after: bool,
    pub buf: Seq<u8>,
    pub size: nat,
}

/// The control engine listens in this turn and goes on to the next.
pub open spec fn goes_on(turn: Turn) -> bool {
    !turn.exiting_before && step_after(turn.outcome, turn.exiting_after) != LoopStep::Stop
}

/// The control engine reaches the turn with the number `i`: no turn before it was the last.
pub open spec fn reaches(turns: Seq<Turn>, i: int) -> bool {
    &&& 0 <= i < turns.len()
    &&& forall|j: int| 0 <= j < i ==> goes_on(#[trigger] turns[j])
}

/// The numbers of the turns in which the control engine sees to a message, in order.
pub open spec fn dispatched(turns: Seq<Turn>) -> Seq<int>
    decreases turns.len(),
{
    if turns.len() == 0 {
        Seq::empty()
    } else {
        let last = turns.len() - 1;
        let earlier = dispatched(turns.drop_last());
        if reaches(turns, last) && !turns[last].exiting_before && step_after(
            turns[last].outcome,
            turns[last].exiting_after,
        ) == LoopStep::Dispatch {
            earlier.push(last)
        } else {
            earlier
        }
    }
}

/// Of all that arrives while the control engine listens, exactly the messages with a credential are
/// seen to, each once and in the order in which they arrived.
pub proof fn credentialed_messages_are_dispatched(turns: Seq<Turn>)
    ensures
        forall|i: int|
            #[trigger] dispatched(turns).contains(i) <==> reaches(turns, i) && !turns[i].exiting_before
                && turns[i].outcome == (RecvOutcome::Received { credential: true }),
        forall|a: int, b: int|
            0 <= a < b < dispatched(turns).len() ==> (#[trigger] dispatched(turns)[a]) < (
            #[trigger] dispatched(turns)[b]),
    decreases turns.len(),
{
    if turns.len() > 0 {
        let last = turns.len() - 1;
        let then = turns.drop_last();
        let earlier = dispatched(then);
        let now = dispatched(turns);
        credentialed_messages_are_dispatched(then);
        assert forall|i: int| 0 <= i < last implies reaches(then, i) == reaches(turns, i) by {
            if reaches(then, i) {
                assert forall|j: int| 0 <= j < i implies goes_on(#[trigger] turns[j]) by {
                    assert(goes_on(then[j]));
                }
            }
            if reaches(turns, i) {
                assert forall|j: int| 0 <= j < i implies goes_on(#[trigger] then[j]) by {
                    assert(goes_on(turns[j]));
                }
            }
        }
        assert forall|k: int| 0 <= k < earlier.len() implies 0 <= #[trigger] earlier[k] < last by {
            assert(earlier.contains(earlier[k]));
        }
        assert forall|i: int|
            #[trigger] now.contains(i) <==> reaches(turns, i) && !turns[i].exiting_before
                && turns[i].outcome == (RecvOutcome::Received { credential: true }) by {
            if 0 <= i < last {
                assert(earlier.contains(i) <==> reaches(then, i) && !then[i].exiting_before
                    && then[i].outcome == (RecvOutcome::Received { credential: true }));
                if now.contains(i) {
                    let k = choose|k: int| 0 <= k < now.len() && now[k] == i;
                    assert(k < earlier.len());
                    assert(earlier[k] == i);
                }
                if earlier.contains(i) {
                    let k = choose|k: int| 0 <= k < earlier.len() && earlier[k] == i;
                    assert(now[k] == i);
                }
            } else if i == last {
                if now.len() > earlier.len() {
                    assert(now[earlier.len() as int] == last);
                }
                if now.contains(i) {
                    let k = choose|k: int| 0 <= k < now.len() && now[k] == i;
                    assert(k >= earlier.len());
                }
            } else if now.contains(i) {
                let k = choose|k: int| 0 <= k < now.len() && now[k] == i;
                if k < earlier.len() {
                    assert(earlier[k] == i);
                }
            }
        }
    }
}

/// The messages that the control engine sees to, in order.
pub open spec fn dispatched_messages(turns: Seq<Turn>) -> Seq<Seq<u8>> {
    dispatched(turns).map_values(|i: int| turns[i].buf.take(turns[i].size as int))
}

/// The control engine's loop as a whole. Of all that arrives while it listens, exactly the messages
/// with a credential are seen to, in order and once each, as the bytes that were received and no
/// others; whatever else arrives changes nothing. And the number of daemons grows by the number of
/// messages that brought a client a daemon. `states` are the states of the control engine, with one
/// of `attempts` between each and the next, one for each message that is seen to.
pub proof fn control_loop_serves_clients<S: ProxyTypes>(
    turns: Seq<Turn>,
    states: Seq<Control<S>>,
    attempts: Seq<Attempt>,
)
    requires
        forall|i: int| 0 <= i < turns.len() ==> (#[trigger] turns[i]).size <= turns[i].buf.len(),
        attempts.len() == dispatched(turns).len(),
        states.len() == attempts.len() + 1,
        forall|i: int|
            0 <= i < attempts.len() ==> states[i + 1].attempted(states[i], #[trigger] attempts[i]),
    ensures
        forall|i: int| #[trigger]
            dispatched(turns).contains(i) <==> reaches(turns, i) && !turns[i].exiting_before
                && turns[i].outcome == (RecvOutcome::Received { credential: true }),
        forall|a: int, b: int|
            0 <= a < b < dispatched(turns).len() ==> (#[trigger] dispatched(turns)[a]) < (
            #[trigger] dispatched(turns)[b]),
        dispatched_messages(turns).len() == dispatched(turns).len(),
        forall|k: int|
            0 <= k < dispatched(turns).len() ==> {
                let turn = turns[#[trigger] dispatched(turns)[k]];
                &&& dispatched_messages(turns)[k] == turn.buf.take(turn.size as int)
                &&& dispatched_messages(turns)[k].len() == turn.size
            },
        states.last().daemon_cnt == states[0].daemon_cnt + registered(attempts).len(),
{
    credentialed_messages_are_dispatched(turns);
    daemons_are_named_in_turn(states, attempts);
    assert forall|k: int| 0 <= k < dispatched(turns).len() implies {
        let turn = turns[#[trigger] dispatched(turns)[k]];
        dispatched_messages(turns)[k].len() == turn.size
    } by {
        let i = dispatched(turns)[k];
        assert(dispatched(turns).contains(i));
        assert(turns[i].size <= turns[i].buf.len());
    }
}

/// A text that was drawn as a UUID is what `uuid::Uuid::new_v4` gave.
proof fn uuids_are_drawn(text: Seq<char>)
    requires
        drawn_uuid(text),
    ensures
        exists|uuid: String| #[trigger] call_ensures(random_uuid, (), uuid) && uuid@ == text,
{
}

} // verus!
