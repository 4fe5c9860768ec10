//! Laws of the control engine and of what it starts.
use std::sync::Arc;

use vstd::prelude::*;

use crate::comm::{HostIdent, IpAddress};
use crate::control::{
    after_announcement, after_recv, before_recv, create_proxies, instance_name, local_host,
    received, Control, ControlConfig, DaemonLinks, DispatchError, LoopStep, RecvOutcome, Refusal,
};
use crate::daemon::engine::{DaemonEngine, DaemonTypes};
use crate::daemon::DaemonId;
use crate::laws::text::{lemma_decimal_reads, reads_as};
use crate::proxy::{
    ControlCommand, DeviceInfo, ProxyCommand, ProxyCompletion, ProxyResources, ProxyTypes,
    SharedRegistry,
};
use crate::registry::{shm_transport_config, starts_empty, GlobalRegistry};
use crate::transport::shm::config::{ShmConfig, ShmLocality};
use crate::utils::duplex_chan::{
    came_back, opened_together, was_taken, ChannelIds, DuplexChannel, Rx, Tx,
};

verus! {

/// The control engine listens again exactly if it was not told to stop.
pub proof fn listening_ends_when_told(exiting: bool, r: bool)
    requires
        call_ensures(before_recv, (exiting,), r),
    ensures
        r <==> !exiting,
{
}

/// A message is seen to exactly if it came with a credential; the loop ends early exactly if the
/// socket failed and the service was told to stop.
pub proof fn outcomes_decide_the_next_step(outcome: RecvOutcome, exiting: bool, r: LoopStep)
    requires
        call_ensures(after_recv, (outcome, exiting), r),
    ensures
        r is Dispatch <==> outcome == (RecvOutcome::Received { credential: true }),
        r is Stop <==> outcome is Failed && exiting,
        r is Listen <==> !(r is Dispatch) && !(r is Stop),
{
}

/// A received message is the first bytes of the buffer, as many as were received.
pub proof fn received_bytes_are_the_first(buf: Vec<u8>, size: usize, r: &[u8])
    requires
        size <= buf@.len(),
        call_ensures(received, (&buf, size), r),
    ensures
        r@.len() == size,
        forall|i: int| 0 <= i < size ==> #[trigger] r@[i] == buf@[i],
{
}

/// The text is the base name, a hyphen, the name that tells daemons apart, and the ending of a
/// socket's name.
pub open spec fn names_a_socket(text: Seq<char>, basename: Seq<char>, uuid: Seq<char>) -> bool {
    let from = basename.len() + 1;
    &&& text.len() == from + uuid.len() + 5
    &&& text.take(basename.len() as int) == basename
    &&& text[basename.len() as int] == '-'
    &&& text.subrange(from as int, (from + uuid.len()) as int) == uuid
    &&& text.skip((from + uuid.len()) as int) == seq!['.', 's', 'o', 'c', 'k']
}

/// What the contracts call the name of a daemon's socket names a socket.
proof fn lemma_names_a_socket(text: Seq<char>, basename: Seq<char>, uuid: Seq<char>)
    requires
        text == basename + "-"@ + uuid + ".sock"@,
    ensures
        names_a_socket(text, basename, uuid),
{
    reveal_strlit("-");
    reveal_strlit(".sock");
    let from = (basename.len() + 1) as int;
    assert(text.take(basename.len() as int) =~= basename);
    assert(text.subrange(from, from + uuid.len()) =~= uuid);
    assert(text.skip(from + uuid.len()) =~= seq!['.', 's', 'o', 'c', 'k']);
}

/// The name of a daemon's socket keeps the base name and the daemon's own part.
pub proof fn socket_names_keep_their_parts(basename: &str, uuid: &str, r: String)
    requires
        call_ensures(instance_name, (basename, uuid), r),
    ensures
        names_a_socket(r@, basename@, uuid@),
{
    lemma_names_a_socket(r@, basename@, uuid@);
}

/// A client is let in exactly if its socket has a name, which is kept; its daemon listens under the
/// configured base name with a random UUID.
pub proof fn named_clients_are_let_in<S: ProxyTypes, P>(
    control: Control<S>,
    peer: Option<P>,
    r: Result<(P, String), DispatchError>,
)
    requires
        call_ensures(Control::<S>::new_client::<P>, (&control, peer), r),
    ensures
        peer is None <==> r == Err::<(P, String), DispatchError>(DispatchError::UnnamedPeer),
        peer matches Some(path) ==> r matches Ok((client, name)) && client == path && exists|
            uuid: Seq<char>,
        | #[trigger]
            names_a_socket(name@, control.config.mccs_daemon_basename@, uuid) && uuid.len() == 36
                && uuid[8] == '-' && uuid[13] == '-' && uuid[14] == '4' && uuid[18] == '-'
                && uuid[23] == '-' && crate::control::drawn_uuid(uuid),
{
    if let Some(path) = peer {
        let name = r->Ok_0.1;
        let uuid = choose|uuid: Seq<char>|
            crate::control::is_uuid_v4(uuid) && crate::control::drawn_uuid(uuid) && name@
                == #[trigger] crate::control::instance_name_text(
                control.config.mccs_daemon_basename@,
                uuid,
            );
        lemma_names_a_socket(name@, control.config.mccs_daemon_basename@, uuid);
        assert(names_a_socket(name@, control.config.mccs_daemon_basename@, uuid));
    }
}

/// What a client hears when it is not let in: that it has no name, or the number of the device whose
/// proxy is gone.
pub proof fn refusals_say_why(e: DispatchError, r: String)
    requires
        call_ensures(DispatchError::message, (&e,), r),
    ensures
        e is UnnamedPeer ==> r@ == "peer is unnamed, something is wrong"@,
        e matches DispatchError::ProxyGone(dev) ==> {
            let front = "no proxy for device "@;
            &&& r@.len() > front.len()
            &&& r@.take(front.len() as int) == front
            &&& reads_as(r@.skip(front.len() as int), dev as int)
        },
{
    if let DispatchError::ProxyGone(dev) = e {
        let front = "no proxy for device "@;
        let number = crate::utils::text::decimal_text(dev as nat);
        lemma_decimal_reads(dev as nat);
        assert(r@.take(front.len() as int) =~= front);
        assert(r@.skip(front.len() as int) =~= number);
    }
}

/// The host is named by 127.0.0.1 and port 8000.
pub open spec fn is_this_host(host: HostIdent) -> bool {
    &&& host.0.ip matches IpAddress::V4(ip) && ip == 127 * 0x100_0000 + 1
    &&& host.0.port == 8000
}

/// The devices name this host by its loopback address.
pub proof fn the_host_is_this_one(r: HostIdent)
    requires
        call_ensures(local_host, (), r),
    ensures
        is_this_host(r),
{
}

/// The settings of the transport through shared memory: the sender's memory, without copies.
pub open spec fn keeps_buffers_at_the_sender(config: ShmConfig) -> bool {
    &&& config.locality == ShmLocality::Sender
    &&& !config.use_memcpy_send
    &&& !config.use_memcpy_recv
}

/// The transport through shared memory is known by its name and keeps its buffers at the sender.
pub proof fn shared_memory_is_set_up(r: (String, ShmConfig))
    requires
        call_ensures(shm_transport_config, (), r),
    ensures
        r.0@ == "ShmTransport"@,
        keeps_buffers_at_the_sender(r.1),
{
}

/// A registry without communicators and with one transport.
pub open spec fn is_new_registry<C, D>(registry: GlobalRegistry<C, D>, delegator: D) -> bool {
    &&& starts_empty(registry.communicators)
    &&& registry.transport_delegator == delegator
    &&& forall|name: Seq<char>| #[trigger]
        registry.transport_catalog@.contains_key(name) <==> name == "ShmTransport"@
    &&& keeps_buffers_at_the_sender(registry.transport_catalog@["ShmTransport"@])
}

/// A registry starts without communicators, and with the transport through shared memory and no
/// other.
pub proof fn registries_start_alike<C, D>(delegator: D, r: Arc<GlobalRegistry<C, D>>)
    requires
        call_ensures(GlobalRegistry::<C, D>::new, (delegator,), r),
    ensures
        is_new_registry(*r, delegator),
{
}

/// Each side sends into the channel that the other receives from.
pub open spec fn joined<S, R>(near: DuplexChannel<S, R>, far: DuplexChannel<R, S>) -> bool {
    &&& opened_together(near.tx.channel(), far.rx.channel())
    &&& opened_together(far.tx.channel(), near.rx.channel())
}

/// Nothing was sent or looked for, and there is no other sending end.
pub open spec fn untouched<S, R>(side: DuplexChannel<S, R>) -> bool {
    &&& side.tx.sent().len() == 0
    &&& side.tx.others() == 0
    &&& side.rx.polled().len() == 0
}

/// The proxy belongs to the device `dev` of this host, has no communicators, no transport engines and
/// no daemons, and hears `control`.
pub open spec fn starts_on<S: ProxyTypes>(
    proxy: ProxyResources<S>,
    control: DuplexChannel<ControlCommand, S::ControlRequest>,
    host: HostIdent,
    dev: int,
) -> bool {
    &&& proxy.device_info.host == host
    &&& proxy.device_info.cuda_device_idx as int == dev
    &&& joined(control, proxy.control_chan)
    &&& untouched(control)
    &&& untouched(proxy.control_chan)
    &&& proxy.proxy_peer_rx.polled().len() == 0
    &&& has_nothing_yet(proxy)
    &&& forall|id: DaemonId| !(#[trigger] proxy.daemon_tx@.contains_key(id))
    &&& proxy.daemon_rx@.len() == 0
}

/// The proxy has no communicators and no transport engines.
pub open spec fn has_nothing_yet<S: ProxyTypes>(proxy: ProxyResources<S>) -> bool {
    &&& proxy.comms_init@.dom() =~= Set::empty()
    &&& proxy.communicators@.dom() =~= Set::empty()
    &&& proxy.transport_engines_tx@.dom() =~= Set::empty()
    &&& proxy.transport_engines_rx@.len() == 0
    &&& proxy.transport_submission_pool@.dom() =~= Set::empty()
}

/// The proxy of the device `from` reaches that of the device `to` through the end that stands at the
/// place of `to` among all devices but `from`.
pub open spec fn reaches_peer<S: ProxyTypes>(
    proxies: Seq<ProxyResources<S>>,
    from: int,
    to: int,
) -> bool {
    let tx = proxies[from].proxy_peer_tx@;
    let place = if to < from {
        to
    } else {
        to - 1
    };
    &&& tx.len() == proxies.len() - 1
    &&& opened_together(tx[place].channel(), proxies[to].proxy_peer_rx.channel())
    &&& tx[place].id() == proxies[to].proxy_peer_rx.id()
    &&& tx[place].sent().len() == 0
    &&& tx[place].others() == 0
}

/// The proxies of a host: one for each device, connected with the control engine and with each
/// other.
pub open spec fn are_the_proxies_of<S: ProxyTypes>(
    proxies: Seq<ProxyResources<S>>,
    controls: Seq<DuplexChannel<ControlCommand, S::ControlRequest>>,
    host: HostIdent,
    device_cnt: int,
) -> bool {
    &&& proxies.len() == device_cnt
    &&& controls.len() == device_cnt
    &&& forall|dev: int|
        0 <= dev < device_cnt ==> starts_on(#[trigger] proxies[dev], controls[dev], host, dev)
    &&& forall|from: int, to: int|
        0 <= from < device_cnt && 0 <= to < device_cnt && from != to ==> #[trigger] reaches_peer(
            proxies,
            from,
            to,
        )
    &&& forall|from: int|
        0 <= from < device_cnt ==> (#[trigger] proxies[from]).proxy_peer_tx@.len() == device_cnt - 1
    &&& forall|a: int, b: int|
        0 <= a < b < device_cnt ==> (#[trigger] proxies[a]).proxy_peer_rx.id() != (
        #[trigger] proxies[b]).proxy_peer_rx.id()
    &&& forall|a: int, b: int|
        0 <= a < device_cnt && 0 <= b < device_cnt && a != b ==> {
            &&& (#[trigger] controls[a]).tx.id() != (#[trigger] controls[b]).tx.id()
            &&& controls[a].rx.id() != controls[b].rx.id()
            &&& controls[a].tx.id() != controls[b].rx.id()
        }
}

/// From the contracts' own account of the proxies to the plain one.
proof fn lemma_proxies<S: ProxyTypes>(
    proxies: Seq<ProxyResources<S>>,
    controls: Seq<DuplexChannel<ControlCommand, S::ControlRequest>>,
    host: HostIdent,
    registry: SharedRegistry<S>,
    device_cnt: i32,
)
    requires
        proxies.len() == device_cnt,
        controls.len() == device_cnt,
        crate::control::all_ready(proxies, controls, host, registry),
        crate::control::peers_connected(proxies),
        crate::control::peers_distinct(proxies),
        crate::control::controls_distinct(controls),
    ensures
        are_the_proxies_of(proxies, controls, host, device_cnt as int),
        forall|dev: int|
            0 <= dev < device_cnt ==> (#[trigger] proxies[dev]).global_registry == registry,
{
    assert forall|dev: int| 0 <= dev < device_cnt implies starts_on(
        #[trigger] proxies[dev],
        controls[dev],
        host,
        dev,
    ) && proxies[dev].global_registry == registry by {
        assert(crate::control::proxy_ready(proxies[dev], controls[dev], dev, host, registry));
    }
    assert forall|from: int, to: int|
        0 <= from < device_cnt && 0 <= to < device_cnt && from != to implies #[trigger] reaches_peer(
        proxies,
        from,
        to,
    ) by {
        let tx = proxies[from].proxy_peer_tx@;
        let place = if to < from {
            to
        } else {
            to - 1
        };
        assert(crate::control::peer_device(from, place) == to);
        assert(crate::utils::duplex_chan::one_channel(tx[place], proxies[to].proxy_peer_rx));
    }
}

/// The proxies are made as the host has devices, and share the registry that was given.
pub proof fn proxies_are_made<S: ProxyTypes>(
    ids: &mut ChannelIds,
    registry: SharedRegistry<S>,
    host: HostIdent,
    device_cnt: i32,
    r: (Vec<DuplexChannel<ControlCommand, S::ControlRequest>>, Vec<ProxyResources<S>>),
)
    requires
        device_cnt >= 0,
        call_ensures(create_proxies::<S>, (ids, &registry, host, device_cnt), r),
    ensures
        are_the_proxies_of(r.1@, r.0@, host, device_cnt as int),
        forall|dev: int|
            0 <= dev < device_cnt ==> (#[trigger] r.1@[dev]).global_registry == registry,
        forall|dev: int|
            0 <= dev < device_cnt ==> (#[trigger] r.0@[dev]).tx.id() < final(ids).next()
                && r.0@[dev].rx.id() < final(ids).next(),
{
    lemma_proxies(r.1@, r.0@, host, registry, device_cnt);
}

/// The control engine starts with the configuration that it was given, without daemons, and with the
/// proxies of this host, which share one new registry.
pub proof fn control_starts<S: ProxyTypes>(
    config: ControlConfig,
    delegator: S::Delegator,
    device_cnt: i32,
    r: (Control<S>, Vec<ProxyResources<S>>),
)
    requires
        device_cnt >= 0,
        call_ensures(Control::<S>::new, (config, delegator, device_cnt), r),
    ensures
        r.0.config == config,
        r.0.daemon_cnt == 0,
        exists|host: HostIdent|
            is_this_host(host) && #[trigger] are_the_proxies_of(
                r.1@,
                r.0.proxy_channels@,
                host,
                device_cnt as int,
            ),
        forall|dev: int|
            0 <= dev < device_cnt ==> is_new_registry(
                *(#[trigger] r.1@[dev]).global_registry,
                delegator,
            ),
        forall|a: int, b: int|
            0 <= a < device_cnt && 0 <= b < device_cnt ==> (#[trigger] r.1@[a]).global_registry == (
            #[trigger] r.1@[b]).global_registry,
        forall|dev: int|
            0 <= dev < device_cnt ==> (#[trigger] r.0.proxy_channels@[dev]).tx.id()
                < r.0.ids.next() && r.0.proxy_channels@[dev].rx.id() < r.0.ids.next(),
{
    let host = HostIdent(
        crate::comm::SocketAddress { ip: IpAddress::V4(0x7f00_0001), port: 8000 },
    );
    let registry = choose|registry: SharedRegistry<S>| #[trigger]
        crate::control::all_ready(r.1@, r.0.proxy_channels@, host, registry) && registry.fresh()
            && registry.transport_delegator == delegator;
    lemma_proxies(r.1@, r.0.proxy_channels@, host, registry, device_cnt);
    assert(is_new_registry(*registry, delegator));
}

/// The command that was sent last announces the daemon `id`; `side` is the daemon's side of what it
/// hands over.
pub open spec fn announces<Q>(
    before: DuplexChannel<ControlCommand, Q>,
    after: DuplexChannel<ControlCommand, Q>,
    id: DaemonId,
    side: DuplexChannel<ProxyCommand, ProxyCompletion>,
) -> bool {
    let command = after.tx.sent().last();
    &&& same_ends(before, after)
    &&& after.tx.sent() == before.tx.sent().push(command)
    &&& was_taken(before.tx.channel(), command)
    &&& announced_id(command) == id
    &&& joined(side, announced_side(command))
    &&& untouched(side)
    &&& untouched(announced_side(command))
}

/// The command that was sent last announces the daemon `id`.
pub open spec fn announces_some<Q>(
    before: DuplexChannel<ControlCommand, Q>,
    after: DuplexChannel<ControlCommand, Q>,
    id: DaemonId,
) -> bool {
    exists|side: DuplexChannel<ProxyCommand, ProxyCompletion>| #[trigger]
        announces(before, after, id, side)
}

/// The name of the daemon that a command announces.
pub open spec fn announced_id(command: ControlCommand) -> DaemonId {
    match command {
        ControlCommand::NewDaemon { id, chan } => id,
    }
}

/// The proxy's side of the way to the daemon that a command announces.
pub open spec fn announced_side(command: ControlCommand) -> DuplexChannel<
    ProxyCompletion,
    ProxyCommand,
> {
    match command {
        ControlCommand::NewDaemon { id, chan } => chan,
    }
}

/// The same ends of the same channels, what was sent aside.
pub open spec fn same_ends<Q>(
    before: DuplexChannel<ControlCommand, Q>,
    after: DuplexChannel<ControlCommand, Q>,
) -> bool {
    &&& after.rx == before.rx
    &&& after.tx.id() == before.tx.id()
    &&& after.tx.channel() == before.tx.channel()
    &&& after.tx.others() == before.tx.others()
}

/// A daemon got the next name, and every proxy heard of it, once, under that name, with the other
/// side of the daemon's way to it.
pub open spec fn lets_in<S: ProxyTypes>(
    before: Control<S>,
    after: Control<S>,
    links: DaemonLinks,
) -> bool {
    &&& links.id == before.daemon_cnt
    &&& after.daemon_cnt == before.daemon_cnt + 1
    &&& after.proxy_channels@.len() == before.proxy_channels@.len()
    &&& links.proxy_chan@.len() == before.proxy_channels@.len()
    &&& forall|dev: int|
        0 <= dev < links.proxy_chan@.len() ==> announces(
            before.proxy_channels@[dev],
            after.proxy_channels@[dev],
            links.id,
            #[trigger] links.proxy_chan@[dev],
        )
    &&& forall|a: int, b: int|
        0 <= a < links.proxy_chan@.len() && 0 <= b < links.proxy_chan@.len() && a != b ==> {
            &&& (#[trigger] links.proxy_chan@[a]).tx.id() != (
            #[trigger] links.proxy_chan@[b]).tx.id()
            &&& links.proxy_chan@[a].rx.id() != links.proxy_chan@[b].rx.id()
        }
    &&& forall|dev: int|
        0 <= dev < links.proxy_chan@.len() ==> {
            &&& before.ids.next() <= (#[trigger] links.proxy_chan@[dev]).tx.id() < after.ids.next()
            &&& before.ids.next() <= links.proxy_chan@[dev].rx.id() < after.ids.next()
        }
}

/// No daemon got a name: its announcement to the proxy of the device `gone` came back, the proxies
/// before that one heard of it, and the others did not.
pub open spec fn stops_at<S: ProxyTypes>(before: Control<S>, after: Control<S>, gone: int) -> bool {
    &&& 0 <= gone < before.proxy_channels@.len()
    &&& after.daemon_cnt == before.daemon_cnt
    &&& after.ids.next() >= before.ids.next()
    &&& after.proxy_channels@.len() == before.proxy_channels@.len()
    &&& exists|command: ControlCommand|
        announced_id(command) == before.daemon_cnt && #[trigger] came_back(
            before.proxy_channels@[gone].tx.channel(),
            command,
        )
    &&& forall|dev: int|
        0 <= dev < gone ==> announces_some(
            before.proxy_channels@[dev],
            #[trigger] after.proxy_channels@[dev],
            before.daemon_cnt,
        )
    &&& forall|dev: int|
        gone <= dev < after.proxy_channels@.len() ==> {
            &&& same_ends(before.proxy_channels@[dev], #[trigger] after.proxy_channels@[dev])
            &&& after.proxy_channels@[dev].tx.sent() == before.proxy_channels@[dev].tx.sent()
        }
}

/// From the contracts' own account of an announcement to the plain one.
proof fn lemma_announces<Q>(
    before: DuplexChannel<ControlCommand, Q>,
    after: DuplexChannel<ControlCommand, Q>,
    id: DaemonId,
    side: DuplexChannel<ProxyCommand, ProxyCompletion>,
)
    requires
        crate::control::daemon_announced(before, after, id, side),
    ensures
        announces(before, after, id, side),
{
    assert(after.tx.sent() =~= before.tx.sent().push(after.tx.sent().last()));
}

/// From the contracts' own account of letting a daemon in to the plain one.
proof fn lemma_lets_in<S: ProxyTypes>(before: Control<S>, after: Control<S>, links: DaemonLinks)
    requires
        after.registers(before, links),
    ensures
        lets_in(before, after, links),
{
    assert forall|dev: int| 0 <= dev < links.proxy_chan@.len() implies announces(
        before.proxy_channels@[dev],
        after.proxy_channels@[dev],
        links.id,
        #[trigger] links.proxy_chan@[dev],
    ) by {
        lemma_announces(
            before.proxy_channels@[dev],
            after.proxy_channels@[dev],
            links.id,
            links.proxy_chan@[dev],
        );
    }
}

/// From the contracts' own account of a proxy that is gone to the plain one.
proof fn lemma_stops_at<S: ProxyTypes>(before: Control<S>, after: Control<S>, e: DispatchError)
    requires
        after.refuses(before, e),
    ensures
        e matches DispatchError::ProxyGone(gone) && stops_at(before, after, gone as int),
{
    let gone = e->ProxyGone_0 as int;
    assert forall|dev: int| 0 <= dev < gone implies announces_some(
        before.proxy_channels@[dev],
        #[trigger] after.proxy_channels@[dev],
        before.daemon_cnt,
    ) by {
        assert(crate::control::some_daemon_announced(
            before.proxy_channels@[dev],
            after.proxy_channels@[dev],
            before.daemon_cnt,
        ));
        let side = choose|side: DuplexChannel<ProxyCommand, ProxyCompletion>| #[trigger]
            crate::control::daemon_announced(
                before.proxy_channels@[dev],
                after.proxy_channels@[dev],
                before.daemon_cnt,
                side,
            );
        lemma_announces(
            before.proxy_channels@[dev],
            after.proxy_channels@[dev],
            before.daemon_cnt,
            side,
        );
    }
    let command = choose|command: ControlCommand| #[trigger]
        came_back(before.proxy_channels@[gone].tx.channel(), command) && match command {
            ControlCommand::NewDaemon { id: named, chan } => named == before.daemon_cnt,
        };
    assert(announced_id(command) == before.daemon_cnt);
    assert(came_back(before.proxy_channels@[gone].tx.channel(), command));
}

/// What came of sending an announcement decides over the daemon.
pub proof fn announcements_decide(
    dev: usize,
    sent: Result<(), ControlCommand>,
    r: Result<(), DispatchError>,
)
    requires
        call_ensures(after_announcement, (dev, sent), r),
    ensures
        sent is Ok <==> r is Ok,
        sent is Err ==> r == Err::<(), DispatchError>(DispatchError::ProxyGone(dev)),
{
}

/// A daemon that is registered gets the next name and is announced to every proxy under it; where
/// none is, an announcement came back.
pub proof fn daemons_are_announced<S: ProxyTypes>(
    control: &mut Control<S>,
    r: Result<DaemonLinks, DispatchError>,
)
    requires
        call_ensures(Control::<S>::register_daemon, (control,), r),
    ensures
        final(control).config == old(control).config,
        r matches Ok(links) ==> lets_in(*old(control), *final(control), links),
        r matches Err(e) ==> e matches DispatchError::ProxyGone(gone) && stops_at(
            *old(control),
            *final(control),
            gone as int,
        ),
{
    match r {
        Ok(links) => lemma_lets_in(*old(control), *final(control), links),
        Err(e) => lemma_stops_at(*old(control), *final(control), e),
    }
}

/// The announcements of two daemons, one registered some time after the other, carry different names
/// at every proxy, and each carries the name that its daemon holds.
pub proof fn announcements_tell_daemons_apart<S: ProxyTypes>(
    first: &mut Control<S>,
    first_links: DaemonLinks,
    second: &mut Control<S>,
    second_links: DaemonLinks,
    dev: int,
)
    requires
        call_ensures(Control::<S>::register_daemon, (first,), Ok(first_links)),
        call_ensures(Control::<S>::register_daemon, (second,), Ok(second_links)),
        old(second).daemon_cnt >= final(first).daemon_cnt,
        0 <= dev < first_links.proxy_chan@.len(),
        dev < second_links.proxy_chan@.len(),
    ensures
        announced_id(final(first).proxy_channels@[dev].tx.sent().last()) == first_links.id,
        announced_id(final(second).proxy_channels@[dev].tx.sent().last()) == second_links.id,
        announced_id(final(first).proxy_channels@[dev].tx.sent().last()) < announced_id(
            final(second).proxy_channels@[dev].tx.sent().last(),
        ),
{
    lemma_lets_in(*old(first), *final(first), first_links);
    lemma_lets_in(*old(second), *final(second), second_links);
    assert(announces(
        old(first).proxy_channels@[dev],
        final(first).proxy_channels@[dev],
        first_links.id,
        first_links.proxy_chan@[dev],
    ));
    assert(announces(
        old(second).proxy_channels@[dev],
        final(second).proxy_channels@[dev],
        second_links.id,
        second_links.proxy_chan@[dev],
    ));
}

/// A client that connected gets a daemon that holds its connection and nothing else yet, under the
/// next name, announced to every proxy; a client that did not changes nothing.
pub proof fn accepted_clients_get_daemons<S: ProxyTypes, D: DaemonTypes, E>(
    control: &mut Control<S>,
    accepted: Result<D::Customer, E>,
    r: Result<DaemonEngine<D>, Refusal<E>>,
)
    requires
        call_ensures(Control::<S>::client_accepted::<D, E>, (control, accepted), r),
    ensures
        accepted matches Err(e) ==> {
            &&& r == Err::<DaemonEngine<D>, Refusal<E>>(Refusal::NotAccepted(e))
            &&& *final(control) == *old(control)
        },
        accepted matches Ok(connection) ==> {
            &&& final(control).config == old(control).config
            &&& r matches Ok(daemon) ==> {
                &&& daemon.customer == connection
                &&& daemon.device_mem@.dom() =~= Set::empty()
                &&& daemon.comm_delegation@.dom() =~= Set::empty()
                &&& lets_in(
                    *old(control),
                    *final(control),
                    DaemonLinks { id: daemon.id, proxy_chan: daemon.proxy_chan },
                )
            }
            &&& r matches Err(refusal) ==> refusal matches Refusal::NotConnected(
                DispatchError::ProxyGone(gone),
            ) && stops_at(*old(control), *final(control), gone as int)
        },
{
    if accepted is Ok {
        match r {
            Ok(daemon) => lemma_lets_in(*old(control), *final(control), daemon.links()),
            Err(Refusal::NotConnected(e)) => lemma_stops_at(*old(control), *final(control), e),
            Err(Refusal::NotAccepted(e)) => {},
        }
    }
}

/// A daemon starts with the name, the ways to the proxies and the connection that it is given, and
/// with nothing else.
pub proof fn daemons_start_with_what_they_get<D: DaemonTypes>(
    links: DaemonLinks,
    customer: D::Customer,
    r: DaemonEngine<D>,
)
    requires
        call_ensures(DaemonEngine::<D>::start, (links, customer), r),
    ensures
        r.id == links.id,
        r.proxy_chan == links.proxy_chan,
        r.customer == customer,
        r.device_mem@.dom() =~= Set::empty(),
        r.comm_delegation@.dom() =~= Set::empty(),
{
}

/// A proxy starts with the device, the channels and the registry that it is given, each in its place,
/// and with nothing else.
pub proof fn proxies_start_with_what_they_get<S: ProxyTypes>(
    device_info: DeviceInfo,
    control_chan: DuplexChannel<S::ControlRequest, ControlCommand>,
    daemon_tx: std::collections::HashMap<DaemonId, Tx<ProxyCompletion>>,
    daemon_rx: Vec<(DaemonId, Rx<ProxyCommand>)>,
    proxy_peer_tx: Vec<Tx<S::PeerMessage>>,
    proxy_peer_rx: Rx<S::PeerMessage>,
    global_registry: SharedRegistry<S>,
    r: ProxyResources<S>,
)
    requires
        call_ensures(
            ProxyResources::<S>::start,
            (
                device_info,
                control_chan,
                daemon_tx,
                daemon_rx,
                proxy_peer_tx,
                proxy_peer_rx,
                global_registry,
            ),
            r,
        ),
    ensures
        r.device_info == device_info,
        r.control_chan == control_chan,
        r.daemon_tx == daemon_tx,
        r.daemon_rx == daemon_rx,
        r.proxy_peer_tx == proxy_peer_tx,
        r.proxy_peer_rx == proxy_peer_rx,
        r.global_registry == global_registry,
        has_nothing_yet(r),
{
}

} // verus!
