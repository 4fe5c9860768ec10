//! The proxies, one for each device.
use std::collections::HashMap;
use std::sync::Arc;

use vstd::prelude::*;

use crate::comm::{CommunicatorId, HostIdent};
use crate::daemon::DaemonId;
use crate::registry::GlobalRegistry;
use crate::transport::engine::TransportEngineId;
use crate::transport::message::{TransportEngineReply, TransportEngineRequest};
use crate::transport::transporter::Transporter;
use crate::utils::duplex_chan::{DuplexChannel, Rx, Tx};

verus! {

/// Names a device.
#[derive(Clone, Copy, Debug, PartialEq, Eq, Structural)]
pub struct DeviceInfo {
    pub host: HostIdent,
    pub cuda_device_idx: i32,
}

/// Asks for a communicator.
#[derive(Clone, Copy, Debug, PartialEq, Eq, Structural)]
pub struct InitCommunicator {
    pub communicator_id: CommunicatorId,
    pub rank: usize,
    pub num_ranks: usize,
}

/// Asks for an all-gather: every rank sends `size` bytes from `send_buf_addr`, and has the bytes of
/// all ranks, in the order of the ranks, at `recv_buf_addr` afterwards.
#[derive(Clone, Copy, Debug, PartialEq, Eq, Structural)]
pub struct AllGather {
    pub communicator_id: CommunicatorId,
    pub send_buf_addr: u64,
    pub recv_buf_addr: u64,
    pub size: u64,
}

/// What a daemon asks of a proxy.
#[derive(Clone, Copy, Debug, PartialEq, Eq, Structural)]
pub enum ProxyCommand {
    InitCommunicator(InitCommunicator),
    AllGather(AllGather),
}

/// What a proxy reports to a daemon.
#[derive(Clone, Copy, Debug, PartialEq, Eq, Structural)]
pub enum ProxyCompletion {
    InitCommunicator,
    AllGather,
}

/// What the control engine tells a proxy.
pub enum ControlCommand {
    /// There is a new daemon; `chan` leads to it.
    NewDaemon { id: DaemonId, chan: DuplexChannel<ProxyCompletion, ProxyCommand> },
}

/// The types that a proxy handles without looking into them.
pub trait ProxyTypes {
    /// What a proxy asks of the control engine.
    type ControlRequest;

    /// What proxies tell each other.
    type PeerMessage;

    /// What the proxies tell each other of a communicator through their registry.
    type CommInfo;

    /// Assigns transport engines.
    type Delegator;

    /// A communicator that is being set up.
    type CommInit;

    /// A communicator.
    type Communicator;

    /// The transports.
    type Transport: Transporter;

    /// An operation over a connection of a transport.
    type TransportOp;
}

/// What all proxies share.
pub type SharedRegistry<S> = Arc<
    GlobalRegistry<<S as ProxyTypes>::CommInfo, <S as ProxyTypes>::Delegator>,
>;

/// What a proxy starts with.
#[verifier::reject_recursive_types(S)]
pub struct ProxyResources<S: ProxyTypes> {
    pub device_info: DeviceInfo,
    /// Leads to the control engine.
    pub control_chan: DuplexChannel<S::ControlRequest, ControlCommand>,
    /// Where the daemons get the reports from.
    pub daemon_tx: HashMap<DaemonId, Tx<ProxyCompletion>>,
    /// Where the commands of the daemons come from.
    pub daemon_rx: Vec<(DaemonId, Rx<ProxyCommand>)>,
    /// Lead to other proxies.
    pub proxy_peer_tx: Vec<Tx<S::PeerMessage>>,
    /// Where the messages of other proxies come from.
    pub proxy_peer_rx: Rx<S::PeerMessage>,
    pub comms_init: HashMap<CommunicatorId, S::CommInit>,
    pub communicators: HashMap<CommunicatorId, S::Communicator>,
    pub global_registry: SharedRegistry<S>,
    pub transport_engines_tx: HashMap<
        TransportEngineId,
        Tx<TransportEngineRequest<S::Transport, S::TransportOp>>,
    >,
    pub transport_engines_rx: Vec<
        (
            TransportEngineId,
            Rx<TransportEngineReply<<S::Transport as Transporter>::Message>>,
        ),
    >,
    pub transport_submission_pool: HashMap<
        TransportEngineId,
        Vec<TransportEngineRequest<S::Transport, S::TransportOp>>,
    >,
}

impl<S: ProxyTypes> ProxyResources<S> {
    /// The proxy has neither communicators nor transport engines yet.
    pub open spec fn idle(self) -> bool {
        &&& self.comms_init@ == Map::<CommunicatorId, S::CommInit>::empty()
        &&& self.communicators@ == Map::<CommunicatorId, S::Communicator>::empty()
        &&& self.transport_engines_tx@ == Map::<
            TransportEngineId,
            Tx<TransportEngineRequest<S::Transport, S::TransportOp>>,
        >::empty()
        &&& self.transport_engines_rx@.len() == 0
        &&& self.transport_submission_pool@ == Map::<
            TransportEngineId,
            Vec<TransportEngineRequest<S::Transport, S::TransportOp>>,
        >::empty()
    }

    /// What a proxy starts with, once its channels are there.
    pub fn start(
        device_info: DeviceInfo,
        control_chan: DuplexChannel<S::ControlRequest, ControlCommand>,
        daemon_tx: HashMap<DaemonId, Tx<ProxyCompletion>>,
        daemon_rx: Vec<(DaemonId, Rx<ProxyCommand>)>,
        proxy_peer_tx: Vec<Tx<S::PeerMessage>>,
        proxy_peer_rx: Rx<S::PeerMessage>,
        global_registry: SharedRegistry<S>,
    ) -> (r: ProxyResources<S>)
        ensures
            r.idle(),
            r.device_info == device_info,
            r.control_chan == control_chan,
            r.daemon_tx == daemon_tx,
            r.daemon_rx == daemon_rx,
            r.proxy_peer_tx == proxy_peer_tx,
            r.proxy_peer_rx == proxy_peer_rx,
            r.global_registry == global_registry,
    {
        ProxyResources {
            device_info,
            control_chan,
            daemon_tx,
            daemon_rx,
            proxy_peer_tx,
            proxy_peer_rx,
            comms_init: HashMap::new(),
            communicators: HashMap::new(),
            global_registry,
            transport_engines_tx: HashMap::new(),
            transport_engines_rx: Vec::new(),
            transport_submission_pool: HashMap::new(),
        }
    }
}

} // verus!
