use vstd::prelude::*;
use crate::criteria::Verdict;

verus! {

/// A peer found by a closest-peers query, with its known addresses.
#[derive(Clone, Debug)]
pub struct ClosestPeer {
    pub peer_id: String,
    pub addrs: Vec<String>,
}

/// One input of the orchestrator: a protocol event, a timer tick or a signal.
#[derive(Clone, Debug)]
pub enum Input {
    ConnectionEstablished { peer: String, address: String },
    /// A connection to `peer` closed, with the error that closed it, if any.
    ConnectionClosed { peer: String, cause: Option<String> },
    IncomingConnection { local_addr: String, send_back_addr: String },
    OutgoingConnectionError { error: String },
    ProbeCompleted { peer: String, rtt_ms: u64 },
    ProbeFailed { peer: String, cause: String },
    CapabilityExchanged {
        peer: String,
        agent: String,
        protocol_version: String,
        protocol_count: u64,
    },
    CapabilityExchangeFailed { peer: String, cause: String },
    /// A message arrived on `topic`; `data` is its encoded content.
    TopicMessageReceived { topic: String, data: Vec<u8> },
    TopicSubscriptionChanged { peer: String, topic: String, subscribed: bool },
    RoutingBootstrapProgress { contacted_peer: String, remaining: u64 },
    RoutingQueryTimedOut,
    RoutingTableUpdated { peer: String, is_new: bool, replaced: Option<String> },
    /// A closest-peers query finished with these peers.
    ClosestPeersFound { peers: Vec<ClosestPeer> },
    ClosestPeersTimedOut,
    PeerRoutable { peer: String, address: String },
    PeerUnroutable { peer: String },
    /// The periodic timer fired.
    Tick,
    /// A request to shut down gracefully.
    Terminate,
    /// A request to stop at once, without draining.
    HardStop,
}

/// One status line for the reporter.
#[derive(Clone, Debug)]
pub enum Report {
    Connected { peer: String, address: String },
    Closed { peer: String },
    Error { detail: String },
    Incoming { local_addr: String, send_back_addr: String },
    Ping { peer: String, rtt_ms: u64 },
    Identify { peer: String, protocol_version: String, agent: String },
    Msg { sender: String, topic: String, text: String },
    Undecodable { topic: String },
    Subscribe { peer: String, topic: String },
    Unsubscribe { peer: String, topic: String },
    Bootstrap,
    BootstrapTimedOut,
    RoutingUpdate { peer: String, is_new: bool, replaced: Option<String> },
    ClosestPeers { count: u64 },
    ClosestPeer(ClosestPeer),
    ClosestPeersTimedOut,
    Routable { peer: String, address: String },
    Unroutable { peer: String },
    NoMorePeers,
    /// Draining ended without every peer confirming its disconnection.
    GraceExpired,
    SigQuit,
    Concluded { verdict: Verdict },
}

/// A command for the node, or a line for the reporter.
#[derive(Clone, Debug)]
pub enum Action {
    Report(Report),
    /// Close every connection to `peer`.
    Disconnect { peer: String },
    /// Stop accepting inbound connections.
    CloseListeners,
    /// Publish the test message with this sequence number.
    PublishTestMessage { counter: u64 },
    /// Publish the welcome chat message.
    PublishWelcome,
}

} // verus!
