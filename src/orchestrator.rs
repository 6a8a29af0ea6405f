use vstd::prelude::*;
use crate::criteria::{
    evaluate, observed, received_views, CapabilityRecord, Criteria, Evidence, FailReason,
    Observations, PeerRecord, ReceivedMessage, ReceivedView, Verdict,
};
use crate::message::{decoding, UniversalConnectivityMessage};
use crate::event::{Action, ClosestPeer, Input, Report};
use crate::peers::{
    any_connected, close_connection, closed, connected, inc, open_connection, opened, probed,
    record_probe, sat_inc, unique,
};

verus! {

/// Where a run stands. A verdict moves a live run straight into draining, or
/// into `Terminated` when no peer is left to disconnect.
#[derive(Clone, Copy, Debug, PartialEq, Eq, Structural)]
pub enum Phase {
    Idle,
    AwaitingConnection,
    Active,
    Draining,
    Terminated,
}

/// What a checkpoint asks for, and how the node behaves while it runs.
#[derive(Clone, Debug)]
pub struct Config {
    pub criteria: Criteria,
    /// Disconnect a peer as soon as a connection to it is established.
    pub close_after_connected: bool,
    /// Disconnect a peer after each successful probe with it.
    pub close_after_probe: bool,
    /// Disconnect a peer after each capability exchange with it.
    pub close_after_capability: bool,
    /// Disconnect the sender of each topic message that decodes.
    pub close_after_message: bool,
    /// Publish a numbered test message on every timer tick.
    pub chatty: bool,
    /// Timer ticks to wait while draining before ending the run anyway.
    pub drain_grace_ticks: u64,
    /// Publish a welcome chat message when the first connection is established.
    pub welcome: bool,
}

/// The abstract state of an orchestrator.
pub ghost struct Model {
    pub phase: Phase,
    pub verdict: Verdict,
    pub evidence: Evidence,
    pub peers: Seq<PeerRecord>,
    pub exchanges: Seq<CapabilityRecord>,
    pub received: Seq<ReceivedView>,
    pub published: u64,
    pub drain_ticks: u64,
    pub welcomed: bool,
}

/// The state machine that turns inputs into evidence, a verdict and commands.
pub struct Orchestrator {
    pub config: Config,
    pub phase: Phase,
    pub verdict: Verdict,
    pub evidence: Evidence,
    pub peers: Vec<PeerRecord>,
    pub exchanges: Vec<CapabilityRecord>,
    pub received: Vec<ReceivedMessage>,
    pub published: u64,
    /// Timer ticks seen while draining.
    pub drain_ticks: u64,
    /// Whether the welcome message has been published.
    pub welcomed: bool,
}

pub open spec fn live(p: Phase) -> bool {
    p is Idle || p is AwaitingConnection || p is Active
}

/// Evidence is gathered, and the criteria consulted, only while this holds.
pub open spec fn collecting(m: Model) -> bool {
    live(m.phase) && m.verdict is Pending
}

pub open spec fn observations(m: Model) -> Observations {
    observed(m.evidence, m.peers, m.exchanges, m.received)
}

pub open spec fn initial() -> Model {
    Model {
        phase: Phase::Idle,
        verdict: Verdict::Pending,
        evidence: Evidence::empty(),
        peers: Seq::empty(),
        exchanges: Seq::empty(),
        received: Seq::empty(),
        published: 0,
        drain_ticks: 0,
        welcomed: false,
    }
}

/// `d` is what the content of input `i` decodes to: nothing for an input
/// without content.
pub open spec fn content_of(i: Input, d: Option<UniversalConnectivityMessage>) -> bool {
    match i {
        Input::TopicMessageReceived { data, .. } => decoded_as(d, data@),
        _ => d is None,
    }
}

/// `d` is what decoding `data` gives: the message it encodes, or nothing.
pub open spec fn decoded_as(d: Option<UniversalConnectivityMessage>, data: Seq<u8>) -> bool {
    match decoding(data) {
        Some(v) => d matches Some(x) && x@ == v,
        None => d is None,
    }
}

/// What an input does to the peer table, the evidence and the publication
/// counter, before the criteria are consulted.
pub open spec fn record(cfg: Config, m: Model, i: Input) -> Model {
    let c = collecting(m);
    let e = m.evidence;
    match i {
        Input::ConnectionEstablished { peer, .. } => Model {
            peers: opened(m.peers, peer),
            phase: if live(m.phase) {
                Phase::Active
            } else {
                m.phase
            },
            welcomed: m.welcomed || cfg.welcome,
            ..m
        },
        Input::ConnectionClosed { peer, .. } => Model { peers: closed(m.peers, peer@), ..m },
        Input::ProbeCompleted { peer, .. } => if c {
            Model {
                evidence: Evidence { probe_exchange_count: sat_inc(e.probe_exchange_count), ..e },
                peers: probed(m.peers, peer),
                ..m
            }
        } else {
            m
        },
        Input::ProbeFailed { .. } => if c {
            Model {
                evidence: Evidence { probe_failure_count: sat_inc(e.probe_failure_count), ..e },
                ..m
            }
        } else {
            m
        },
        Input::CapabilityExchanged { peer, agent, .. } => if c {
            Model {
                evidence: Evidence {
                    capability_exchange_count: sat_inc(e.capability_exchange_count),
                    ..e
                },
                exchanges: m.exchanges.push(CapabilityRecord { peer, agent }),
                ..m
            }
        } else {
            m
        },
        Input::CapabilityExchangeFailed { .. } => if c {
            Model {
                evidence: Evidence {
                    capability_failure_count: sat_inc(e.capability_failure_count),
                    ..e
                },
                ..m
            }
        } else {
            m
        },
        Input::TopicMessageReceived { topic, data } => if c {
            match decoding(data@) {
                Some(v) => Model {
                    evidence: Evidence { messages_received: sat_inc(e.messages_received), ..e },
                    received: m.received.push(
                        ReceivedView { topic: topic@, sender: v.from, text: v.message },
                    ),
                    ..m
                },
                None => Model {
                    evidence: Evidence { undecodable_messages: sat_inc(e.undecodable_messages), ..e },
                    ..m
                },
            }
        } else {
            m
        },
        Input::RoutingBootstrapProgress { remaining, .. } => if c && remaining == 0 {
            Model { evidence: Evidence { routing_converged: true, ..e }, ..m }
        } else {
            m
        },
        Input::RoutingQueryTimedOut | Input::ClosestPeersTimedOut => if c {
            Model { evidence: Evidence { routing_timeouts: sat_inc(e.routing_timeouts), ..e }, ..m }
        } else {
            m
        },
        Input::Tick => Model {
            evidence: if c {
                Evidence { ticks: sat_inc(e.ticks), ..e }
            } else {
                e
            },
            published: if cfg.chatty && live(m.phase) {
                sat_inc(m.published)
            } else {
                m.published
            },
            ..m
        },
        _ => m,
    }
}

/// One line for each peer that a closest-peers query found, in order.
pub open spec fn closest_reports(peers: Seq<ClosestPeer>) -> Seq<Action> {
    peers.map_values(|p: ClosestPeer| Action::Report(Report::ClosestPeer(p)))
}

pub open spec fn disconnect_if(flag: bool, peer: String) -> Seq<Action> {
    if flag {
        seq![Action::Disconnect { peer }]
    } else {
        Seq::empty()
    }
}

/// The lines and commands that an input gives rise to, before the criteria
/// are consulted.
pub open spec fn reports(
    cfg: Config,
    m: Model,
    i: Input,
    d: Option<UniversalConnectivityMessage>,
) -> Seq<Action> {
    match i {
        Input::ConnectionEstablished { peer, address } => seq![
            Action::Report(Report::Connected { peer, address }),
        ] + (if cfg.welcome && !m.welcomed {
            seq![Action::PublishWelcome]
        } else {
            Seq::empty()
        }) + disconnect_if(cfg.close_after_connected, peer),
        Input::ConnectionClosed { peer, cause } => match cause {
            Some(detail) => seq![Action::Report(Report::Error { detail })],
            None => seq![Action::Report(Report::Closed { peer })],
        },
        Input::IncomingConnection { local_addr, send_back_addr } => seq![
            Action::Report(Report::Incoming { local_addr, send_back_addr }),
        ],
        Input::OutgoingConnectionError { error } => seq![
            Action::Report(Report::Error { detail: error }),
        ],
        Input::ProbeCompleted { peer, rtt_ms } => seq![
            Action::Report(Report::Ping { peer, rtt_ms }),
        ] + disconnect_if(cfg.close_after_probe, peer),
        Input::ProbeFailed { cause, .. } => seq![Action::Report(Report::Error { detail: cause })],
        Input::CapabilityExchanged { peer, agent, protocol_version, .. } => seq![
            Action::Report(Report::Identify { peer, protocol_version, agent }),
        ] + disconnect_if(cfg.close_after_capability, peer),
        Input::CapabilityExchangeFailed { cause, .. } => seq![
            Action::Report(Report::Error { detail: cause }),
        ],
        Input::TopicMessageReceived { topic, .. } => match d {
            Some(msg) => seq![
                Action::Report(Report::Msg { sender: msg.from, topic, text: msg.message }),
            ] + disconnect_if(cfg.close_after_message, msg.from),
            None => seq![Action::Report(Report::Undecodable { topic })],
        },
        Input::TopicSubscriptionChanged { peer, topic, subscribed } => if subscribed {
            seq![Action::Report(Report::Subscribe { peer, topic })]
        } else {
            seq![Action::Report(Report::Unsubscribe { peer, topic })]
        },
        Input::RoutingBootstrapProgress { remaining, .. } => if remaining == 0 {
            seq![Action::Report(Report::Bootstrap)]
        } else {
            Seq::empty()
        },
        Input::RoutingQueryTimedOut => seq![Action::Report(Report::BootstrapTimedOut)],
        Input::RoutingTableUpdated { peer, is_new, replaced } => seq![
            Action::Report(Report::RoutingUpdate { peer, is_new, replaced }),
        ],
        Input::ClosestPeersFound { peers } => seq![
            Action::Report(Report::ClosestPeers { count: peers@.len() as u64 }),
        ] + closest_reports(peers@),
        Input::ClosestPeersTimedOut => seq![Action::Report(Report::ClosestPeersTimedOut)],
        Input::PeerRoutable { peer, address } => seq![
            Action::Report(Report::Routable { peer, address }),
        ],
        Input::PeerUnroutable { peer } => seq![Action::Report(Report::Unroutable { peer })],
        Input::Tick => if cfg.chatty && live(m.phase) {
            seq![Action::PublishTestMessage { counter: sat_inc(m.published) }]
        } else {
            Seq::empty()
        },
        Input::Terminate => Seq::empty(),
        Input::HardStop => Seq::empty(),
    }
}

/// A disconnect command for each peer with a connection open, in table order.
pub open spec fn disconnect_all(peers: Seq<PeerRecord>) -> Seq<Action>
    decreases peers.len(),
{
    if peers.len() == 0 {
        Seq::empty()
    } else {
        disconnect_all(peers.drop_last()) + if peers.last().connections > 0 {
            seq![Action::Disconnect { peer: peers.last().id }]
        } else {
            Seq::<Action>::empty()
        }
    }
}

/// The commands that start draining: close the listeners, then disconnect
/// every connected peer.
pub open spec fn drain(peers: Seq<PeerRecord>) -> Seq<Action> {
    seq![Action::CloseListeners] + disconnect_all(peers)
}

/// The verdict after input `i` took `m` to `m1`: the criteria's verdict while
/// evidence is collected, or a failure when the last peer of an active run
/// disconnected first.
pub open spec fn verdict_after(cfg: Config, m: Model, i: Input, m1: Model) -> Verdict {
    if !collecting(m) {
        m.verdict
    } else {
        let v = evaluate(cfg.criteria, observations(m1));
        if v is Pending && i is ConnectionClosed && m1.phase is Active && !connected(m1.peers) {
            Verdict::Failed(FailReason::PeerDisconnected)
        } else {
            v
        }
    }
}

pub open spec fn is_signal(i: Input) -> bool {
    i is Terminate || i is HardStop
}

/// The state after one input.
pub open spec fn next(cfg: Config, m: Model, i: Input) -> Model {
    if m.phase is Terminated {
        m
    } else if i is HardStop {
        Model { phase: Phase::Terminated, ..m }
    } else if i is Terminate {
        if m.phase is Draining {
            m
        } else if connected(m.peers) {
            Model { phase: Phase::Draining, ..m }
        } else {
            Model { phase: Phase::Terminated, ..m }
        }
    } else if i is Tick && m.phase is Draining {
        let t = sat_inc(m.drain_ticks);
        Model {
            drain_ticks: t,
            phase: if t >= cfg.drain_grace_ticks {
                Phase::Terminated
            } else {
                Phase::Draining
            },
            ..m
        }
    } else {
        let m1 = record(cfg, m, i);
        let v = verdict_after(cfg, m, i, m1);
        if m.verdict is Pending && !(v is Pending) {
            Model {
                verdict: v,
                phase: if connected(m1.peers) {
                    Phase::Draining
                } else {
                    Phase::Terminated
                },
                ..m1
            }
        } else if m1.phase is Draining && i is ConnectionClosed && !connected(m1.peers) {
            Model { phase: Phase::Terminated, ..m1 }
        } else {
            m1
        }
    }
}

/// The commands and lines that one input gives rise to, where `d` is what
/// the input's message content decodes to.
pub open spec fn emitted(
    cfg: Config,
    m: Model,
    i: Input,
    d: Option<UniversalConnectivityMessage>,
) -> Seq<Action> {
    if m.phase is Terminated {
        Seq::empty()
    } else if i is HardStop {
        seq![Action::Report(Report::SigQuit)]
    } else if i is Terminate {
        if m.phase is Draining {
            Seq::empty()
        } else {
            drain(m.peers)
        }
    } else if i is Tick && m.phase is Draining {
        if sat_inc(m.drain_ticks) >= cfg.drain_grace_ticks {
            seq![Action::Report(Report::GraceExpired)]
        } else {
            Seq::empty()
        }
    } else {
        let m1 = record(cfg, m, i);
        let v = verdict_after(cfg, m, i, m1);
        reports(cfg, m, i, d) + if m.verdict is Pending && !(v is Pending) {
            seq![Action::Report(Report::Concluded { verdict: v })] + drain(m1.peers)
        } else if m1.phase is Draining && i is ConnectionClosed && !connected(m1.peers) {
            seq![Action::Report(Report::NoMorePeers)]
        } else {
            Seq::empty()
        }
    }
}

/// The state after a sequence of inputs, taken in order.
pub open spec fn run(cfg: Config, m: Model, inputs: Seq<Input>) -> Model
    decreases inputs.len(),
{
    if inputs.len() == 0 {
        m
    } else {
        run(cfg, next(cfg, m, inputs[0]), inputs.drop_first())
    }
}

impl View for Orchestrator {
    type V = Model;

    open spec fn view(&self) -> Model {
        Model {
            phase: self.phase,
            verdict: self.verdict,
            evidence: self.evidence,
            peers: self.peers@,
            exchanges: self.exchanges@,
            received: received_views(self.received@),
            published: self.published,
            drain_ticks: self.drain_ticks,
            welcomed: self.welcomed,
        }
    }
}


pub fn is_live(p: Phase) -> (r: bool)
    ensures
        r == live(p),
{
    match p {
        Phase::Idle | Phase::AwaitingConnection | Phase::Active => true,
        _ => false,
    }
}

impl Orchestrator {
    /// The peer table names each peer once.
    pub open spec fn wf(&self) -> bool {
        unique(self.peers@)
    }

    /// An idle orchestrator with no evidence, configured by `config`.
    pub fn new(config: Config) -> (r: Orchestrator)
        ensures
            r@ == initial(),
            r.config == config,
            r.wf(),
    {
        let r = Orchestrator {
            config,
            phase: Phase::Idle,
            verdict: Verdict::Pending,
            evidence: Evidence::new(),
            peers: Vec::new(),
            exchanges: Vec::new(),
            received: Vec::new(),
            published: 0,
            drain_ticks: 0,
            welcomed: false,
        };
        assert(r@.peers =~= Seq::<PeerRecord>::empty());
        assert(r@.exchanges =~= Seq::<CapabilityRecord>::empty());
        assert(r@.received =~= Seq::<ReceivedView>::empty());
        r
    }

    /// Listening has begun: an idle run now waits for its first connection.
    pub fn start(&mut self)
        ensures
            final(self).config == old(self).config,
            final(self)@ == if old(self)@.phase is Idle {
                Model { phase: Phase::AwaitingConnection, ..old(self)@ }
            } else {
                old(self)@
            },
            final(self).wf() == old(self).wf(),
    {
        if self.phase == Phase::Idle {
            self.phase = Phase::AwaitingConnection;
        }
    }

    /// Zero when the checkpoint passed, one otherwise: the exit code of the run.
    pub fn exit_code(&self) -> (r: i32)
        ensures
            r == if self.verdict is Passed {
                0i32
            } else {
                1i32
            },
    {
        match self.verdict {
            Verdict::Passed => 0,
            _ => 1,
        }
    }

    /// Whether the run has ended.
    pub fn is_terminated(&self) -> (r: bool)
        ensures
            r == self.phase is Terminated,
    {
        self.phase == Phase::Terminated
    }

    /// The commands that start draining the current peer table.
    fn drain_actions(&self) -> (acts: Vec<Action>)
        ensures
            acts@ == drain(self.peers@),
    {
        let mut acts: Vec<Action> = Vec::new();
        acts.push(Action::CloseListeners);
        let mut i: usize = 0;
        while i < self.peers.len()
            invariant
                i <= self.peers@.len(),
                acts@ == seq![Action::CloseListeners] + disconnect_all(self.peers@.subrange(0, i as int)),
            decreases self.peers@.len() - i,
        {
            let ghost before = acts@;
            let ghost pre = self.peers@.subrange(0, i as int);
            let ghost cur = self.peers@.subrange(0, i as int + 1);
            assert(cur.drop_last() =~= pre);
            assert(cur.last() == self.peers@[i as int]);
            if self.peers[i].connections > 0 {
                acts.push(Action::Disconnect { peer: self.peers[i].id.clone() });
                assert(acts@ =~= seq![Action::CloseListeners] + disconnect_all(cur));
            } else {
                assert(acts@ =~= seq![Action::CloseListeners] + disconnect_all(cur));
            }
            i = i + 1;
        }
        assert(self.peers@.subrange(0, self.peers@.len() as int) =~= self.peers@);
        acts
    }

    fn is_collecting(&self) -> (r: bool)
        ensures
            r == collecting(self@),
    {
        is_live(self.phase) && self.verdict == Verdict::Pending
    }

    /// Applies an input to the peer table, the evidence and the publication
    /// counter, and gives the lines and commands it calls for.
    fn record_input(&mut self, input: Input) -> (acts: Vec<Action>)
        requires
            old(self).wf(),
        ensures
            final(self).wf(),
            final(self).config == old(self).config,
            final(self)@ == record(old(self).config, old(self)@, input),
            exists|d: Option<UniversalConnectivityMessage>|
                content_of(input, d) && acts@ == reports(old(self).config, old(self)@, input, d),
    {
        let ghost m = self@;
        let ghost cfg = self.config;
        let c = self.is_collecting();
        let mut acts: Vec<Action> = Vec::new();
        let ghost mut d: Option<UniversalConnectivityMessage> = None;
        match input {
            Input::ConnectionEstablished { peer, address } => {
                open_connection(&mut self.peers, &peer);
                if is_live(self.phase) {
                    self.phase = Phase::Active;
                }
                acts.push(Action::Report(Report::Connected { peer: peer.clone(), address }));
                if self.config.welcome && !self.welcomed {
                    self.welcomed = true;
                    acts.push(Action::PublishWelcome);
                }
                if self.config.close_after_connected {
                    acts.push(Action::Disconnect { peer });
                }
            },
            Input::ConnectionClosed { peer, cause } => {
                close_connection(&mut self.peers, &peer);
                match cause {
                    Some(detail) => acts.push(Action::Report(Report::Error { detail })),
                    None => acts.push(Action::Report(Report::Closed { peer })),
                }
            },
            Input::IncomingConnection { local_addr, send_back_addr } => {
                acts.push(Action::Report(Report::Incoming { local_addr, send_back_addr }));
            },
            Input::OutgoingConnectionError { error } => {
                acts.push(Action::Report(Report::Error { detail: error }));
            },
            Input::ProbeCompleted { peer, rtt_ms } => {
                if c {
                    self.evidence.probe_exchange_count = inc(self.evidence.probe_exchange_count);
                    record_probe(&mut self.peers, &peer);
                }
                acts.push(Action::Report(Report::Ping { peer: peer.clone(), rtt_ms }));
                if self.config.close_after_probe {
                    acts.push(Action::Disconnect { peer });
                }
            },
            Input::ProbeFailed { cause, .. } => {
                if c {
                    self.evidence.probe_failure_count = inc(self.evidence.probe_failure_count);
                }
                acts.push(Action::Report(Report::Error { detail: cause }));
            },
            Input::CapabilityExchanged { peer, agent, protocol_version, .. } => {
                if c {
                    self.evidence.capability_exchange_count = inc(
                        self.evidence.capability_exchange_count,
                    );
                    self.exchanges.push(
                        CapabilityRecord { peer: peer.clone(), agent: agent.clone() },
                    );
                }
                acts.push(
                    Action::Report(
                        Report::Identify { peer: peer.clone(), protocol_version, agent },
                    ),
                );
                if self.config.close_after_capability {
                    acts.push(Action::Disconnect { peer });
                }
            },
            Input::CapabilityExchangeFailed { cause, .. } => {
                if c {
                    self.evidence.capability_failure_count = inc(
                        self.evidence.capability_failure_count,
                    );
                }
                acts.push(Action::Report(Report::Error { detail: cause }));
            },
            Input::TopicMessageReceived { topic, data } => {
                let decoded = UniversalConnectivityMessage::decode(data.as_slice());
                proof {
                    d = decoded;
                }
                match decoded {
                    Some(msg) => {
                        if c {
                            self.evidence.messages_received = inc(self.evidence.messages_received);
                            let rec = ReceivedMessage {
                                topic: topic.clone(),
                                sender: msg.from.clone(),
                                text: msg.message.clone(),
                            };
                            let ghost before = self.received@;
                            self.received.push(rec);
                            assert(received_views(self.received@) =~= received_views(before).push(
                                rec@,
                            ));
                        }
                        acts.push(
                            Action::Report(
                                Report::Msg {
                                    sender: msg.from.clone(),
                                    topic,
                                    text: msg.message,
                                },
                            ),
                        );
                        if self.config.close_after_message {
                            acts.push(Action::Disconnect { peer: msg.from });
                        }
                    },
                    None => {
                        if c {
                            self.evidence.undecodable_messages = inc(
                                self.evidence.undecodable_messages,
                            );
                        }
                        acts.push(Action::Report(Report::Undecodable { topic }));
                    },
                }
            },
            Input::TopicSubscriptionChanged { peer, topic, subscribed } => {
                if subscribed {
                    acts.push(Action::Report(Report::Subscribe { peer, topic }));
                } else {
                    acts.push(Action::Report(Report::Unsubscribe { peer, topic }));
                }
            },
            Input::RoutingBootstrapProgress { remaining, .. } => {
                if remaining == 0 {
                    if c {
                        self.evidence.routing_converged = true;
                    }
                    acts.push(Action::Report(Report::Bootstrap));
                }
            },
            Input::RoutingQueryTimedOut => {
                if c {
                    self.evidence.routing_timeouts = inc(self.evidence.routing_timeouts);
                }
                acts.push(Action::Report(Report::BootstrapTimedOut));
            },
            Input::RoutingTableUpdated { peer, is_new, replaced } => {
                acts.push(Action::Report(Report::RoutingUpdate { peer, is_new, replaced }));
            },
            Input::ClosestPeersFound { peers } => {
                let mut peers = peers;
                acts.push(Action::Report(Report::ClosestPeers { count: peers.len() as u64 }));
                let ghost all = peers@;
                let ghost head = acts@;
                let ghost mut k: int = 0;
                while peers.len() > 0
                    invariant
                        0 <= k <= all.len(),
                        peers@ == all.subrange(k, all.len() as int),
                        acts@ == head + closest_reports(all.subrange(0, k)),
                    decreases peers@.len(),
                {
                    let p = peers.remove(0);
                    proof {
                        assert(p == all[k]);
                        assert(closest_reports(all.subrange(0, k + 1)) =~= closest_reports(
                            all.subrange(0, k),
                        ).push(Action::Report(Report::ClosestPeer(p))));
                        assert(peers@ =~= all.subrange(k + 1, all.len() as int));
                        k = k + 1;
                    }
                    acts.push(Action::Report(Report::ClosestPeer(p)));
                }
                assert(all.subrange(0, k) =~= all);
            },
            Input::ClosestPeersTimedOut => {
                if c {
                    self.evidence.routing_timeouts = inc(self.evidence.routing_timeouts);
                }
                acts.push(Action::Report(Report::ClosestPeersTimedOut));
            },
            Input::PeerRoutable { peer, address } => {
                acts.push(Action::Report(Report::Routable { peer, address }));
            },
            Input::PeerUnroutable { peer } => {
                acts.push(Action::Report(Report::Unroutable { peer }));
            },
            Input::Tick => {
                if c {
                    self.evidence.ticks = inc(self.evidence.ticks);
                }
                if self.config.chatty && is_live(self.phase) {
                    self.published = inc(self.published);
                    acts.push(Action::PublishTestMessage { counter: self.published });
                }
            },
            Input::Terminate => {},
            Input::HardStop => {},
        }
        assert(self@ =~= record(cfg, m, input));
        assert(acts@ =~= reports(cfg, m, input, d));
        assert(content_of(input, d));
        acts
    }

    /// Takes one input through the state machine: records it, consults the
    /// criteria while the verdict is pending, and starts or finishes draining.
    pub fn handle(&mut self, input: Input) -> (acts: Vec<Action>)
        requires
            old(self).wf(),
        ensures
            final(self).wf(),
            final(self).config == old(self).config,
            final(self)@ == next(old(self).config, old(self)@, input),
            old(self)@.phase is Terminated ==> acts@.len() == 0,
            !(old(self)@.phase is Terminated) ==> exists|d: Option<UniversalConnectivityMessage>|
                content_of(input, d) && acts@ == emitted(old(self).config, old(self)@, input, d),
    {
        let ghost m = self@;
        let ghost cfg = self.config;
        if self.phase == Phase::Terminated {
            return Vec::new();
        }
        match input {
            Input::HardStop => {
                self.phase = Phase::Terminated;
                let mut acts: Vec<Action> = Vec::new();
                acts.push(Action::Report(Report::SigQuit));
                assert(content_of(input, None) && acts@ =~= emitted(cfg, m, input, None));
                return acts;
            },
            Input::Terminate => {
                if self.phase == Phase::Draining {
                    let acts = Vec::new();
                    assert(content_of(input, None) && acts@ =~= emitted(cfg, m, input, None));
                    return acts;
                }
                let acts = self.drain_actions();
                assert(content_of(input, None) && acts@ =~= emitted(cfg, m, input, None));
                if any_connected(&self.peers) {
                    self.phase = Phase::Draining;
                } else {
                    self.phase = Phase::Terminated;
                }
                return acts;
            },
            Input::Tick => {
                if self.phase == Phase::Draining {
                    self.drain_ticks = inc(self.drain_ticks);
                    let mut acts: Vec<Action> = Vec::new();
                    if self.drain_ticks >= self.config.drain_grace_ticks {
                        self.phase = Phase::Terminated;
                        acts.push(Action::Report(Report::GraceExpired));
                    }
                    assert(content_of(input, None) && acts@ =~= emitted(cfg, m, input, None));
                    return acts;
                }
            },
            _ => {},
        }
        let was_collecting = self.is_collecting();
        let closing = match &input {
            Input::ConnectionClosed { .. } => true,
            _ => false,
        };
        let mut acts = self.record_input(input);
        let ghost d = choose|d: Option<UniversalConnectivityMessage>|
            content_of(input, d) && acts@ == reports(cfg, m, input, d);
        let ghost m1 = self@;
        let ghost v = verdict_after(cfg, m, input, m1);
        if was_collecting {
            let mut verdict = self.config.criteria.evaluate(
                &self.evidence,
                &self.peers,
                &self.exchanges,
                &self.received,
            );
            let some_connected = any_connected(&self.peers);
            if verdict == Verdict::Pending && closing && self.phase == Phase::Active
                && !some_connected {
                verdict = Verdict::Failed(FailReason::PeerDisconnected);
            }
            assert(verdict == v);
            if verdict != Verdict::Pending {
                self.verdict = verdict;
                acts.push(Action::Report(Report::Concluded { verdict }));
                let mut drained = self.drain_actions();
                acts.append(&mut drained);
                if some_connected {
                    self.phase = Phase::Draining;
                } else {
                    self.phase = Phase::Terminated;
                }
                assert(self@ =~= next(cfg, m, input));
                assert(acts@ =~= emitted(cfg, m, input, d));
                return acts;
            }
        }
        if self.phase == Phase::Draining && closing && !any_connected(&self.peers) {
            self.phase = Phase::Terminated;
            acts.push(Action::Report(Report::NoMorePeers));
        }
        assert(self@ =~= next(cfg, m, input));
        assert(acts@ =~= emitted(cfg, m, input, d));
        acts
    }
}

} // verus!
