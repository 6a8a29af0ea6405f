use vstd::prelude::*;

verus! {

/// Why a checkpoint failed.
#[derive(Clone, Copy, Debug, PartialEq, Eq, Structural)]
pub enum FailReason {
    /// The last connected peer went away before every condition held.
    PeerDisconnected,
    /// The timeout condition elapsed before every condition held.
    TimedOut,
}

/// The outcome of a checkpoint. Once it leaves `Pending` it never changes.
#[derive(Clone, Copy, Debug, PartialEq, Eq, Structural)]
pub enum Verdict {
    Pending,
    Passed,
    Failed(FailReason),
}

/// Whether probe evidence is counted over all peers or must come from one peer.
#[derive(Clone, Copy, Debug, PartialEq, Eq, Structural)]
pub enum Scope {
    Aggregate,
    SinglePeer,
}

/// One required condition of a checkpoint.
#[derive(Clone, Debug)]
pub enum Condition {
    /// At least `count` successful probe round trips.
    MinimumSuccessfulProbes { count: u64 },
    /// A capability exchange was recorded; with `Some(agent)`, one whose agent
    /// string is exactly `agent`.
    CapabilityExchangeObserved { expected_agent: Option<String> },
    /// A message that decodes under the application schema arrived on `topic`.
    TopicMessageObserved { topic: String },
    /// A routing bootstrap reported that no peers remain to be contacted.
    RoutingConvergence,
    /// The checkpoint fails once `ticks` timer ticks have passed without success.
    Timeout { ticks: u64 },
}

/// The conditions of one checkpoint, and the scope of its probe evidence.
#[derive(Clone, Debug)]
pub struct Criteria {
    pub conditions: Vec<Condition>,
    pub scope: Scope,
}

/// Counters accumulated over a run. Each only grows.
#[derive(Clone, Copy, Debug, PartialEq, Eq, Structural)]
pub struct Evidence {
    pub probe_exchange_count: u64,
    pub probe_failure_count: u64,
    pub capability_exchange_count: u64,
    pub capability_failure_count: u64,
    pub messages_received: u64,
    pub undecodable_messages: u64,
    pub routing_converged: bool,
    pub routing_timeouts: u64,
    pub ticks: u64,
}

/// What is known of one remote peer.
#[derive(Clone, Debug)]
pub struct PeerRecord {
    pub id: String,
    /// Connections to the peer that are currently open.
    pub connections: u64,
    /// Successful probe round trips with this peer.
    pub probes: u64,
}

/// One successful capability exchange.
#[derive(Clone, Debug)]
pub struct CapabilityRecord {
    pub peer: String,
    pub agent: String,
}

/// One topic message that decoded under the application schema.
#[derive(Clone, Debug)]
pub struct ReceivedMessage {
    pub topic: String,
    pub sender: String,
    pub text: String,
}

/// The content of a received message.
pub ghost struct ReceivedView {
    pub topic: Seq<char>,
    pub sender: Seq<char>,
    pub text: Seq<char>,
}

impl View for ReceivedMessage {
    type V = ReceivedView;

    open spec fn view(&self) -> ReceivedView {
        ReceivedView { topic: self.topic@, sender: self.sender@, text: self.text@ }
    }
}

pub open spec fn received_views(v: Seq<ReceivedMessage>) -> Seq<ReceivedView> {
    v.map_values(|r: ReceivedMessage| r@)
}

/// Everything the evaluator reads.
pub ghost struct Observations {
    pub evidence: Evidence,
    pub peers: Seq<PeerRecord>,
    pub exchanges: Seq<CapabilityRecord>,
    pub received: Seq<ReceivedView>,
}

impl Evidence {
    pub open spec fn empty() -> Evidence {
        Evidence {
            probe_exchange_count: 0,
            probe_failure_count: 0,
            capability_exchange_count: 0,
            capability_failure_count: 0,
            messages_received: 0,
            undecodable_messages: 0,
            routing_converged: false,
            routing_timeouts: 0,
            ticks: 0,
        }
    }

    /// Every counter of `later` is at least the one of `self`, and a flag once
    /// set stays set.
    pub open spec fn grows_to(self, later: Evidence) -> bool {
        &&& self.probe_exchange_count <= later.probe_exchange_count
        &&& self.probe_failure_count <= later.probe_failure_count
        &&& self.capability_exchange_count <= later.capability_exchange_count
        &&& self.capability_failure_count <= later.capability_failure_count
        &&& self.messages_received <= later.messages_received
        &&& self.undecodable_messages <= later.undecodable_messages
        &&& (self.routing_converged ==> later.routing_converged)
        &&& self.routing_timeouts <= later.routing_timeouts
        &&& self.ticks <= later.ticks
    }

    pub fn new() -> (r: Evidence)
        ensures
            r == Evidence::empty(),
    {
        Evidence {
            probe_exchange_count: 0,
            probe_failure_count: 0,
            capability_exchange_count: 0,
            capability_failure_count: 0,
            messages_received: 0,
            undecodable_messages: 0,
            routing_converged: false,
            routing_timeouts: 0,
            ticks: 0,
        }
    }
}

pub open spec fn probes_met(count: u64, scope: Scope, obs: Observations) -> bool {
    match scope {
        Scope::Aggregate => obs.evidence.probe_exchange_count >= count,
        Scope::SinglePeer => exists|k: int|
            0 <= k < obs.peers.len() && (#[trigger] obs.peers[k]).probes >= count,
    }
}

pub open spec fn capability_met(expected: Option<String>, obs: Observations) -> bool {
    match expected {
        None => obs.exchanges.len() > 0,
        Some(agent) => exists|k: int|
            0 <= k < obs.exchanges.len() && (#[trigger] obs.exchanges[k]).agent@ == agent@,
    }
}

pub open spec fn topic_met(topic: String, obs: Observations) -> bool {
    exists|k: int| 0 <= k < obs.received.len() && (#[trigger] obs.received[k]).topic == topic@
}

/// Whether one condition holds of what was observed. A `Timeout` never stands
/// in the way of success.
pub open spec fn condition_met(c: Condition, scope: Scope, obs: Observations) -> bool {
    match c {
        Condition::MinimumSuccessfulProbes { count } => probes_met(count, scope, obs),
        Condition::CapabilityExchangeObserved { expected_agent } => capability_met(
            expected_agent,
            obs,
        ),
        Condition::TopicMessageObserved { topic } => topic_met(topic, obs),
        Condition::RoutingConvergence => obs.evidence.routing_converged,
        Condition::Timeout { .. } => true,
    }
}

pub open spec fn all_met(cr: Criteria, obs: Observations) -> bool {
    forall|k: int|
        0 <= k < cr.conditions@.len() ==> condition_met(
            #[trigger] cr.conditions@[k],
            cr.scope,
            obs,
        )
}

/// Whether some timeout condition has elapsed.
pub open spec fn timed_out(cr: Criteria, obs: Observations) -> bool {
    exists|k: int|
        0 <= k < cr.conditions@.len() && match #[trigger] cr.conditions@[k] {
            Condition::Timeout { ticks } => obs.evidence.ticks >= ticks,
            _ => false,
        }
}

/// The verdict that the criteria give on what was observed.
pub open spec fn evaluate(cr: Criteria, obs: Observations) -> Verdict {
    if all_met(cr, obs) {
        Verdict::Passed
    } else if timed_out(cr, obs) {
        Verdict::Failed(FailReason::TimedOut)
    } else {
        Verdict::Pending
    }
}

pub open spec fn observed(
    evidence: Evidence,
    peers: Seq<PeerRecord>,
    exchanges: Seq<CapabilityRecord>,
    received: Seq<ReceivedView>,
) -> Observations {
    Observations { evidence, peers, exchanges, received }
}

fn any_peer_reaches(peers: &Vec<PeerRecord>, count: u64) -> (r: bool)
    ensures
        r == exists|k: int| 0 <= k < peers@.len() && (#[trigger] peers@[k]).probes >= count,
{
    let mut i: usize = 0;
    while i < peers.len()
        invariant
            i <= peers@.len(),
            forall|k: int| 0 <= k < i ==> (#[trigger] peers@[k]).probes < count,
        decreases peers@.len() - i,
    {
        if peers[i].probes >= count {
            return true;
        }
        i = i + 1;
    }
    false
}

fn any_agent_is(exchanges: &Vec<CapabilityRecord>, agent: &String) -> (r: bool)
    ensures
        r == exists|k: int| 0 <= k < exchanges@.len() && (#[trigger] exchanges@[k]).agent@ == agent@,
{
    let mut i: usize = 0;
    while i < exchanges.len()
        invariant
            i <= exchanges@.len(),
            forall|k: int| 0 <= k < i ==> (#[trigger] exchanges@[k]).agent@ != agent@,
        decreases exchanges@.len() - i,
    {
        if exchanges[i].agent == *agent {
            return true;
        }
        i = i + 1;
    }
    false
}

fn any_topic_is(received: &Vec<ReceivedMessage>, topic: &String) -> (r: bool)
    ensures
        r == exists|k: int|
            0 <= k < received_views(received@).len() && (#[trigger] received_views(
                received@,
            )[k]).topic == topic@,
{
    let mut i: usize = 0;
    while i < received.len()
        invariant
            i <= received@.len(),
            forall|k: int| 0 <= k < i ==> (#[trigger] received_views(received@)[k]).topic != topic@,
        decreases received@.len() - i,
    {
        if received[i].topic == *topic {
            assert(received_views(received@)[i as int].topic == topic@);
            return true;
        }
        i = i + 1;
    }
    false
}

/// Decides whether one condition holds.
pub fn check_condition(
    c: &Condition,
    scope: Scope,
    evidence: &Evidence,
    peers: &Vec<PeerRecord>,
    exchanges: &Vec<CapabilityRecord>,
    received: &Vec<ReceivedMessage>,
) -> (r: bool)
    ensures
        r == condition_met(*c, scope, observed(*evidence, peers@, exchanges@, received_views(received@))),
{
    let ghost obs = observed(*evidence, peers@, exchanges@, received_views(received@));
    assert(obs.peers == peers@ && obs.exchanges == exchanges@ && obs.received == received_views(
        received@,
    ));
    let r = match c {
        Condition::MinimumSuccessfulProbes { count } => match scope {
            Scope::Aggregate => evidence.probe_exchange_count >= *count,
            Scope::SinglePeer => any_peer_reaches(peers, *count),
        },
        Condition::CapabilityExchangeObserved { expected_agent } => match expected_agent {
            None => exchanges.len() > 0,
            Some(agent) => any_agent_is(exchanges, agent),
        },
        Condition::TopicMessageObserved { topic } => any_topic_is(received, topic),
        Condition::RoutingConvergence => evidence.routing_converged,
        Condition::Timeout { .. } => true,
    };
    assert(condition_met(*c, scope, obs) == r);
    r
}

impl Criteria {
    /// The verdict of these criteria on what was observed: `Passed` when every
    /// condition holds, else `Failed(TimedOut)` when a timeout has elapsed,
    /// else `Pending`.
    pub fn evaluate(
        &self,
        evidence: &Evidence,
        peers: &Vec<PeerRecord>,
        exchanges: &Vec<CapabilityRecord>,
        received: &Vec<ReceivedMessage>,
    ) -> (r: Verdict)
        ensures
            r == evaluate(*self, observed(*evidence, peers@, exchanges@, received_views(received@))),
    {
        let ghost obs = observed(*evidence, peers@, exchanges@, received_views(received@));
        let mut all = true;
        let mut late = false;
        let mut i: usize = 0;
        while i < self.conditions.len()
            invariant
                i <= self.conditions@.len(),
                obs == observed(*evidence, peers@, exchanges@, received_views(received@)),
                all == forall|k: int|
                    0 <= k < i ==> condition_met(#[trigger] self.conditions@[k], self.scope, obs),
                late == exists|k: int|
                    0 <= k < i && match #[trigger] self.conditions@[k] {
                        Condition::Timeout { ticks } => obs.evidence.ticks >= ticks,
                        _ => false,
                    },
            decreases self.conditions@.len() - i,
        {
            let c = &self.conditions[i];
            let met = check_condition(c, self.scope, evidence, peers, exchanges, received);
            all = all && met;
            match c {
                Condition::Timeout { ticks } => {
                    late = late || evidence.ticks >= *ticks;
                },
                _ => {},
            }
            i = i + 1;
        }
        if all {
            Verdict::Passed
        } else if late {
            Verdict::Failed(FailReason::TimedOut)
        } else {
            Verdict::Pending
        }
    }
}

} // verus!
