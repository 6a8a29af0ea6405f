use checkpoint::criteria::{Condition, Criteria, FailReason, Scope, Verdict};
use checkpoint::event::{Action, ClosestPeer, Input, Report};
use checkpoint::message::UniversalConnectivityMessage;
use checkpoint::orchestrator::{Config, Orchestrator, Phase};

fn config(conditions: Vec<Condition>, scope: Scope) -> Config {
    Config {
        criteria: Criteria { conditions, scope },
        close_after_connected: false,
        close_after_probe: false,
        close_after_capability: false,
        close_after_message: false,
        chatty: false,
        drain_grace_ticks: 2,
        welcome: false,
    }
}

fn ping_config() -> Config {
    config(vec![Condition::MinimumSuccessfulProbes { count: 3 }], Scope::Aggregate)
}

fn connect(o: &mut Orchestrator, peer: &str) -> Vec<Action> {
    o.handle(Input::ConnectionEstablished {
        peer: peer.to_string(),
        address: "/ip4/10.0.0.2/tcp/9092".to_string(),
    })
}

fn probe(peer: &str, rtt_ms: u64) -> Input {
    Input::ProbeCompleted { peer: peer.to_string(), rtt_ms }
}

fn close(peer: &str) -> Input {
    Input::ConnectionClosed { peer: peer.to_string(), cause: None }
}

fn lines(acts: &[Action]) -> Vec<String> {
    acts.iter()
        .filter_map(|a| match a {
            Action::Report(r) => Some(r.to_line()),
            _ => None,
        })
        .collect()
}

fn started(cfg: Config) -> Orchestrator {
    let mut o = Orchestrator::new(cfg);
    o.start();
    o
}

#[test]
fn three_probes_report_pings_then_pass() {
    let mut o = started(ping_config());
    let mut out = connect(&mut o, "P");
    assert_eq!(o.phase, Phase::Active);
    for t in [12u64, 7, 30] {
        out.extend(o.handle(probe("P", t)));
    }
    assert_eq!(
        lines(&out),
        vec![
            "connected,P,/ip4/10.0.0.2/tcp/9092",
            "ping,P,12 ms",
            "ping,P,7 ms",
            "ping,P,30 ms",
            "passed",
        ]
    );
    assert_eq!(o.verdict, Verdict::Passed);
    assert_eq!(o.exit_code(), 0);
    // Concluding starts draining: listeners close, the peer is disconnected.
    assert!(matches!(out[out.len() - 2], Action::CloseListeners));
    assert!(matches!(&out[out.len() - 1], Action::Disconnect { peer } if peer == "P"));
    assert_eq!(o.phase, Phase::Draining);
    let last = o.handle(close("P"));
    assert_eq!(lines(&last), vec!["closed,P", "nomorepeers"]);
    assert_eq!(o.phase, Phase::Terminated);
    assert_eq!(o.exit_code(), 0);
}

#[test]
fn many_probes_pass() {
    for n in 3..8u64 {
        let mut o = started(ping_config());
        connect(&mut o, "P");
        for k in 0..n {
            o.handle(probe("P", k));
        }
        assert_eq!(o.verdict, Verdict::Passed);
        assert_eq!(o.evidence.probe_exchange_count, 3);
    }
}

#[test]
fn too_few_probes_then_disconnect_fails() {
    for n in 0..3u64 {
        let mut o = started(ping_config());
        connect(&mut o, "P");
        for k in 0..n {
            o.handle(probe("P", k));
        }
        assert_eq!(o.verdict, Verdict::Pending);
        let out = o.handle(close("P"));
        assert_eq!(o.verdict, Verdict::Failed(FailReason::PeerDisconnected));
        assert_eq!(
            lines(&out),
            vec!["closed,P", "failed,peer disconnected before checkpoint completion"]
        );
        assert_eq!(o.phase, Phase::Terminated);
        assert_eq!(o.exit_code(), 1);
    }
}

#[test]
fn disconnect_with_another_peer_left_does_not_fail() {
    let mut o = started(ping_config());
    connect(&mut o, "P");
    connect(&mut o, "Q");
    o.handle(probe("P", 1));
    o.handle(close("P"));
    assert_eq!(o.verdict, Verdict::Pending);
    o.handle(close("Q"));
    assert_eq!(o.verdict, Verdict::Failed(FailReason::PeerDisconnected));
}

#[test]
fn verdict_never_changes_after_conclusion() {
    let mut o = started(ping_config());
    connect(&mut o, "P");
    for t in 0..3u64 {
        o.handle(probe("P", t));
    }
    assert_eq!(o.verdict, Verdict::Passed);
    let before = o.evidence;
    for input in [
        probe("P", 4),
        Input::ProbeFailed { peer: "P".to_string(), cause: "timeout".to_string() },
        Input::Tick,
        Input::RoutingQueryTimedOut,
        close("P"),
        Input::Terminate,
        Input::HardStop,
    ] {
        o.handle(input);
        assert_eq!(o.verdict, Verdict::Passed);
    }
    // Evidence is frozen once the verdict is in.
    assert_eq!(o.evidence, before);
}

fn next_random(state: &mut u64) -> u64 {
    *state = state.wrapping_mul(6364136223846793005).wrapping_add(1442695040888963407);
    *state >> 33
}

#[test]
fn counters_never_decrease_over_random_inputs() {
    let mut seed: u64 = 42;
    for _ in 0..20 {
        let cfg = config(
            vec![
                Condition::MinimumSuccessfulProbes { count: 50 },
                Condition::RoutingConvergence,
            ],
            Scope::SinglePeer,
        );
        let mut o = started(cfg);
        for _ in 0..60 {
            let peer = format!("P{}", next_random(&mut seed) % 3);
            let input = match next_random(&mut seed) % 9 {
                0 => Input::ConnectionEstablished { peer, address: "a".to_string() },
                1 => Input::ConnectionClosed { peer, cause: None },
                2 => Input::ProbeCompleted { peer, rtt_ms: 5 },
                3 => Input::ProbeFailed { peer, cause: "x".to_string() },
                4 => Input::CapabilityExchanged {
                    peer,
                    agent: "a".to_string(),
                    protocol_version: "v".to_string(),
                    protocol_count: 2,
                },
                5 => Input::CapabilityExchangeFailed { peer, cause: "x".to_string() },
                6 => Input::TopicMessageReceived { topic: "t".to_string(), data: vec![0xff] },
                7 => Input::RoutingQueryTimedOut,
                _ => Input::Tick,
            };
            let before = o.evidence;
            o.handle(input);
            let after = o.evidence;
            assert!(after.probe_exchange_count >= before.probe_exchange_count);
            assert!(after.probe_failure_count >= before.probe_failure_count);
            assert!(after.capability_exchange_count >= before.capability_exchange_count);
            assert!(after.capability_failure_count >= before.capability_failure_count);
            assert!(after.messages_received >= before.messages_received);
            assert!(after.undecodable_messages >= before.undecodable_messages);
            assert!(after.routing_timeouts >= before.routing_timeouts);
            assert!(after.ticks >= before.ticks);
            assert!(!before.routing_converged || after.routing_converged);
        }
    }
}

fn identify(agent: &str) -> Input {
    Input::CapabilityExchanged {
        peer: "P".to_string(),
        agent: agent.to_string(),
        protocol_version: "/ipfs/id/1.0.0".to_string(),
        protocol_count: 4,
    }
}

#[test]
fn capability_without_literal_accepts_any_agent() {
    let cfg = config(
        vec![Condition::CapabilityExchangeObserved { expected_agent: None }],
        Scope::Aggregate,
    );
    let mut o = started(cfg);
    connect(&mut o, "P");
    let out = o.handle(identify("something-unexpected/9.9"));
    assert_eq!(lines(&out)[0], "identify,P,/ipfs/id/1.0.0,something-unexpected/9.9");
    assert_eq!(o.verdict, Verdict::Passed);
}

#[test]
fn capability_with_literal_rejects_other_agent() {
    let cfg = config(
        vec![Condition::CapabilityExchangeObserved {
            expected_agent: Some("universal-connectivity/0.1.0".to_string()),
        }],
        Scope::Aggregate,
    );
    let mut o = started(cfg);
    connect(&mut o, "P");
    o.handle(identify("something-unexpected/9.9"));
    assert_eq!(o.verdict, Verdict::Pending);
    o.handle(identify("universal-connectivity/0.1.0"));
    assert_eq!(o.verdict, Verdict::Passed);
}

#[test]
fn routing_convergence_as_first_event_passes() {
    let cfg = config(vec![Condition::RoutingConvergence], Scope::Aggregate);
    let mut o = started(cfg);
    let out = o.handle(Input::RoutingBootstrapProgress {
        contacted_peer: "B".to_string(),
        remaining: 0,
    });
    assert_eq!(o.verdict, Verdict::Passed);
    assert_eq!(lines(&out), vec!["kademlia,bootstrap", "passed"]);
    // Nobody is connected, so the run ends at once.
    assert_eq!(o.phase, Phase::Terminated);
    assert_eq!(o.exit_code(), 0);
}

#[test]
fn routing_progress_with_peers_remaining_is_not_convergence() {
    let cfg = config(vec![Condition::RoutingConvergence], Scope::Aggregate);
    let mut o = started(cfg);
    let out = o.handle(Input::RoutingBootstrapProgress {
        contacted_peer: "B".to_string(),
        remaining: 3,
    });
    assert!(out.is_empty());
    assert_eq!(o.verdict, Verdict::Pending);
}

#[test]
fn hard_stop_while_active_terminates_at_once() {
    let mut o = started(ping_config());
    connect(&mut o, "P");
    o.handle(probe("P", 3));
    let out = o.handle(Input::HardStop);
    assert_eq!(lines(&out), vec!["sigquit"]);
    assert_eq!(out.len(), 1);
    assert_eq!(o.phase, Phase::Terminated);
    assert_eq!(o.verdict, Verdict::Pending);
    assert_eq!(o.exit_code(), 1);
    // Nothing is done after termination.
    assert!(o.handle(probe("P", 3)).is_empty());
    assert!(o.is_terminated());
}

#[test]
fn terminate_drains_then_ends_when_peers_are_gone() {
    let mut o = started(ping_config());
    connect(&mut o, "P");
    connect(&mut o, "Q");
    let out = o.handle(Input::Terminate);
    assert!(matches!(out[0], Action::CloseListeners));
    assert_eq!(out.len(), 3);
    assert_eq!(o.phase, Phase::Draining);
    o.handle(close("P"));
    assert_eq!(o.phase, Phase::Draining);
    let out = o.handle(close("Q"));
    assert_eq!(lines(&out), vec!["closed,Q", "nomorepeers"]);
    assert_eq!(o.phase, Phase::Terminated);
    assert_eq!(o.exit_code(), 1);
}

#[test]
fn terminate_without_peers_ends_at_once() {
    let mut o = started(ping_config());
    let out = o.handle(Input::Terminate);
    assert_eq!(out.len(), 1);
    assert_eq!(o.phase, Phase::Terminated);
}

#[test]
fn timeout_fails_the_checkpoint() {
    let cfg = config(
        vec![
            Condition::MinimumSuccessfulProbes { count: 3 },
            Condition::Timeout { ticks: 2 },
        ],
        Scope::Aggregate,
    );
    let mut o = started(cfg);
    connect(&mut o, "P");
    o.handle(Input::Tick);
    assert_eq!(o.verdict, Verdict::Pending);
    let out = o.handle(Input::Tick);
    assert_eq!(o.verdict, Verdict::Failed(FailReason::TimedOut));
    assert!(lines(&out).contains(&"failed,timed out".to_string()));
}

#[test]
fn single_peer_scope_needs_one_peer_to_reach_the_count() {
    let single = config(vec![Condition::MinimumSuccessfulProbes { count: 3 }], Scope::SinglePeer);
    let mut o = started(single);
    connect(&mut o, "P");
    connect(&mut o, "Q");
    for peer in ["P", "Q", "P"] {
        o.handle(probe(peer, 1));
    }
    assert_eq!(o.verdict, Verdict::Pending);
    o.handle(probe("P", 1));
    assert_eq!(o.verdict, Verdict::Passed);

    let mut o = started(ping_config());
    connect(&mut o, "P");
    connect(&mut o, "Q");
    for peer in ["P", "Q", "P"] {
        o.handle(probe(peer, 1));
    }
    assert_eq!(o.verdict, Verdict::Passed);
}

#[test]
fn chatty_node_publishes_numbered_test_messages() {
    let mut cfg = ping_config();
    cfg.chatty = true;
    let mut o = started(cfg);
    let first = o.handle(Input::Tick);
    let second = o.handle(Input::Tick);
    assert!(matches!(first[0], Action::PublishTestMessage { counter: 1 }));
    assert!(matches!(second[0], Action::PublishTestMessage { counter: 2 }));
    assert_eq!(o.evidence.ticks, 2);
}

#[test]
fn topic_message_counts_when_it_decodes() {
    let cfg = config(
        vec![Condition::TopicMessageObserved { topic: "universal-connectivity".to_string() }],
        Scope::Aggregate,
    );
    let mut o = started(cfg);
    connect(&mut o, "P");
    let out = o.handle(Input::TopicMessageReceived {
        topic: "universal-connectivity".to_string(),
        data: vec![0xff, 0xff],
    });
    assert_eq!(lines(&out), vec!["error,universal-connectivity"]);
    assert_eq!(o.evidence.undecodable_messages, 1);
    assert_eq!(o.verdict, Verdict::Pending);
    let msg = UniversalConnectivityMessage {
        from: "P".to_string(),
        message: "hello".to_string(),
        timestamp: 1,
        message_type: 0,
    };
    let out = o.handle(Input::TopicMessageReceived {
        topic: "universal-connectivity".to_string(),
        data: msg.encode(),
    });
    assert_eq!(lines(&out)[0], "msg,P,universal-connectivity,hello");
    assert_eq!(o.evidence.messages_received, 1);
    assert_eq!(o.verdict, Verdict::Passed);
}

#[test]
fn early_close_flags_disconnect_peers() {
    let mut cfg = ping_config();
    cfg.close_after_connected = true;
    cfg.close_after_probe = true;
    let mut o = started(cfg);
    let out = connect(&mut o, "P");
    assert!(matches!(&out[1], Action::Disconnect { peer } if peer == "P"));
    let out = o.handle(probe("P", 2));
    assert!(matches!(&out[1], Action::Disconnect { peer } if peer == "P"));
}

#[test]
fn closed_with_error_reports_the_error() {
    let mut o = started(ping_config());
    connect(&mut o, "P");
    connect(&mut o, "Q");
    let out = o.handle(Input::ConnectionClosed {
        peer: "P".to_string(),
        cause: Some("connection reset".to_string()),
    });
    assert_eq!(lines(&out), vec!["error,connection reset"]);
}

#[test]
fn report_lines_have_stable_fields() {
    let cases = vec![
        (Report::Closed { peer: "P".to_string() }, "closed,P"),
        (
            Report::Incoming { local_addr: "L".to_string(), send_back_addr: "S".to_string() },
            "incoming,L,S",
        ),
        (Report::Ping { peer: "P".to_string(), rtt_ms: 0 }, "ping,P,0 ms"),
        (Report::Ping { peer: "P".to_string(), rtt_ms: 1234567 }, "ping,P,1234567 ms"),
        (
            Report::Subscribe { peer: "P".to_string(), topic: "T".to_string() },
            "subscribe,P,T",
        ),
        (
            Report::Unsubscribe { peer: "P".to_string(), topic: "T".to_string() },
            "unsubscribe,P,T",
        ),
        (Report::BootstrapTimedOut, "error,bootstrap timed out"),
        (
            Report::RoutingUpdate {
                peer: "N".to_string(),
                is_new: true,
                replaced: Some("O".to_string()),
            },
            "kademlia,routing_update,new N,replaced O",
        ),
        (
            Report::RoutingUpdate { peer: "N".to_string(), is_new: false, replaced: None },
            "kademlia,routing_update",
        ),
        (Report::NoMorePeers, "nomorepeers"),
        (Report::Concluded { verdict: Verdict::Pending }, "pending"),
    ];
    for (report, line) in cases {
        assert_eq!(report.to_line(), line);
    }
}

#[test]
fn draining_ends_after_the_grace_period() {
    let mut o = started(ping_config());
    connect(&mut o, "P");
    o.handle(Input::Terminate);
    assert_eq!(o.phase, Phase::Draining);
    assert!(o.handle(Input::Tick).is_empty());
    assert_eq!(o.phase, Phase::Draining);
    let out = o.handle(Input::Tick);
    assert_eq!(lines(&out), vec!["error,shutdown grace period elapsed"]);
    assert_eq!(o.phase, Phase::Terminated);
    assert_eq!(o.evidence.ticks, 0);
}

#[test]
fn closest_peers_are_reported_one_per_line() {
    let mut o = started(ping_config());
    let out = o.handle(Input::ClosestPeersFound {
        peers: vec![
            ClosestPeer {
                peer_id: "A".to_string(),
                addrs: vec!["/ip4/1.1.1.1/tcp/1".to_string(), "/ip4/2.2.2.2/tcp/2".to_string()],
            },
            ClosestPeer { peer_id: "B".to_string(), addrs: vec![] },
        ],
    });
    assert_eq!(
        lines(&out),
        vec![
            "kademlia,closestpeers,2",
            "closestpeer,A,/ip4/1.1.1.1/tcp/1,/ip4/2.2.2.2/tcp/2",
            "closestpeer,B",
        ]
    );
    let out = o.handle(Input::ClosestPeersTimedOut);
    assert_eq!(lines(&out), vec!["error,get closest peers timed out"]);
    assert_eq!(o.evidence.routing_timeouts, 1);
    let out = o.handle(Input::PeerRoutable { peer: "A".to_string(), address: "X".to_string() });
    assert_eq!(lines(&out), vec!["kademlia,routable,A,X"]);
    let out = o.handle(Input::PeerUnroutable { peer: "B".to_string() });
    assert_eq!(lines(&out), vec!["kademlia,unroutable B"]);
}

#[test]
fn welcome_is_published_once_on_first_connection() {
    let mut cfg = ping_config();
    cfg.welcome = true;
    let mut o = started(cfg);
    let out = connect(&mut o, "P");
    assert!(matches!(out[1], Action::PublishWelcome));
    let out = connect(&mut o, "Q");
    assert_eq!(out.len(), 1);
}
