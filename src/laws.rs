use vstd::prelude::*;
use crate::criteria::{
    all_met, condition_met, evaluate, timed_out, Condition, Criteria, FailReason, Observations,
    PeerRecord, Verdict,
};
use crate::event::Input;
use crate::orchestrator::{collecting, next, observations, record, run, Config, Model};
use crate::peers::{closed, connected, has_peer, peer_index, probed, unique};

verus! {

/// The checkpoint's only condition is `n` successful probes, counted over all peers.
pub open spec fn only_probes(cr: Criteria, n: u64) -> bool {
    &&& cr.conditions@ == seq![Condition::MinimumSuccessfulProbes { count: n }]
    &&& cr.scope is Aggregate
}

proof fn lemma_only_probes_evaluate(cr: Criteria, n: u64, obs: Observations)
    requires
        only_probes(cr, n),
    ensures
        evaluate(cr, obs) == if obs.evidence.probe_exchange_count >= n {
            Verdict::Passed
        } else {
            Verdict::Pending
        },
{
    let c0 = cr.conditions@[0];
    assert(c0 == Condition::MinimumSuccessfulProbes { count: n });
    if obs.evidence.probe_exchange_count >= n {
        assert forall|k: int| 0 <= k < cr.conditions@.len() implies condition_met(
            #[trigger] cr.conditions@[k],
            cr.scope,
            obs,
        ) by {
            assert(k == 0);
        }
        assert(all_met(cr, obs));
    } else {
        assert(!condition_met(c0, cr.scope, obs));
        assert(!all_met(cr, obs));
        assert(!timed_out(cr, obs)) by {
            if timed_out(cr, obs) {
                let k = choose|k: int|
                    0 <= k < cr.conditions@.len() && match #[trigger] cr.conditions@[k] {
                        Condition::Timeout { ticks } => obs.evidence.ticks >= ticks,
                        _ => false,
                    };
                assert(k == 0);
            }
        }
    }
}

/// Every evidence counter after an input is at least what it was before, and
/// a convergence once seen stays seen.
pub proof fn lemma_step_evidence_grows(cfg: Config, m: Model, i: Input)
    ensures
        m.evidence.grows_to(next(cfg, m, i).evidence),
{
}

/// Over any sequence of inputs, no evidence counter ever decreases.
pub proof fn lemma_run_evidence_grows(cfg: Config, m: Model, inputs: Seq<Input>)
    ensures
        m.evidence.grows_to(run(cfg, m, inputs).evidence),
    decreases inputs.len(),
{
    if inputs.len() > 0 {
        let m1 = next(cfg, m, inputs[0]);
        lemma_step_evidence_grows(cfg, m, inputs[0]);
        lemma_run_evidence_grows(cfg, m1, inputs.drop_first());
    }
}

/// Once the verdict is no longer pending, no input changes it.
pub proof fn lemma_step_verdict_final(cfg: Config, m: Model, i: Input)
    requires
        !(m.verdict is Pending),
    ensures
        next(cfg, m, i).verdict == m.verdict,
{
}

/// Once the verdict is no longer pending, no sequence of inputs changes it.
pub proof fn lemma_run_verdict_final(cfg: Config, m: Model, inputs: Seq<Input>)
    requires
        !(m.verdict is Pending),
    ensures
        run(cfg, m, inputs).verdict == m.verdict,
    decreases inputs.len(),
{
    if inputs.len() > 0 {
        lemma_step_verdict_final(cfg, m, inputs[0]);
        lemma_run_verdict_final(cfg, next(cfg, m, inputs[0]), inputs.drop_first());
    }
}

pub open spec fn all_probes(inputs: Seq<Input>) -> bool {
    forall|k: int| 0 <= k < inputs.len() ==> (#[trigger] inputs[k]) is ProbeCompleted
}

/// A checkpoint that asks for `n` probes passes once enough successful probes
/// arrive while it is still collecting evidence: a run of probe completions
/// that, added to those already counted, reaches `n`, ends `Passed`.
pub proof fn lemma_enough_probes_pass(cfg: Config, n: u64, m: Model, inputs: Seq<Input>)
    requires
        only_probes(cfg.criteria, n),
        collecting(m),
        all_probes(inputs),
        m.evidence.probe_exchange_count < n,
        m.evidence.probe_exchange_count + inputs.len() >= n,
    ensures
        run(cfg, m, inputs).verdict == Verdict::Passed,
    decreases inputs.len(),
{
    let i = inputs[0];
    assert(i is ProbeCompleted);
    let m1 = record(cfg, m, i);
    let m2 = next(cfg, m, i);
    let rest = inputs.drop_first();
    assert(m1.evidence.probe_exchange_count == m.evidence.probe_exchange_count + 1);
    lemma_only_probes_evaluate(cfg.criteria, n, observations(m1));
    if m1.evidence.probe_exchange_count >= n {
        assert(m2.verdict == Verdict::Passed);
        lemma_run_verdict_final(cfg, m2, rest);
    } else {
        assert(m2 == m1);
        assert(collecting(m2));
        assert forall|k: int| 0 <= k < rest.len() implies (#[trigger] rest[k]) is ProbeCompleted by {
            assert(rest[k] == inputs[k + 1]);
        }
        lemma_enough_probes_pass(cfg, n, m2, rest);
    }
}

/// On the ping checkpoint, which asks for three probes, a run that has seen
/// no probe yet and is still collecting evidence (a fresh run, or one whose
/// peer has just connected) passes after any three or more probe completions.
pub proof fn lemma_three_probes_pass(cfg: Config, m: Model, inputs: Seq<Input>)
    requires
        only_probes(cfg.criteria, 3),
        collecting(m),
        m.evidence.probe_exchange_count == 0,
        all_probes(inputs),
        inputs.len() >= 3,
    ensures
        run(cfg, m, inputs).verdict == Verdict::Passed,
{
    lemma_enough_probes_pass(cfg, 3, m, inputs);
}

/// The only open connection is a single one, to the peer `id`.
pub open spec fn sole_connection(peers: Seq<PeerRecord>, id: Seq<char>) -> bool {
    &&& has_peer(peers, id)
    &&& forall|k: int|
        0 <= k < peers.len() ==> (#[trigger] peers[k]).connections == if peers[k].id@ == id {
            1u64
        } else {
            0u64
        }
}

proof fn lemma_probe_keeps_sole(peers: Seq<PeerRecord>, p: String, id: Seq<char>)
    requires
        unique(peers),
        sole_connection(peers, id),
    ensures
        unique(probed(peers, p)),
        sole_connection(probed(peers, p), id),
{
    let q = probed(peers, p);
    if has_peer(peers, p@) {
        let j = peer_index(peers, p@);
        assert(q[j].id == peers[j].id);
        assert forall|a: int, b: int|
            0 <= a < q.len() && 0 <= b < q.len() && a != b implies (#[trigger] q[a]).id@
            != (#[trigger] q[b]).id@ by {
            assert(q[a].id == peers[a].id);
            assert(q[b].id == peers[b].id);
        }
        assert forall|k: int| 0 <= k < q.len() implies (#[trigger] q[k]).connections == if q[k].id@
            == id {
            1u64
        } else {
            0u64
        } by {
            assert(q[k].id == peers[k].id && q[k].connections == peers[k].connections);
        }
        let w = choose|k: int| 0 <= k < peers.len() && (#[trigger] peers[k]).id@ == id;
        assert(q[w].id == peers[w].id);
        assert(has_peer(q, id));
    } else {
        let n = peers.len() as int;
        assert(q[n].id@ == p@);
        assert forall|a: int, b: int|
            0 <= a < q.len() && 0 <= b < q.len() && a != b implies (#[trigger] q[a]).id@
            != (#[trigger] q[b]).id@ by {
            if a < n {
                assert(q[a] == peers[a]);
            }
            if b < n {
                assert(q[b] == peers[b]);
            }
        }
        assert(p@ != id);
        assert forall|k: int| 0 <= k < q.len() implies (#[trigger] q[k]).connections == if q[k].id@
            == id {
            1u64
        } else {
            0u64
        } by {
            if k < n {
                assert(q[k] == peers[k]);
            }
        }
        let w = choose|k: int| 0 <= k < peers.len() && (#[trigger] peers[k]).id@ == id;
        assert(q[w] == peers[w]);
        assert(has_peer(q, id));
    }
}

proof fn lemma_close_sole(peers: Seq<PeerRecord>, id: Seq<char>)
    requires
        unique(peers),
        sole_connection(peers, id),
    ensures
        !connected(closed(peers, id)),
{
    let q = closed(peers, id);
    let j = peer_index(peers, id);
    assert(peers[j].connections == 1);
    assert(q[j].connections == 0);
    assert forall|k: int| 0 <= k < q.len() implies (#[trigger] q[k]).connections == 0 by {
        if k != j {
            assert(q[k] == peers[k]);
            assert(peers[k].id@ != peers[j].id@);
        }
    }
}

/// An active checkpoint that asks for `n` probes fails, with the peer gone
/// before completion as the reason, when fewer than `n` probes have been
/// counted by the time its only connected peer disconnects.
pub proof fn lemma_early_disconnect_fails(
    cfg: Config,
    n: u64,
    m: Model,
    probes: Seq<Input>,
    peer: String,
    cause: Option<String>,
)
    requires
        only_probes(cfg.criteria, n),
        collecting(m),
        m.phase is Active,
        unique(m.peers),
        sole_connection(m.peers, peer@),
        all_probes(probes),
        m.evidence.probe_exchange_count + probes.len() < n,
    ensures
        run(cfg, m, probes.push(Input::ConnectionClosed { peer, cause })).verdict
            == Verdict::Failed(FailReason::PeerDisconnected),
    decreases probes.len(),
{
    let inputs = probes.push(Input::ConnectionClosed { peer, cause });
    let i = inputs[0];
    let m1 = record(cfg, m, i);
    let m2 = next(cfg, m, i);
    let rest = inputs.drop_first();
    lemma_only_probes_evaluate(cfg.criteria, n, observations(m1));
    if probes.len() == 0 {
        assert(i == Input::ConnectionClosed { peer, cause });
        lemma_close_sole(m.peers, peer@);
        assert(m2.verdict == Verdict::Failed(FailReason::PeerDisconnected));
        lemma_run_verdict_final(cfg, m2, rest);
    } else {
        assert(i == probes[0]);
        assert(i is ProbeCompleted);
        let p = i->ProbeCompleted_peer;
        lemma_probe_keeps_sole(m.peers, p, peer@);
        assert(m2 == m1);
        let tail = probes.drop_first();
        assert(rest =~= tail.push(Input::ConnectionClosed { peer, cause }));
        assert forall|k: int| 0 <= k < tail.len() implies (#[trigger] tail[k]) is ProbeCompleted by {
            assert(tail[k] == probes[k + 1]);
        }
        lemma_early_disconnect_fails(cfg, n, m2, tail, peer, cause);
    }
}

} // verus!
