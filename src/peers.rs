use vstd::prelude::*;
use crate::criteria::PeerRecord;

verus! {

/// `x + 1`, held at `u64::MAX`.
pub open spec fn sat_inc(x: u64) -> u64 {
    if x < u64::MAX {
        (x + 1) as u64
    } else {
        x
    }
}

/// `x - 1`, held at zero.
pub open spec fn sat_dec(x: u64) -> u64 {
    if x > 0 {
        (x - 1) as u64
    } else {
        x
    }
}

pub fn inc(x: u64) -> (r: u64)
    ensures
        r == sat_inc(x),
{
    if x < u64::MAX {
        x + 1
    } else {
        x
    }
}

pub fn dec(x: u64) -> (r: u64)
    ensures
        r == sat_dec(x),
{
    if x > 0 {
        x - 1
    } else {
        x
    }
}

/// No two records of the table name the same peer.
pub open spec fn unique(peers: Seq<PeerRecord>) -> bool {
    forall|j: int, k: int|
        0 <= j < peers.len() && 0 <= k < peers.len() && j != k ==> (#[trigger] peers[j]).id@
            != (#[trigger] peers[k]).id@
}

pub open spec fn has_peer(peers: Seq<PeerRecord>, id: Seq<char>) -> bool {
    exists|k: int| 0 <= k < peers.len() && (#[trigger] peers[k]).id@ == id
}

pub open spec fn peer_index(peers: Seq<PeerRecord>, id: Seq<char>) -> int {
    choose|k: int| 0 <= k < peers.len() && (#[trigger] peers[k]).id@ == id
}

/// Whether some peer has a connection open.
pub open spec fn connected(peers: Seq<PeerRecord>) -> bool {
    exists|k: int| 0 <= k < peers.len() && (#[trigger] peers[k]).connections > 0
}

/// The table after a connection to `id` opened; an unknown peer gets a record.
pub open spec fn opened(peers: Seq<PeerRecord>, id: String) -> Seq<PeerRecord> {
    if has_peer(peers, id@) {
        let k = peer_index(peers, id@);
        peers.update(
            k,
            PeerRecord {
                id: peers[k].id,
                connections: sat_inc(peers[k].connections),
                probes: peers[k].probes,
            },
        )
    } else {
        peers.push(PeerRecord { id, connections: 1, probes: 0 })
    }
}

/// The table after a connection to `id` closed; an unknown peer changes nothing.
pub open spec fn closed(peers: Seq<PeerRecord>, id: Seq<char>) -> Seq<PeerRecord> {
    if has_peer(peers, id) {
        let k = peer_index(peers, id);
        peers.update(
            k,
            PeerRecord {
                id: peers[k].id,
                connections: sat_dec(peers[k].connections),
                probes: peers[k].probes,
            },
        )
    } else {
        peers
    }
}

/// The table after a successful probe with `id`; an unknown peer gets a record.
pub open spec fn probed(peers: Seq<PeerRecord>, id: String) -> Seq<PeerRecord> {
    if has_peer(peers, id@) {
        let k = peer_index(peers, id@);
        peers.update(
            k,
            PeerRecord {
                id: peers[k].id,
                connections: peers[k].connections,
                probes: sat_inc(peers[k].probes),
            },
        )
    } else {
        peers.push(PeerRecord { id, connections: 0, probes: 1 })
    }
}

/// The position of the record of `id`, if the table has one.
pub fn find_peer(peers: &Vec<PeerRecord>, id: &String) -> (r: Option<usize>)
    requires
        unique(peers@),
    ensures
        match r {
            Some(k) => has_peer(peers@, id@) && k == peer_index(peers@, id@),
            None => !has_peer(peers@, id@),
        },
{
    let mut i: usize = 0;
    while i < peers.len()
        invariant
            i <= peers@.len(),
            unique(peers@),
            forall|k: int| 0 <= k < i ==> (#[trigger] peers@[k]).id@ != id@,
        decreases peers@.len() - i,
    {
        if peers[i].id == *id {
            proof {
                let k = peer_index(peers@, id@);
                assert(peers@[i as int].id@ == id@);
                assert(has_peer(peers@, id@));
                assert(0 <= k < peers@.len() && peers@[k].id@ == id@);
                if k != i as int {
                    assert(peers@[k].id@ != peers@[i as int].id@);
                }
            }
            return Some(i);
        }
        i = i + 1;
    }
    None
}

proof fn lemma_update_keeps_unique(peers: Seq<PeerRecord>, k: int, rec: PeerRecord)
    requires
        unique(peers),
        0 <= k < peers.len(),
        rec.id@ == peers[k].id@,
    ensures
        unique(peers.update(k, rec)),
{
    let p = peers.update(k, rec);
    assert forall|a: int, b: int|
        0 <= a < p.len() && 0 <= b < p.len() && a != b implies (#[trigger] p[a]).id@
        != (#[trigger] p[b]).id@ by {
        assert(p[a].id@ == peers[a].id@);
        assert(p[b].id@ == peers[b].id@);
    }
}

proof fn lemma_push_keeps_unique(peers: Seq<PeerRecord>, rec: PeerRecord)
    requires
        unique(peers),
        !has_peer(peers, rec.id@),
    ensures
        unique(peers.push(rec)),
{
    let p = peers.push(rec);
    assert forall|a: int, b: int|
        0 <= a < p.len() && 0 <= b < p.len() && a != b implies (#[trigger] p[a]).id@
        != (#[trigger] p[b]).id@ by {
        if a < peers.len() && b < peers.len() {
            assert(p[a] == peers[a] && p[b] == peers[b]);
        } else if a < peers.len() {
            assert(p[a] == peers[a]);
        } else {
            assert(p[b] == peers[b]);
        }
    }
}

/// Records that a connection to `id` opened.
pub fn open_connection(peers: &mut Vec<PeerRecord>, id: &String)
    requires
        unique(old(peers)@),
    ensures
        final(peers)@ == opened(old(peers)@, *id),
        unique(final(peers)@),
{
    match find_peer(peers, id) {
        Some(k) => {
            let rec = PeerRecord {
                id: peers[k].id.clone(),
                connections: inc(peers[k].connections),
                probes: peers[k].probes,
            };
            proof {
                lemma_update_keeps_unique(peers@, k as int, rec);
            }
            peers.set(k, rec);
        },
        None => {
            let rec = PeerRecord { id: id.clone(), connections: 1, probes: 0 };
            proof {
                lemma_push_keeps_unique(peers@, rec);
            }
            peers.push(rec);
        },
    }
}

/// Records that a connection to `id` closed.
pub fn close_connection(peers: &mut Vec<PeerRecord>, id: &String)
    requires
        unique(old(peers)@),
    ensures
        final(peers)@ == closed(old(peers)@, id@),
        unique(final(peers)@),
{
    match find_peer(peers, id) {
        Some(k) => {
            let rec = PeerRecord {
                id: peers[k].id.clone(),
                connections: dec(peers[k].connections),
                probes: peers[k].probes,
            };
            proof {
                lemma_update_keeps_unique(peers@, k as int, rec);
            }
            peers.set(k, rec);
        },
        None => {},
    }
}

/// Records a successful probe with `id`.
pub fn record_probe(peers: &mut Vec<PeerRecord>, id: &String)
    requires
        unique(old(peers)@),
    ensures
        final(peers)@ == probed(old(peers)@, *id),
        unique(final(peers)@),
{
    match find_peer(peers, id) {
        Some(k) => {
            let rec = PeerRecord {
                id: peers[k].id.clone(),
                connections: peers[k].connections,
                probes: inc(peers[k].probes),
            };
            proof {
                lemma_update_keeps_unique(peers@, k as int, rec);
            }
            peers.set(k, rec);
        },
        None => {
            let rec = PeerRecord { id: id.clone(), connections: 0, probes: 1 };
            proof {
                lemma_push_keeps_unique(peers@, rec);
            }
            peers.push(rec);
        },
    }
}

/// Whether some peer has a connection open.
pub fn any_connected(peers: &Vec<PeerRecord>) -> (r: bool)
    ensures
        r == connected(peers@),
{
    let mut i: usize = 0;
    while i < peers.len()
        invariant
            i <= peers@.len(),
            forall|k: int| 0 <= k < i ==> (#[trigger] peers@[k]).connections == 0,
        decreases peers@.len() - i,
    {
        if peers[i].connections > 0 {
            return true;
        }
        i = i + 1;
    }
    false
}

} // verus!
