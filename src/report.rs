//! The reporter's status lines: comma-separated, event kind first.
use vstd::prelude::*;
use crate::criteria::{FailReason, Verdict};
use crate::event::{ClosestPeer, Report};

verus! {

pub open spec fn digit_char(d: nat) -> char {
    if d == 0 {
        '0'
    } else if d == 1 {
        '1'
    } else if d == 2 {
        '2'
    } else if d == 3 {
        '3'
    } else if d == 4 {
        '4'
    } else if d == 5 {
        '5'
    } else if d == 6 {
        '6'
    } else if d == 7 {
        '7'
    } else if d == 8 {
        '8'
    } else {
        '9'
    }
}

/// The decimal digits of `n`, most significant first, without leading zeros.
pub open spec fn decimal(n: nat) -> Seq<char>
    decreases n,
{
    if n < 10 {
        seq![digit_char(n)]
    } else {
        decimal(n / 10).push(digit_char(n % 10))
    }
}

fn digit_str(d: u64) -> (r: &'static str)
    requires
        d < 10,
    ensures
        r@ == seq![digit_char(d as nat)],
{
    if d == 0 {
        proof {
            reveal_strlit("0");
        }
        "0"
    } else if d == 1 {
        proof {
            reveal_strlit("1");
        }
        "1"
    } else if d == 2 {
        proof {
            reveal_strlit("2");
        }
        "2"
    } else if d == 3 {
        proof {
            reveal_strlit("3");
        }
        "3"
    } else if d == 4 {
        proof {
            reveal_strlit("4");
        }
        "4"
    } else if d == 5 {
        proof {
            reveal_strlit("5");
        }
        "5"
    } else if d == 6 {
        proof {
            reveal_strlit("6");
        }
        "6"
    } else if d == 7 {
        proof {
            reveal_strlit("7");
        }
        "7"
    } else if d == 8 {
        proof {
            reveal_strlit("8");
        }
        "8"
    } else {
        proof {
            reveal_strlit("9");
        }
        "9"
    }
}

/// Appends the decimal digits of `n` to `out`.
pub fn push_decimal(out: &mut String, n: u64)
    ensures
        final(out)@ == old(out)@ + decimal(n as nat),
    decreases n,
{
    if n >= 10 {
        push_decimal(out, n / 10);
    }
    out.append(digit_str(n % 10));
    assert(final(out)@ =~= old(out)@ + decimal(n as nat)) by {
        if n >= 10 {
            assert(decimal(n as nat) == decimal((n / 10) as nat).push(digit_char((n % 10) as nat)));
        }
    }
}

/// Each address, preceded by a comma.
pub open spec fn joined(addrs: Seq<String>) -> Seq<char>
    decreases addrs.len(),
{
    if addrs.len() == 0 {
        Seq::empty()
    } else {
        joined(addrs.drop_last()) + ","@ + addrs.last()@
    }
}

/// The text of a verdict.
pub open spec fn verdict_text(v: Verdict) -> Seq<char> {
    match v {
        Verdict::Pending => "pending"@,
        Verdict::Passed => "passed"@,
        Verdict::Failed(FailReason::PeerDisconnected) => "failed,peer disconnected before checkpoint completion"@,
        Verdict::Failed(FailReason::TimedOut) => "failed,timed out"@,
    }
}

/// The line that the reporter prints for `r`.
pub open spec fn line(r: Report) -> Seq<char> {
    match r {
        Report::Connected { peer, address } => "connected,"@ + peer@ + ","@ + address@,
        Report::Closed { peer } => "closed,"@ + peer@,
        Report::Error { detail } => "error,"@ + detail@,
        Report::Incoming { local_addr, send_back_addr } => "incoming,"@ + local_addr@ + ","@
            + send_back_addr@,
        Report::Ping { peer, rtt_ms } => "ping,"@ + peer@ + ","@ + decimal(rtt_ms as nat) + " ms"@,
        Report::Identify { peer, protocol_version, agent } => "identify,"@ + peer@ + ","@
            + protocol_version@ + ","@ + agent@,
        Report::Msg { sender, topic, text } => "msg,"@ + sender@ + ","@ + topic@ + ","@ + text@,
        Report::Undecodable { topic } => "error,"@ + topic@,
        Report::Subscribe { peer, topic } => "subscribe,"@ + peer@ + ","@ + topic@,
        Report::Unsubscribe { peer, topic } => "unsubscribe,"@ + peer@ + ","@ + topic@,
        Report::Bootstrap => "kademlia,bootstrap"@,
        Report::BootstrapTimedOut => "error,bootstrap timed out"@,
        Report::RoutingUpdate { peer, is_new, replaced } => "kademlia,routing_update"@ + (if is_new {
            ",new "@ + peer@
        } else {
            Seq::empty()
        }) + match replaced {
            Some(old_peer) => ",replaced "@ + old_peer@,
            None => Seq::empty(),
        },
        Report::ClosestPeers { count } => "kademlia,closestpeers,"@ + decimal(count as nat),
        Report::ClosestPeer(p) => "closestpeer,"@ + p.peer_id@ + joined(p.addrs@),
        Report::ClosestPeersTimedOut => "error,get closest peers timed out"@,
        Report::Routable { peer, address } => "kademlia,routable,"@ + peer@ + ","@ + address@,
        Report::Unroutable { peer } => "kademlia,unroutable "@ + peer@,
        Report::NoMorePeers => "nomorepeers"@,
        Report::GraceExpired => "error,shutdown grace period elapsed"@,
        Report::SigQuit => "sigquit"@,
        Report::Concluded { verdict } => verdict_text(verdict),
    }
}

/// The text of a verdict.
pub fn verdict_line(v: Verdict) -> (r: String)
    ensures
        r@ == verdict_text(v),
{
    match v {
        Verdict::Pending => String::from_str("pending"),
        Verdict::Passed => String::from_str("passed"),
        Verdict::Failed(FailReason::PeerDisconnected) => String::from_str(
            "failed,peer disconnected before checkpoint completion",
        ),
        Verdict::Failed(FailReason::TimedOut) => String::from_str("failed,timed out"),
    }
}

fn closest_peer_line(p: &ClosestPeer) -> (r: String)
    ensures
        r@ == "closestpeer,"@ + p.peer_id@ + joined(p.addrs@),
{
    let mut r = String::from_str("closestpeer,");
    r.append(p.peer_id.as_str());
    let ghost head = r@;
    let mut i: usize = 0;
    while i < p.addrs.len()
        invariant
            i <= p.addrs@.len(),
            r@ == head + joined(p.addrs@.subrange(0, i as int)),
        decreases p.addrs@.len() - i,
    {
        let ghost cur = p.addrs@.subrange(0, i as int + 1);
        assert(cur.drop_last() =~= p.addrs@.subrange(0, i as int));
        r.append(",");
        r.append(p.addrs[i].as_str());
        assert(r@ =~= head + joined(cur));
        i = i + 1;
    }
    assert(p.addrs@.subrange(0, p.addrs@.len() as int) =~= p.addrs@);
    r
}

impl Report {
    /// The reporter's line for this report.
    pub fn to_line(&self) -> (r: String)
        ensures
            r@ == line(*self),
    {
        match self {
            Report::Connected { peer, address } => {
                let mut r = String::from_str("connected,");
                r.append(peer.as_str());
                r.append(",");
                r.append(address.as_str());
                r
            },
            Report::Closed { peer } => {
                let mut r = String::from_str("closed,");
                r.append(peer.as_str());
                r
            },
            Report::Error { detail } => {
                let mut r = String::from_str("error,");
                r.append(detail.as_str());
                r
            },
            Report::Incoming { local_addr, send_back_addr } => {
                let mut r = String::from_str("incoming,");
                r.append(local_addr.as_str());
                r.append(",");
                r.append(send_back_addr.as_str());
                r
            },
            Report::Ping { peer, rtt_ms } => {
                let mut r = String::from_str("ping,");
                r.append(peer.as_str());
                r.append(",");
                push_decimal(&mut r, *rtt_ms);
                r.append(" ms");
                r
            },
            Report::Identify { peer, protocol_version, agent } => {
                let mut r = String::from_str("identify,");
                r.append(peer.as_str());
                r.append(",");
                r.append(protocol_version.as_str());
                r.append(",");
                r.append(agent.as_str());
                r
            },
            Report::Msg { sender, topic, text } => {
                let mut r = String::from_str("msg,");
                r.append(sender.as_str());
                r.append(",");
                r.append(topic.as_str());
                r.append(",");
                r.append(text.as_str());
                r
            },
            Report::Undecodable { topic } => {
                let mut r = String::from_str("error,");
                r.append(topic.as_str());
                r
            },
            Report::Subscribe { peer, topic } => {
                let mut r = String::from_str("subscribe,");
                r.append(peer.as_str());
                r.append(",");
                r.append(topic.as_str());
                r
            },
            Report::Unsubscribe { peer, topic } => {
                let mut r = String::from_str("unsubscribe,");
                r.append(peer.as_str());
                r.append(",");
                r.append(topic.as_str());
                r
            },
            Report::Bootstrap => String::from_str("kademlia,bootstrap"),
            Report::BootstrapTimedOut => String::from_str("error,bootstrap timed out"),
            Report::RoutingUpdate { peer, is_new, replaced } => {
                let mut r = String::from_str("kademlia,routing_update");
                if *is_new {
                    r.append(",new ");
                    r.append(peer.as_str());
                }
                match replaced {
                    Some(old_peer) => {
                        r.append(",replaced ");
                        r.append(old_peer.as_str());
                    },
                    None => {},
                }
                r
            },
            Report::ClosestPeers { count } => {
                let mut r = String::from_str("kademlia,closestpeers,");
                push_decimal(&mut r, *count);
                r
            },
            Report::ClosestPeer(p) => closest_peer_line(p),
            Report::ClosestPeersTimedOut => String::from_str("error,get closest peers timed out"),
            Report::Routable { peer, address } => {
                let mut r = String::from_str("kademlia,routable,");
                r.append(peer.as_str());
                r.append(",");
                r.append(address.as_str());
                r
            },
            Report::Unroutable { peer } => {
                let mut r = String::from_str("kademlia,unroutable ");
                r.append(peer.as_str());
                r
            },
            Report::NoMorePeers => String::from_str("nomorepeers"),
            Report::GraceExpired => String::from_str("error,shutdown grace period elapsed"),
            Report::SigQuit => String::from_str("sigquit"),
            Report::Concluded { verdict } => verdict_line(*verdict),
        }
    }
}

} // verus!
