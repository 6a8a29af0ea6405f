//! Network addresses as sequences of protocol components.
use vstd::prelude::*;

verus! {

/// One component of a network address, as the logic reads it: a peer
/// identity component with the peer id's text, or any other component with
/// its text.
#[derive(Clone, Debug)]
pub enum Component {
    Peer(String),
    Other(String),
}

/// No component before position `k` names a peer.
pub open spec fn no_peer_before(components: Seq<Component>, k: int) -> bool {
    forall|j: int| 0 <= j < k ==> !((#[trigger] components[j]) is Peer)
}

/// Splits an address at its first peer component: the peer id, and the
/// number of components before it, which make up the address to reach the
/// peer at. `None` when no component names a peer.
pub fn split_address(components: &Vec<Component>) -> (r: Option<(String, usize)>)
    ensures
        match r {
            Some((id, k)) => k < components@.len() && components@[k as int] == Component::Peer(id)
                && no_peer_before(components@, k as int),
            None => no_peer_before(components@, components@.len() as int),
        },
{
    let mut i: usize = 0;
    while i < components.len()
        invariant
            i <= components@.len(),
            no_peer_before(components@, i as int),
        decreases components@.len() - i,
    {
        match &components[i] {
            Component::Peer(id) => {
                return Some((id.clone(), i));
            },
            Component::Other(_) => {},
        }
        i = i + 1;
    }
    None
}

} // verus!
