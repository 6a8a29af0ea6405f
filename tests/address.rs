use checkpoint::address::{split_address, Component};

fn other(s: &str) -> Component {
    Component::Other(s.to_string())
}

fn peer(s: &str) -> Component {
    Component::Peer(s.to_string())
}

#[test]
fn address_splits_at_first_peer() {
    let parts = vec![other("/ip4/1.2.3.4"), other("/tcp/9090"), peer("12D3KooWA"), peer("12D3KooWB")];
    assert_eq!(split_address(&parts), Some(("12D3KooWA".to_string(), 2)));
}

#[test]
fn address_without_peer_does_not_split() {
    assert_eq!(split_address(&vec![other("/ip4/1.2.3.4"), other("/tcp/1")]), None);
    assert_eq!(split_address(&vec![]), None);
    assert_eq!(split_address(&vec![peer("P")]), Some(("P".to_string(), 0)));
}
