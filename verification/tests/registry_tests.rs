use peer_network::bootstrap::message::BootstrapMessage;
use peer_network::bootstrap::network::{Registry, RegistryAction};
use peer_network::bootstrap::peer::Peer;

fn sorted(mut v: Vec<Peer>) -> Vec<(usize, String)> {
    v.sort_by_key(|p| p.id);
    v.into_iter().map(|p| (p.id, p.addr)).collect()
}

fn register(r: &mut Registry, id: usize, addr: &str) -> RegistryAction {
    r.handle_message(BootstrapMessage::Register { id, addr: addr.to_string() })
}

#[test]
fn first_registration_lists_only_newcomer() {
    let mut r = Registry::new();
    match register(&mut r, 1, "127.0.0.1:9001") {
        RegistryAction::Welcome { reply, notice, recipients } => {
            match reply {
                BootstrapMessage::PeerList { peers } => {
                    assert_eq!(sorted(peers), vec![(1, "127.0.0.1:9001".to_string())])
                }
                other => panic!("unexpected {:?}", other),
            }
            match notice {
                BootstrapMessage::NewPeer { peer } => {
                    assert_eq!(peer.id, 1);
                    assert_eq!(peer.addr, "127.0.0.1:9001");
                }
                other => panic!("unexpected {:?}", other),
            }
            assert!(recipients.is_empty());
        }
        _ => panic!("expected a welcome"),
    }
}

#[test]
fn second_registration_notifies_first() {
    let mut r = Registry::new();
    register(&mut r, 1, "127.0.0.1:9001");
    match register(&mut r, 2, "127.0.0.1:9002") {
        RegistryAction::Welcome { reply, recipients, .. } => {
            match reply {
                BootstrapMessage::PeerList { peers } => assert_eq!(
                    sorted(peers),
                    vec![(1, "127.0.0.1:9001".to_string()), (2, "127.0.0.1:9002".to_string())]
                ),
                other => panic!("unexpected {:?}", other),
            }
            assert_eq!(sorted(recipients), vec![(1, "127.0.0.1:9001".to_string())]);
        }
        _ => panic!("expected a welcome"),
    }
}

#[test]
fn reregistration_replaces_address() {
    let mut r = Registry::new();
    register(&mut r, 1, "127.0.0.1:9001");
    register(&mut r, 1, "127.0.0.1:9555");
    assert_eq!(sorted(r.peer_list()), vec![(1, "127.0.0.1:9555".to_string())]);
}

#[test]
fn deregistration_notifies_remaining() {
    let mut r = Registry::new();
    register(&mut r, 1, "a:1");
    register(&mut r, 2, "b:2");
    register(&mut r, 3, "c:3");
    match r.handle_message(BootstrapMessage::Deregister { id: 2 }) {
        RegistryAction::Farewell { notice, recipients } => {
            assert!(matches!(notice, BootstrapMessage::RemovePeer { id: 2 }));
            assert_eq!(sorted(recipients), vec![(1, "a:1".to_string()), (3, "c:3".to_string())]);
        }
        _ => panic!("expected a farewell"),
    }
    assert_eq!(sorted(r.peer_list()), vec![(1, "a:1".to_string()), (3, "c:3".to_string())]);
}

#[test]
fn join_then_leave_restores_registry() {
    let mut r = Registry::new();
    register(&mut r, 1, "a:1");
    register(&mut r, 7, "g:7");
    r.handle_message(BootstrapMessage::Deregister { id: 7 });
    assert_eq!(sorted(r.peer_list()), vec![(1, "a:1".to_string())]);
}

#[test]
fn deregistering_unknown_peer_changes_nothing() {
    let mut r = Registry::new();
    register(&mut r, 1, "a:1");
    match r.handle_message(BootstrapMessage::Deregister { id: 5 }) {
        RegistryAction::Farewell { recipients, .. } => {
            assert_eq!(sorted(recipients), vec![(1, "a:1".to_string())])
        }
        _ => panic!("expected a farewell"),
    }
    assert_eq!(sorted(r.peer_list()), vec![(1, "a:1".to_string())]);
}

#[test]
fn other_messages_are_ignored() {
    let mut r = Registry::new();
    register(&mut r, 1, "a:1");
    let msgs = vec![
        BootstrapMessage::PeerList { peers: vec![] },
        BootstrapMessage::NewPeer { peer: Peer { id: 2, addr: "b:2".to_string() } },
        BootstrapMessage::RemovePeer { id: 1 },
    ];
    for m in msgs {
        assert!(matches!(r.handle_message(m), RegistryAction::Ignore));
    }
    assert_eq!(sorted(r.peer_list()), vec![(1, "a:1".to_string())]);
}

#[test]
fn broadcast_recipients_exclude_given_peer() {
    let mut r = Registry::new();
    r.register(1, "a:1".to_string());
    r.register(2, "b:2".to_string());
    assert_eq!(sorted(r.broadcast_recipients(2)), vec![(1, "a:1".to_string())]);
    assert_eq!(sorted(r.broadcast_recipients(9)).len(), 2);
    r.deregister(1);
    assert_eq!(sorted(r.peer_list()), vec![(2, "b:2".to_string())]);
}

#[test]
fn peer_clone_keeps_fields() {
    let p = Peer { id: 3, addr: "c:3".to_string() };
    let q = p.clone();
    assert_eq!(q.id, 3);
    assert_eq!(q.addr, "c:3");
}
