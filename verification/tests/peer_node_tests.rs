use peer_network::bootstrap::message::{BootstrapMessage, MessageType};
use peer_network::bootstrap::peer::Peer;
use peer_network::peer_node::network::{
    bootstrap_event, generate_peer_id, welcome_message, Arrival, Link, Network, PeerEvent, PortProbe,
    ProbeStep,
};

#[test]
fn new_network_is_empty() {
    let n = Network::new(12, "127.0.0.1:9100".to_string());
    assert_eq!(n.id, 12);
    assert_eq!(n.addr, "127.0.0.1:9100");
    assert!(n.peers.is_empty());
    assert_eq!(n.leader_id, None);
}

#[test]
fn registration_request_targets_bootstrap() {
    let n = Network::new(12, "127.0.0.1:9100".to_string());
    let req = n.register_with_bootstrap("127.0.0.1:8000");
    assert_eq!(req.url, "ws://127.0.0.1:8000");
    match req.message {
        BootstrapMessage::Register { id, addr } => {
            assert_eq!(id, 12);
            assert_eq!(addr, "127.0.0.1:9100");
        }
        other => panic!("unexpected {:?}", other),
    }
}

#[test]
fn removal_request_deregisters() {
    let n = Network::new(12, "x:1".to_string());
    let req = n.remove_peer(12, "127.0.0.1:8000");
    assert_eq!(req.url, "ws://127.0.0.1:8000");
    assert!(matches!(req.message, BootstrapMessage::Deregister { id: 12 }));
}

#[test]
fn peer_list_reply_sets_peers() {
    let mut n = Network::new(12, "x:1".to_string());
    let reply = BootstrapMessage::PeerList {
        peers: vec![Peer { id: 12, addr: "x:1".to_string() }, Peer { id: 4, addr: "y:2".to_string() }],
    };
    assert!(n.accept_peer_list(reply));
    assert_eq!(n.peers.len(), 2);
    assert_eq!(n.peers[1].id, 4);
    assert!(!n.accept_peer_list(BootstrapMessage::RemovePeer { id: 4 }));
    assert_eq!(n.peers.len(), 2);
}

#[test]
fn election_with_high_number_elects_self() {
    let mut n = Network::new(12, "x:1".to_string());
    let received: Vec<(usize, u64)> = vec![(4, 30), (7, 70)];
    let round = n.leader_election(80, &received);
    assert_eq!(round.leader_id, 12);
    assert!(round.is_leader);
    assert_eq!(n.leader_id, Some(12));
    assert!(matches!(round.announcement, MessageType::LeaderAnnouncement { leader_id: 12 }));
}

#[test]
fn election_tie_keeps_self() {
    let mut n = Network::new(12, "x:1".to_string());
    let received: Vec<(usize, u64)> = vec![(7, 70)];
    assert_eq!(n.leader_election(70, &received).leader_id, 12);
}

#[test]
fn election_elects_highest_peer() {
    let mut n = Network::new(12, "x:1".to_string());
    let received: Vec<(usize, u64)> = vec![(4, 30), (7, 70), (9, 70)];
    let round = n.leader_election(20, &received);
    assert_eq!(round.leader_id, 7);
    assert!(!round.is_leader);
    assert_eq!(n.leader_id, Some(7));
}

#[test]
fn lone_node_elects_itself() {
    let mut n = Network::new(12, "x:1".to_string());
    let round = n.leader_election(1, &Vec::new());
    assert_eq!(round.leader_id, 12);
    assert_eq!(n.leader_id, Some(12));
}

#[test]
fn node_link_attributes_numbers() {
    let mut link = Link::new();
    assert!(matches!(link.receive(&MessageType::RandomNumber(5)), Arrival::Unattributed(5)));
    assert!(matches!(link.receive(&welcome_message(44)), Arrival::Other));
    assert!(matches!(link.receive(&MessageType::RandomNumber(6)), Arrival::Vote { from: 44, number: 6 }));
}

#[test]
fn bootstrap_events_map_to_actions() {
    match bootstrap_event(BootstrapMessage::NewPeer { peer: Peer { id: 5, addr: "z:5".to_string() } }) {
        PeerEvent::Connect(p) => {
            assert_eq!(p.id, 5);
            assert_eq!(p.addr, "z:5");
        }
        _ => panic!("expected connect"),
    }
    assert!(matches!(bootstrap_event(BootstrapMessage::RemovePeer { id: 5 }), PeerEvent::Departed(5)));
    assert!(matches!(bootstrap_event(BootstrapMessage::Deregister { id: 5 }), PeerEvent::Unknown));
}

#[test]
fn welcome_message_greets() {
    match welcome_message(12) {
        MessageType::PeerMessage { from_id, content } => {
            assert_eq!(from_id, 12);
            assert_eq!(content, "Hello from new peer!");
        }
        other => panic!("unexpected {:?}", other),
    }
}

#[test]
fn peer_ids_in_range_and_vary() {
    let first = generate_peer_id();
    let mut varied = false;
    for _ in 0..100 {
        let id = generate_peer_id();
        assert!((1..=1_000_000).contains(&id));
        if id != first {
            varied = true;
        }
    }
    assert!(varied);
}

#[test]
fn port_probe_tries_hundred_ports_then_gives_up() {
    let mut probe = PortProbe::new();
    let mut ports = Vec::new();
    for _ in 0..100 {
        match probe.next_step() {
            ProbeStep::Try(addr) => {
                let port: u64 = addr.strip_prefix("127.0.0.1:").unwrap().parse().unwrap();
                assert!((9000..19000).contains(&port));
                ports.push(port);
            }
            ProbeStep::GiveUp => panic!("gave up early"),
        }
    }
    assert!(matches!(probe.next_step(), ProbeStep::GiveUp));
    assert!(matches!(probe.next_step(), ProbeStep::GiveUp));
    assert!(ports.iter().any(|p| *p != ports[0]));
}
