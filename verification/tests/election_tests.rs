use peer_network::election::{elect_among, elect_leader, first_max_index, votes_complete};
use peer_network::message::MessageType;
use peer_network::network::{greeting, leader_election, Arrival, Link};
use peer_network::randomness::draw_election_number;

#[test]
fn highest_number_wins() {
    let candidates: Vec<(u64, u64)> = vec![(1, 10), (2, 99), (3, 42)];
    assert_eq!(elect_leader(&candidates), 2);
    assert_eq!(first_max_index(&candidates), 1);
}

#[test]
fn tie_goes_to_first_listed() {
    let candidates: Vec<(u64, u64)> = vec![(5, 30), (6, 70), (7, 70), (8, 12)];
    assert_eq!(elect_leader(&candidates), 6);
    assert_eq!(first_max_index(&candidates), 1);
}

#[test]
fn single_candidate_elects_itself() {
    let candidates: Vec<(usize, u64)> = vec![(42, 1)];
    assert_eq!(elect_leader(&candidates), 42);
}

#[test]
fn leader_is_last_when_last_is_largest() {
    let candidates: Vec<(u64, u64)> = vec![(1, 0), (2, 0), (3, 1)];
    assert_eq!(elect_leader(&candidates), 3);
}

#[test]
fn root_leader_election_without_votes_elects_self() {
    let round = leader_election(17, 33, &Vec::new());
    assert_eq!(round.leader_id, 17);
    assert!(round.is_leader);
    assert!(matches!(round.announcement, MessageType::LeaderAnnouncement { leader_id: 17 }));
}

#[test]
fn root_leader_election_elects_highest_voter() {
    let received: Vec<(u64, u64)> = vec![(4, 20), (9, 88), (5, 88)];
    let round = leader_election(17, 33, &received);
    assert_eq!(round.leader_id, 9);
    assert!(!round.is_leader);
    assert!(matches!(round.announcement, MessageType::LeaderAnnouncement { leader_id: 9 }));
}

#[test]
fn root_leader_election_tie_keeps_self() {
    let received: Vec<(u64, u64)> = vec![(4, 60), (9, 60)];
    assert_eq!(leader_election(17, 60, &received).leader_id, 17);
}

#[test]
fn elect_among_counts_own_number_first() {
    let received: Vec<(usize, u64)> = vec![(2, 50), (3, 75)];
    assert_eq!(elect_among(12usize, 80, &received), 12);
    assert_eq!(elect_among(12usize, 75, &received), 12);
    assert_eq!(elect_among(12usize, 74, &received), 3);
    assert_eq!(elect_among(12usize, 1, &Vec::new()), 12);
}

#[test]
fn votes_complete_when_all_heard() {
    assert!(votes_complete(0, 0));
    assert!(!votes_complete(1, 2));
    assert!(votes_complete(2, 2));
    assert!(votes_complete(3, 2));
}

#[test]
fn link_attributes_numbers_after_greeting() {
    let mut link = Link::new();
    assert!(matches!(link.receive(&MessageType::RandomNumber(40)), Arrival::Unattributed(40)));
    assert!(matches!(link.receive(&greeting(7)), Arrival::Other));
    assert_eq!(link.sender, Some(7));
    assert!(matches!(link.receive(&MessageType::RandomNumber(41)), Arrival::Vote { from: 7, number: 41 }));
    assert!(matches!(
        link.receive(&MessageType::LeaderAnnouncement { leader_id: 3 }),
        Arrival::Other
    ));
    assert_eq!(link.sender, Some(7));
}

#[test]
fn greeting_names_sender() {
    match greeting(21) {
        MessageType::PeerMessage { from_id, content } => {
            assert_eq!(from_id, 21);
            assert_eq!(content, "Hello from new peer!");
        }
        other => panic!("unexpected {:?}", other),
    }
}

#[test]
fn election_numbers_stay_in_range_and_vary() {
    let mut seen_different = false;
    let first = draw_election_number();
    for _ in 0..500 {
        let n = draw_election_number();
        assert!((1..100).contains(&n));
        if n != first {
            seen_different = true;
        }
    }
    assert!(seen_different);
}
