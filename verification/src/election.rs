//! Leader election by the maximum random number.
//!
//! Every candidate is a pair of an identifier and the random number it drew.
//! The leader is the candidate with the largest number; among candidates that
//! drew the same largest number the one listed first wins, which is what a
//! stable sort by descending number followed by taking the first element gives.

use vstd::prelude::*;

verus! {

/// `i` is the position of the first candidate holding the largest number.
pub open spec fn is_first_max<Id>(candidates: Seq<(Id, u64)>, i: int) -> bool {
    &&& 0 <= i < candidates.len()
    &&& forall|j: int| 0 <= j < candidates.len() ==> #[trigger] candidates[j].1 <= candidates[i].1
    &&& forall|j: int| 0 <= j < i ==> #[trigger] candidates[j].1 < candidates[i].1
}

/// The position of the first candidate holding the largest number.
pub open spec fn first_max_position<Id>(candidates: Seq<(Id, u64)>) -> int {
    choose|i: int| is_first_max(candidates, i)
}

/// The identifier of the elected leader.
pub open spec fn leader_of<Id>(candidates: Seq<(Id, u64)>) -> Id {
    candidates[first_max_position(candidates)].0
}

/// The first maximum among the first `n` candidates (a witness for existence).
spec fn first_max_upto<Id>(candidates: Seq<(Id, u64)>, n: nat) -> int
    decreases n,
{
    if n <= 1 {
        0
    } else {
        let best = first_max_upto(candidates, (n - 1) as nat);
        if candidates[n - 1].1 > candidates[best].1 {
            n - 1
        } else {
            best
        }
    }
}

proof fn lemma_first_max_upto<Id>(candidates: Seq<(Id, u64)>, n: nat)
    requires
        0 < n <= candidates.len(),
    ensures
        0 <= first_max_upto(candidates, n) < n,
        forall|j: int| 0 <= j < n ==> #[trigger] candidates[j].1 <= candidates[first_max_upto(candidates, n)].1,
        forall|j: int| 0 <= j < first_max_upto(candidates, n) ==> #[trigger] candidates[j].1
            < candidates[first_max_upto(candidates, n)].1,
    decreases n,
{
    if n > 1 {
        lemma_first_max_upto(candidates, (n - 1) as nat);
    }
}

/// A non-empty list of candidates has a first maximum, and it is the one
/// that `first_max_position` names.
pub proof fn lemma_first_max_exists<Id>(candidates: Seq<(Id, u64)>)
    requires
        candidates.len() > 0,
    ensures
        is_first_max(candidates, first_max_position(candidates)),
{
    lemma_first_max_upto(candidates, candidates.len());
    assert(is_first_max(candidates, first_max_upto(candidates, candidates.len())));
}

/// There is only one first maximum: the election has a single outcome.
pub proof fn lemma_first_max_unique<Id>(candidates: Seq<(Id, u64)>, i: int, k: int)
    requires
        is_first_max(candidates, i),
        is_first_max(candidates, k),
    ensures
        i == k,
{
    if i < k {
        assert(candidates[i].1 < candidates[k].1);
        assert(candidates[k].1 <= candidates[i].1);
    } else if k < i {
        assert(candidates[k].1 < candidates[i].1);
        assert(candidates[i].1 <= candidates[k].1);
    }
}

/// The leader drew the largest number of all candidates, no candidate listed
/// before the leader drew as much, and the leader is one of the candidates.
pub proof fn lemma_leader_holds_maximum<Id>(candidates: Seq<(Id, u64)>)
    requires
        candidates.len() > 0,
    ensures
        ({
            let p = first_max_position(candidates);
            &&& 0 <= p < candidates.len()
            &&& candidates[p].0 == leader_of(candidates)
            &&& forall|j: int| 0 <= j < candidates.len() ==> #[trigger] candidates[j].1 <= candidates[p].1
            &&& forall|j: int| 0 <= j < p ==> #[trigger] candidates[j].1 < candidates[p].1
        }),
{
    lemma_first_max_exists(candidates);
}

/// The position of the first candidate holding the largest number.
pub fn first_max_index<Id>(candidates: &Vec<(Id, u64)>) -> (i: usize)
    requires
        candidates.len() > 0,
    ensures
        is_first_max(candidates@, i as int),
        i as int == first_max_position(candidates@),
{
    let mut best: usize = 0;
    let mut k: usize = 1;
    while k < candidates.len()
        invariant
            0 < k <= candidates.len(),
            best < k,
            forall|j: int| 0 <= j < k ==> #[trigger] candidates@[j].1 <= candidates@[best as int].1,
            forall|j: int| 0 <= j < best ==> #[trigger] candidates@[j].1 < candidates@[best as int].1,
        decreases candidates.len() - k,
    {
        if candidates[k].1 > candidates[best].1 {
            best = k;
        }
        k = k + 1;
    }
    proof {
        lemma_first_max_exists(candidates@);
        lemma_first_max_unique(candidates@, best as int, first_max_position(candidates@));
    }
    best
}

/// Elects the leader among `candidates`: the identifier of the first
/// candidate that drew the largest number.
pub fn elect_leader<Id: Copy>(candidates: &Vec<(Id, u64)>) -> (leader: Id)
    requires
        candidates.len() > 0,
    ensures
        leader == leader_of(candidates@),
{
    let i = first_max_index(candidates);
    candidates[i].0
}

/// The participants of an election run by a node: the node itself with the
/// number it drew, first, then the numbers it received, in arrival order.
pub open spec fn participants<Id>(own_id: Id, own_number: u64, received: Seq<(Id, u64)>) -> Seq<
    (Id, u64),
> {
    seq![(own_id, own_number)] + received
}

/// `leader` took part in the election: it is the node itself or the sender
/// of one of the received numbers.
pub open spec fn is_participant<Id>(leader: Id, own_id: Id, received: Seq<(Id, u64)>) -> bool {
    leader == own_id || exists|i: int| 0 <= i < received.len() && #[trigger] received[i].0 == leader
}

/// The leader of an election is one of its participants.
pub proof fn lemma_leader_is_participant<Id>(own_id: Id, own_number: u64, received: Seq<(Id, u64)>)
    ensures
        is_participant(leader_of(participants(own_id, own_number, received)), own_id, received),
{
    let c = participants(own_id, own_number, received);
    lemma_leader_holds_maximum(c);
    let p = first_max_position(c);
    if p > 0 {
        assert(c[p] == received[p - 1]);
        assert(received[p - 1].0 == leader_of(c));
    }
}

/// Who wins an election, in terms of the numbers alone: when no received
/// number beats the node's own, the node leads; otherwise the leader is the
/// sender of the first received number that is the largest of all, and that
/// number beats the node's own.
pub proof fn lemma_election_outcome<Id>(own_id: Id, own_number: u64, received: Seq<(Id, u64)>)
    ensures
        ({
            let leader = leader_of(participants(own_id, own_number, received));
            &&& (forall|j: int| 0 <= j < received.len() ==> #[trigger] received[j].1 <= own_number)
                ==> leader == own_id
            &&& (exists|j: int| 0 <= j < received.len() && #[trigger] received[j].1 > own_number)
                ==> exists|i: int|
                {
                    &&& 0 <= i < received.len()
                    &&& received[i].0 == leader
                    &&& received[i].1 > own_number
                    &&& forall|j: int| 0 <= j < received.len() ==> #[trigger] received[j].1 <= received[i].1
                    &&& forall|j: int| 0 <= j < i ==> #[trigger] received[j].1 < received[i].1
                }
        }),
{
    let c = participants(own_id, own_number, received);
    lemma_participants_shape(own_id, own_number, received);
    lemma_leader_holds_maximum(c);
    let p = first_max_position(c);
    if p == 0 {
        assert forall|j: int| 0 <= j < received.len() implies #[trigger] received[j].1 <= own_number by {
            assert(c[j + 1] == received[j]);
        }
    } else {
        let i = p - 1;
        assert(c[p] == received[i]);
        assert(c[0].1 < c[p].1);
        assert forall|j: int| 0 <= j < received.len() implies #[trigger] received[j].1 <= received[i].1 by {
            assert(c[j + 1] == received[j]);
        }
        assert forall|j: int| 0 <= j < i implies #[trigger] received[j].1 < received[i].1 by {
            assert(c[j + 1] == received[j]);
        }
        if forall|j: int| 0 <= j < received.len() ==> #[trigger] received[j].1 <= own_number {
            assert(received[i].1 <= own_number);
        }
    }
}

/// Every received number takes part in the election, after the node's own:
/// the participants are the node's pair followed by each received pair.
pub proof fn lemma_participants_shape<Id>(own_id: Id, own_number: u64, received: Seq<(Id, u64)>)
    ensures
        participants(own_id, own_number, received).len() == received.len() + 1,
        participants(own_id, own_number, received)[0] == (own_id, own_number),
        forall|i: int| 0 <= i < received.len() ==> #[trigger] participants(own_id, own_number, received)[i + 1]
            == received[i],
{
}

/// The elected leader drew a number `w` at least as large as the node's own
/// and as every received number, and `w` is the number the leader sent (or
/// the node's own, when the node leads).
pub proof fn lemma_leader_beats_every_vote<Id>(own_id: Id, own_number: u64, received: Seq<(Id, u64)>) -> (w:
    u64)
    ensures
        own_number <= w,
        forall|j: int| 0 <= j < received.len() ==> #[trigger] received[j].1 <= w,
        (own_id, own_number) == (leader_of(participants(own_id, own_number, received)), w) || exists|i: int|
            0 <= i < received.len() && #[trigger] received[i] == (leader_of(
                participants(own_id, own_number, received),
            ), w),
{
    let c = participants(own_id, own_number, received);
    lemma_participants_shape(own_id, own_number, received);
    lemma_leader_holds_maximum(c);
    let p = first_max_position(c);
    let w = c[p].1;
    assert(c[0].1 <= w);
    assert forall|j: int| 0 <= j < received.len() implies #[trigger] received[j].1 <= w by {
        assert(c[j + 1] == received[j]);
    }
    if p > 0 {
        assert(received[p - 1] == c[p]);
    }
    w
}

/// Elects the leader among this node, which drew `own_number`, and the
/// senders of the numbers it received: the first of them, the node itself
/// counted first, holding the largest number.
pub fn elect_among<Id: Copy>(own_id: Id, own_number: u64, received: &Vec<(Id, u64)>) -> (leader: Id)
    ensures
        leader == leader_of(participants(own_id, own_number, received@)),
        is_participant(leader, own_id, received@),
        (forall|j: int| 0 <= j < received.len() ==> #[trigger] received@[j].1 <= own_number) ==> leader
            == own_id,
        (exists|j: int| 0 <= j < received.len() && #[trigger] received@[j].1 > own_number) ==> exists|i: int|
            {
                &&& 0 <= i < received.len()
                &&& received@[i].0 == leader
                &&& received@[i].1 > own_number
                &&& forall|j: int| 0 <= j < received.len() ==> #[trigger] received@[j].1 <= received@[i].1
                &&& forall|j: int| 0 <= j < i ==> #[trigger] received@[j].1 < received@[i].1
            },
{
    let mut candidates: Vec<(Id, u64)> = Vec::new();
    candidates.push((own_id, own_number));
    let mut k: usize = 0;
    while k < received.len()
        invariant
            k <= received.len(),
            candidates@ == participants(own_id, own_number, received@.subrange(0, k as int)),
        decreases received.len() - k,
    {
        candidates.push(received[k]);
        k = k + 1;
        assert(candidates@ =~= participants(own_id, own_number, received@.subrange(0, k as int)));
    }
    assert(received@.subrange(0, received.len() as int) =~= received@);
    let leader = elect_leader(&candidates);
    proof {
        lemma_leader_is_participant(own_id, own_number, received@);
        lemma_election_outcome(own_id, own_number, received@);
    }
    leader
}

/// Whether a node has heard from as many peers as it expects, so that it
/// stops waiting for numbers and elects.
pub fn votes_complete(received: usize, expected: usize) -> (done: bool)
    ensures
        done == (received >= expected),
{
    received >= expected
}

} // verus!
