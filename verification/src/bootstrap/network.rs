//! The bootstrap node's registry and how it answers each message.

use crate::bootstrap::message::BootstrapMessage;
use crate::bootstrap::peer::{Peer, PeerView};
use std::collections::HashMap;
use vstd::prelude::*;
use vstd::std_specs::hash::spec_hash_map_iter;
use vstd::std_specs::iter::IteratorSpec;

verus! {

broadcast use vstd::std_specs::hash::group_hash_axioms;

/// Every entry of the registry is filed under its peer's identifier.
pub open spec fn keyed_by_id(m: Map<usize, PeerView>) -> bool {
    forall|k: usize| #[trigger] m.contains_key(k) ==> m[k].id == k
}

/// `list` names every peer of `m` exactly once, each as `m` holds it.
pub open spec fn lists_exactly(list: Seq<PeerView>, m: Map<usize, PeerView>) -> bool {
    &&& forall|i: int|
        0 <= i < list.len() ==> #[trigger] m.contains_key(list[i].id) && m[list[i].id] == list[i]
    &&& forall|i: int, j: int| 0 <= i < j < list.len() ==> #[trigger] list[i].id != #[trigger] list[j].id
    &&& forall|k: usize| #[trigger] m.contains_key(k) ==> exists|i: int| 0 <= i < list.len() && #[trigger] list[i].id == k
}

/// The views of a list of peers.
pub open spec fn peer_views(peers: Seq<Peer>) -> Seq<PeerView> {
    peers.map_values(|p: Peer| p@)
}

/// The registry of the peers that joined and have not left.
pub struct Registry {
    peers: HashMap<usize, Peer>,
}

impl View for Registry {
    type V = Map<usize, PeerView>;

    closed spec fn view(&self) -> Map<usize, PeerView> {
        self.peers@.map_values(|p: Peer| p@)
    }
}

impl Registry {
    /// The registry files every peer under its identifier.
    pub open spec fn wf(&self) -> bool {
        keyed_by_id(self@)
    }

    /// An empty registry.
    pub fn new() -> (r: Registry)
        ensures
            r.wf(),
            r@ == Map::<usize, PeerView>::empty(),
    {
        let r = Registry { peers: HashMap::new() };
        assert(r@ =~= Map::<usize, PeerView>::empty());
        r
    }

    /// The registered peers other than `exclude` (all of them for `None`).
    fn collect(&self, exclude: Option<usize>) -> (list: Vec<Peer>)
        requires
            self.wf(),
        ensures
            lists_exactly(
                peer_views(list@),
                match exclude {
                    Some(x) => self@.remove(x),
                    None => self@,
                },
            ),
    {
        let mut list: Vec<Peer> = Vec::new();
        let ghost mut idx: Seq<int> = Seq::empty();
        let ghost s = spec_hash_map_iter(&self.peers).remaining();
        let ghost mut n: int = 0;
        for entry in it: self.peers.iter()
            invariant
                self.wf(),
                s == spec_hash_map_iter(&self.peers).remaining(),
                it.seq() == s,
                s.no_duplicates(),
                n == it.index(),
                idx.len() == list.len(),
                forall|j: int|
                    0 <= j < list.len() ==> {
                        &&& 0 <= #[trigger] idx[j] < n
                        &&& list@[j]@ == (*s[idx[j]].1)@
                        &&& exclude != Some(*s[idx[j]].0)
                    },
                forall|j1: int, j2: int| 0 <= j1 < j2 < list.len() ==> #[trigger] idx[j1] < #[trigger] idx[j2],
                forall|i: int|
                    0 <= i < n && exclude != Some(*s[i].0) ==> exists|j: int|
                        0 <= j < list.len() && #[trigger] idx[j] == i,
        {
            let (k, p) = entry;
            let ghost old_idx = idx;
            let ghost old_len = list.len();
            let skip = match exclude {
                Some(x) => *k == x,
                None => false,
            };
            if !skip {
                proof {
                    idx = idx.push(it.index() as int);
                }
                list.push(p.clone());
            }
            proof {
                assert forall|i: int|
                    0 <= i <= n && exclude != Some(*s[i].0) implies exists|j: int|
                    0 <= j < list.len() && #[trigger] idx[j] == i by {
                    if i == n {
                        assert(idx[list.len() - 1] == n);
                    } else {
                        let j = choose|j: int| 0 <= j < old_len && #[trigger] old_idx[j] == i;
                        assert(idx[j] == i);
                    }
                }
                n = n + 1;
            }
        }
        proof {
            assert(n == s.len());
            let target = match exclude {
                Some(x) => self@.remove(x),
                None => self@,
            };
            let views = peer_views(list@);
            assert forall|i: int| 0 <= i < views.len() implies #[trigger] target.contains_key(
                views[i].id,
            ) && target[views[i].id] == views[i] by {
                let key = *s[idx[i]].0;
                assert(self.peers@.contains_key(key));
                assert(self@.contains_key(key));
            }
            assert forall|i: int, j: int| 0 <= i < j < views.len() implies #[trigger] views[i].id
                != #[trigger] views[j].id by {
                let ki = *s[idx[i]].0;
                let kj = *s[idx[j]].0;
                assert(self.peers@.contains_key(ki));
                assert(self.peers@.contains_key(kj));
                assert(self@.contains_key(ki));
                assert(self@.contains_key(kj));
                if ki == kj {
                    assert(s[idx[i]] == s[idx[j]]);
                }
            }
            assert forall|k: usize| #[trigger] target.contains_key(k) implies exists|i: int|
                0 <= i < views.len() && #[trigger] views[i].id == k by {
                assert(self@.contains_key(k));
                assert(self.peers@.contains_key(k));
                assert(s.contains((&k, &self.peers@[k])));
                let i = choose|i: int| 0 <= i < s.len() && s[i] == (&k, &self.peers@[k]);
                let j = choose|j: int| 0 <= j < list.len() && #[trigger] idx[j] == i;
                assert(views[j].id == k);
            }
        }
        list
    }

    /// The registered peers, each once, in the registry's own order.
    pub fn peer_list(&self) -> (list: Vec<Peer>)
        requires
            self.wf(),
        ensures
            lists_exactly(peer_views(list@), self@),
    {
        self.collect(None)
    }

    /// The peers a broadcast reaches: every registered peer but `exclude_id`.
    pub fn broadcast_recipients(&self, exclude_id: usize) -> (recipients: Vec<Peer>)
        requires
            self.wf(),
        ensures
            lists_exactly(peer_views(recipients@), self@.remove(exclude_id)),
    {
        self.collect(Some(exclude_id))
    }

    /// Files the peer `id` listening at `addr`, replacing any earlier entry
    /// under `id`, and hands back the peer as filed.
    pub fn register(&mut self, id: usize, addr: String) -> (peer: Peer)
        requires
            old(self).wf(),
        ensures
            final(self).wf(),
            final(self)@ == old(self)@.insert(id, PeerView { id, addr: addr@ }),
            peer@ == (PeerView { id, addr: addr@ }),
    {
        let peer = Peer { id, addr };
        let filed = peer.clone();
        self.peers.insert(id, filed);
        proof {
            assert(self@ =~= old(self)@.insert(id, PeerView { id, addr: addr@ }));
        }
        peer
    }

    /// Removes the peer `id`, if it is registered.
    pub fn deregister(&mut self, id: usize)
        requires
            old(self).wf(),
        ensures
            final(self).wf(),
            final(self)@ == old(self)@.remove(id),
    {
        self.peers.remove(&id);
        proof {
            assert(self@ =~= old(self)@.remove(id));
        }
    }

    /// Answers one message from a connection: a registration files the
    /// peer, answers it with the list of registered peers (itself among them)
    /// and announces it to every other peer; a deregistration removes the
    /// peer and announces its departure to the peers that remain; any other
    /// message is ignored.
    pub fn handle_message(&mut self, msg: BootstrapMessage) -> (action: RegistryAction)
        requires
            old(self).wf(),
        ensures
            final(self).wf(),
            final(self)@ == registry_after(old(self)@, msg),
            answers(msg, action, final(self)@),
    {
        match msg {
            BootstrapMessage::Register { id, addr } => {
                let peer = self.register(id, addr);
                let peers = self.peer_list();
                let recipients = self.broadcast_recipients(id);
                RegistryAction::Welcome {
                    reply: BootstrapMessage::PeerList { peers },
                    notice: BootstrapMessage::NewPeer { peer },
                    recipients,
                }
            },
            BootstrapMessage::Deregister { id } => {
                self.deregister(id);
                let recipients = self.broadcast_recipients(id);
                RegistryAction::Farewell { notice: BootstrapMessage::RemovePeer { id }, recipients }
            },
            _ => RegistryAction::Ignore,
        }
    }
}

/// What the bootstrap node does after a message from a connection.
pub enum RegistryAction {
    /// Send `reply` back on the connection, then `notice` to each recipient.
    Welcome { reply: BootstrapMessage, notice: BootstrapMessage, recipients: Vec<Peer> },
    /// Send `notice` to each recipient.
    Farewell { notice: BootstrapMessage, recipients: Vec<Peer> },
    /// Nothing to send; the message is not one the bootstrap node handles.
    Ignore,
}

/// The registry after the bootstrap node handled `msg`.
pub open spec fn registry_after(m: Map<usize, PeerView>, msg: BootstrapMessage) -> Map<usize, PeerView> {
    match msg {
        BootstrapMessage::Register { id, addr } => m.insert(id, PeerView { id, addr: addr@ }),
        BootstrapMessage::Deregister { id } => m.remove(id),
        _ => m,
    }
}

/// `action` is the bootstrap node's answer to `msg`, given the registry `m`
/// after the message was handled.
pub open spec fn answers(msg: BootstrapMessage, action: RegistryAction, m: Map<usize, PeerView>) -> bool {
    match msg {
        BootstrapMessage::Register { id, addr } => match action {
            RegistryAction::Welcome { reply, notice, recipients } => {
                &&& (reply matches BootstrapMessage::PeerList { peers } && lists_exactly(
                    peer_views(peers@),
                    m,
                ))
                &&& (notice matches BootstrapMessage::NewPeer { peer } && peer@ == (PeerView {
                    id,
                    addr: addr@,
                }))
                &&& lists_exactly(peer_views(recipients@), m.remove(id))
            },
            _ => false,
        },
        BootstrapMessage::Deregister { id } => match action {
            RegistryAction::Farewell { notice, recipients } => {
                &&& notice == (BootstrapMessage::RemovePeer { id })
                &&& lists_exactly(peer_views(recipients@), m.remove(id))
            },
            _ => false,
        },
        _ => action is Ignore,
    }
}

/// A peer that joins and then leaves, and was not registered before, leaves
/// the registry as it found it.
pub proof fn lemma_join_then_leave_restores(m: Map<usize, PeerView>, id: usize, addr: String)
    requires
        !m.contains_key(id),
    ensures
        registry_after(
            registry_after(m, BootstrapMessage::Register { id, addr }),
            BootstrapMessage::Deregister { id },
        ) == m,
{
    assert(m.insert(id, PeerView { id, addr: addr@ }).remove(id) =~= m);
}

/// Whatever message arrives, the registry keeps filing every peer under its
/// own identifier.
pub proof fn lemma_registry_stays_keyed(m: Map<usize, PeerView>, msg: BootstrapMessage)
    requires
        keyed_by_id(m),
    ensures
        keyed_by_id(registry_after(m, msg)),
{
}

/// A peer that registers finds itself, with the address it gave, in the
/// peer list it is sent.
pub proof fn lemma_newcomer_in_peer_list(
    m: Map<usize, PeerView>,
    id: usize,
    addr: String,
    list: Seq<PeerView>,
)
    requires
        lists_exactly(list, registry_after(m, BootstrapMessage::Register { id, addr })),
    ensures
        exists|i: int| 0 <= i < list.len() && list[i] == (PeerView { id, addr: addr@ }),
{
    let after = registry_after(m, BootstrapMessage::Register { id, addr });
    assert(after.contains_key(id));
    let i = choose|i: int| 0 <= i < list.len() && #[trigger] list[i].id == id;
    assert(after.contains_key(list[i].id));
}

/// A list that names every peer of a registry once is as long as the
/// registry is large.
pub proof fn lemma_lists_exactly_len(list: Seq<PeerView>, m: Map<usize, PeerView>)
    requires
        m.dom().finite(),
        lists_exactly(list, m),
    ensures
        list.len() == m.len(),
{
    let ids = list.map_values(|p: PeerView| p.id);
    assert(ids.no_duplicates()) by {
        assert forall|i: int, j: int| 0 <= i < ids.len() && 0 <= j < ids.len() && i != j implies ids[i]
            != ids[j] by {
            if i < j {
                assert(list[i].id != list[j].id);
            } else {
                assert(list[j].id != list[i].id);
            }
        }
    }
    assert(ids.to_set() =~= m.dom()) by {
        assert forall|k: usize| #[trigger] ids.to_set().contains(k) implies m.dom().contains(k) by {
            let i = choose|i: int| 0 <= i < ids.len() && ids[i] == k;
            assert(m.contains_key(list[i].id));
        }
        assert forall|k: usize| #[trigger] m.dom().contains(k) implies ids.to_set().contains(k) by {
            let i = choose|i: int| 0 <= i < list.len() && #[trigger] list[i].id == k;
            assert(ids[i] == k);
            assert(ids.contains(k));
        }
    }
    ids.unique_seq_to_set();
}

/// A list that names every peer of `m` but `left_out` once, spelled out on
/// the peers themselves.
proof fn lemma_lists_exactly_spelled(list: Seq<Peer>, m: Map<usize, PeerView>, left_out: usize)
    requires
        lists_exactly(peer_views(list), m.remove(left_out)),
    ensures
        forall|i: int|
            0 <= i < list.len() ==> {
                &&& #[trigger] list[i].id != left_out
                &&& m.contains_key(list[i].id)
                &&& m[list[i].id] == list[i]@
            },
        forall|i: int, j: int| 0 <= i < j < list.len() ==> #[trigger] list[i].id != #[trigger] list[j].id,
        forall|k: usize|
            m.contains_key(k) && k != left_out ==> exists|i: int| 0 <= i < list.len() && #[trigger] list[i].id == k,
{
    let views = peer_views(list);
    assert forall|i: int| 0 <= i < list.len() implies {
        &&& #[trigger] list[i].id != left_out
        &&& m.contains_key(list[i].id)
        &&& m[list[i].id] == list[i]@
    } by {
        assert(views[i] == list[i]@);
        assert(m.remove(left_out).contains_key(views[i].id));
        assert(m.remove(left_out)[views[i].id] == views[i]);
    }
    assert forall|i: int, j: int| 0 <= i < j < list.len() implies #[trigger] list[i].id != #[trigger] list[j].id by {
        assert(views[i] == list[i]@);
        assert(views[j] == list[j]@);
        assert(views[i].id != views[j].id);
    }
    assert forall|k: usize| m.contains_key(k) && k != left_out implies exists|i: int|
        0 <= i < list.len() && #[trigger] list[i].id == k by {
        assert(m.remove(left_out).contains_key(k));
        let i = choose|i: int| 0 <= i < views.len() && #[trigger] views[i].id == k;
        assert(views[i] == list[i]@);
    }
}

/// How a message changes the registry: a registration files the peer under
/// its id with the address it gave (replacing an earlier entry), a
/// deregistration removes the id, anything else changes nothing.
pub proof fn lemma_registry_after_shape(m: Map<usize, PeerView>, msg: BootstrapMessage)
    ensures
        match msg {
            BootstrapMessage::Register { id, addr } => {
                &&& registry_after(m, msg).contains_key(id)
                &&& registry_after(m, msg)[id] == (PeerView { id, addr: addr@ })
                &&& forall|k: usize| k != id ==> (#[trigger] registry_after(m, msg).contains_key(k)
                    == m.contains_key(k) && (m.contains_key(k) ==> registry_after(m, msg)[k] == m[k]))
            },
            BootstrapMessage::Deregister { id } => {
                &&& !registry_after(m, msg).contains_key(id)
                &&& forall|k: usize| k != id ==> (#[trigger] registry_after(m, msg).contains_key(k)
                    == m.contains_key(k) && (m.contains_key(k) ==> registry_after(m, msg)[k] == m[k]))
            },
            _ => registry_after(m, msg) == m,
        },
{
}

/// The answer to a registration of `id` at `addr`, given the registry `m`
/// after it: the newcomer is sent the list of every registered peer (itself
/// among them) once each, and every other registered peer, whatever its id,
/// is sent the news of the newcomer once, while the newcomer is not.
pub proof fn lemma_register_answer(
    m: Map<usize, PeerView>,
    id: usize,
    addr: String,
    action: RegistryAction,
)
    requires
        answers(BootstrapMessage::Register { id, addr }, action, m),
    ensures
        action matches RegistryAction::Welcome { reply, notice, recipients } && {
            &&& notice matches BootstrapMessage::NewPeer { peer } && peer.id == id && peer.addr@ == addr@
            &&& forall|i: int|
                0 <= i < recipients.len() ==> {
                    &&& #[trigger] recipients@[i].id != id
                    &&& m.contains_key(recipients@[i].id)
                    &&& m[recipients@[i].id] == recipients@[i]@
                }
            &&& forall|i: int, j: int|
                0 <= i < j < recipients.len() ==> #[trigger] recipients@[i].id != #[trigger] recipients@[j].id
            &&& forall|k: usize|
                m.contains_key(k) && k != id ==> exists|i: int|
                    0 <= i < recipients.len() && #[trigger] recipients@[i].id == k
            &&& reply matches BootstrapMessage::PeerList { peers } && {
                &&& forall|i: int|
                    0 <= i < peers.len() ==> #[trigger] m.contains_key(peers@[i].id) && m[peers@[i].id]
                        == peers@[i]@
                &&& forall|i: int, j: int|
                    0 <= i < j < peers.len() ==> #[trigger] peers@[i].id != #[trigger] peers@[j].id
                &&& forall|k: usize|
                    m.contains_key(k) ==> exists|i: int| 0 <= i < peers.len() && #[trigger] peers@[i].id == k
            }
        },
{
    match action {
        RegistryAction::Welcome { reply, notice, recipients } => {
            lemma_lists_exactly_spelled(recipients@, m, id);
            match reply {
                BootstrapMessage::PeerList { peers } => {
                    lemma_lists_exactly_whole(peers@, m);
                },
                _ => {},
            }
        },
        _ => {},
    }
}

/// A list that names every peer of `m` once, spelled out on the peers.
proof fn lemma_lists_exactly_whole(list: Seq<Peer>, m: Map<usize, PeerView>)
    requires
        lists_exactly(peer_views(list), m),
    ensures
        forall|i: int|
            0 <= i < list.len() ==> #[trigger] m.contains_key(list[i].id) && m[list[i].id] == list[i]@,
        forall|i: int, j: int| 0 <= i < j < list.len() ==> #[trigger] list[i].id != #[trigger] list[j].id,
        forall|k: usize| m.contains_key(k) ==> exists|i: int| 0 <= i < list.len() && #[trigger] list[i].id == k,
{
    let views = peer_views(list);
    assert forall|i: int| 0 <= i < list.len() implies #[trigger] m.contains_key(list[i].id) && m[list[i].id]
        == list[i]@ by {
        assert(views[i] == list[i]@);
        assert(m.contains_key(views[i].id));
    }
    assert forall|i: int, j: int| 0 <= i < j < list.len() implies #[trigger] list[i].id != #[trigger] list[j].id by {
        assert(views[i] == list[i]@);
        assert(views[j] == list[j]@);
        assert(views[i].id != views[j].id);
    }
    assert forall|k: usize| m.contains_key(k) implies exists|i: int| 0 <= i < list.len() && #[trigger] list[i].id
        == k by {
        let i = choose|i: int| 0 <= i < views.len() && #[trigger] views[i].id == k;
        assert(views[i] == list[i]@);
    }
}

/// The answer to a deregistration of `id`, given the registry `m` after it:
/// the notice names `id`, and every peer that remains, however many they
/// are, is sent it once, while the leaving peer is not.
pub proof fn lemma_deregister_answer(m: Map<usize, PeerView>, id: usize, action: RegistryAction)
    requires
        answers(BootstrapMessage::Deregister { id }, action, m),
    ensures
        action matches RegistryAction::Farewell { notice, recipients } && {
            &&& notice == (BootstrapMessage::RemovePeer { id })
            &&& forall|i: int|
                0 <= i < recipients.len() ==> {
                    &&& #[trigger] recipients@[i].id != id
                    &&& m.contains_key(recipients@[i].id)
                    &&& m[recipients@[i].id] == recipients@[i]@
                }
            &&& forall|i: int, j: int|
                0 <= i < j < recipients.len() ==> #[trigger] recipients@[i].id != #[trigger] recipients@[j].id
            &&& forall|k: usize|
                m.contains_key(k) && k != id ==> exists|i: int|
                    0 <= i < recipients.len() && #[trigger] recipients@[i].id == k
        },
{
    match action {
        RegistryAction::Farewell { notice, recipients } => {
            lemma_lists_exactly_spelled(recipients@, m, id);
        },
        _ => {},
    }
}

} // verus!
