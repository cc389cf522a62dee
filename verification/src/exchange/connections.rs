//! The peers that an exchange is connected to.
use crate::data::PublicKey;
use vstd::prelude::*;

verus! {

/// The connected peers after one has joined or left.
pub open spec fn peers_after(peers: Set<PublicKey>, pk: PublicKey, joined: bool) -> Set<PublicKey> {
    if joined {
        peers.insert(pk)
    } else {
        peers.remove(pk)
    }
}

/// The peers that are connected, each of them once.
pub struct LiveConnections {
    peers: Vec<PublicKey>,
}

impl View for LiveConnections {
    type V = Set<PublicKey>;

    /// The connected peers.
    closed spec fn view(&self) -> Set<PublicKey> {
        self.peers@.to_set()
    }
}

impl LiveConnections {
    #[verifier::type_invariant]
    spec fn distinct(self) -> bool {
        self.peers@.no_duplicates()
    }

    /// No peer is connected.
    pub fn new() -> (connections: LiveConnections)
        ensures
            connections@ == Set::<PublicKey>::empty(),
    {
        let connections = LiveConnections { peers: Vec::new() };
        assert(connections@ =~= Set::<PublicKey>::empty());
        connections
    }

    /// How many peers are connected.
    pub fn count(&self) -> (count: usize)
        ensures
            self@.finite(),
            count == self@.len(),
    {
        proof {
            use_type_invariant(&self);
            self.peers@.unique_seq_to_set();
        }
        self.peers.len()
    }

    fn position(&self, pk: &PublicKey) -> (at: Option<usize>)
        ensures
            at is Some ==> at->0 < self.peers@.len() && self.peers@[at->0 as int] == *pk,
            at is None <==> !self@.contains(*pk),
    {
        let mut i: usize = 0;
        while i < self.peers.len()
            invariant
                i <= self.peers@.len(),
                forall|k: int| 0 <= k < i ==> self.peers@[k] != *pk,
            decreases self.peers@.len() - i,
        {
            if self.peers[i] == *pk {
                assert(self.peers@.contains(*pk));
                return Some(i);
            }
            i = i + 1;
        }
        None
    }

    /// A peer has joined or left.
    pub fn change(&mut self, pk: PublicKey, joined: bool)
        ensures
            final(self)@ == peers_after(old(self)@, pk, joined),
    {
        proof {
            use_type_invariant(&*self);
        }
        let ghost held = self.peers@;
        let at = self.position(&pk);
        let mut peers: Vec<PublicKey> = Vec::new();
        std::mem::swap(&mut peers, &mut self.peers);
        match at {
            Some(i) => {
                if !joined {
                    peers.remove(i);
                    proof {
                        lemma_remove(held, i as int);
                    }
                } else {
                    assert(held.to_set().insert(pk) =~= held.to_set());
                }
            },
            None => {
                if joined {
                    peers.push(pk);
                    proof {
                        assert forall|p: PublicKey| #[trigger]
                            peers@.to_set().contains(p) <==> held.to_set().insert(pk).contains(
                                p,
                            ) by {
                            if held.contains(p) {
                                let k = choose|k: int| 0 <= k < held.len() && held[k] == p;
                                assert(peers@[k] == p);
                            }
                            assert(peers@[held.len() as int] == pk);
                        }
                        assert(peers@.to_set() =~= held.to_set().insert(pk));
                    }
                } else {
                    assert(held.to_set().remove(pk) =~= held.to_set());
                }
            },
        }
        self.peers = peers;
    }
}

proof fn lemma_remove(peers: Seq<PublicKey>, i: int)
    requires
        peers.no_duplicates(),
        0 <= i < peers.len(),
    ensures
        peers.remove(i).no_duplicates(),
        peers.remove(i).to_set() == peers.to_set().remove(peers[i]),
{
    let rest = peers.remove(i);
    assert forall|p: PublicKey| #[trigger] rest.to_set().contains(p) <==> peers.to_set().remove(
        peers[i],
    ).contains(p) by {
        if rest.contains(p) {
            let k = choose|k: int| 0 <= k < rest.len() && rest[k] == p;
            let back = if k < i { k } else { k + 1 };
            assert(peers[back] == p);
        }
        if peers.contains(p) && p != peers[i] {
            let k = choose|k: int| 0 <= k < peers.len() && peers[k] == p;
            let at = if k < i { k } else { k - 1 };
            assert(rest[at] == p);
        }
    }
    assert(rest.to_set() =~= peers.to_set().remove(peers[i]));
}

/// The connected peers after some have joined or left, one after the other. Each change
/// names the peer, and whether it has joined.
pub open spec fn peers_after_all(
    peers: Set<PublicKey>,
    changes: Seq<(PublicKey, bool)>,
) -> Set<PublicKey>
    decreases changes.len(),
{
    if changes.len() == 0 {
        peers
    } else {
        peers_after(
            peers_after_all(peers, changes.drop_last()),
            changes.last().0,
            changes.last().1,
        )
    }
}

/// Whether the last change of a peer is the `i`-th one.
pub open spec fn last_change_at(changes: Seq<(PublicKey, bool)>, pk: PublicKey, i: int) -> bool {
    &&& 0 <= i < changes.len()
    &&& changes[i].0 == pk
    &&& forall|k: int| i < k < changes.len() ==> (#[trigger] changes[k]).0 != pk
}

/// After any sequence of changes a peer is connected where its last change was to join,
/// or where it never changed and was connected before.
pub proof fn last_change_decides(
    peers: Set<PublicKey>,
    changes: Seq<(PublicKey, bool)>,
    pk: PublicKey,
)
    ensures
        forall|i: int| #[trigger]
            last_change_at(changes, pk, i) ==> (peers_after_all(peers, changes).contains(pk)
                <==> changes[i].1),
        (forall|k: int| 0 <= k < changes.len() ==> (#[trigger] changes[k]).0 != pk) ==> (
        peers_after_all(peers, changes).contains(pk) <==> peers.contains(pk)),
    decreases changes.len(),
{
    if changes.len() > 0 {
        let front = changes.drop_last();
        let n = changes.len() - 1;
        last_change_decides(peers, front, pk);
        assert forall|i: int| #[trigger]
            last_change_at(changes, pk, i) implies (peers_after_all(peers, changes).contains(pk)
            <==> changes[i].1) by {
            if i < n {
                assert(changes[n].0 != pk);
                assert forall|k: int| i < k < front.len() implies (#[trigger] front[k]).0
                    != pk by {
                    assert(front[k] == changes[k]);
                }
                assert(last_change_at(front, pk, i));
            }
        }
        if forall|k: int| 0 <= k < changes.len() ==> (#[trigger] changes[k]).0 != pk {
            assert(changes[n].0 != pk);
            assert forall|k: int| 0 <= k < front.len() implies (#[trigger] front[k]).0 != pk by {
                assert(front[k] == changes[k]);
            }
        }
    }
}

/// A peer that joins again is counted once.
pub proof fn joining_twice_counts_once(peers: Set<PublicKey>, pk: PublicKey)
    ensures
        peers_after(peers_after(peers, pk, true), pk, true) == peers_after(peers, pk, true),
{
    assert(peers.insert(pk).insert(pk) =~= peers.insert(pk));
}

/// A peer that joins and leaves again leaves the others as they were.
pub proof fn leaving_undoes_joining(peers: Set<PublicKey>, pk: PublicKey)
    requires
        !peers.contains(pk),
    ensures
        peers_after(peers_after(peers, pk, true), pk, false) == peers,
{
    assert(peers.insert(pk).remove(pk) =~= peers);
}

/// A change of one peer leaves every other peer as it was.
pub proof fn other_peers_stay(
    peers: Set<PublicKey>,
    pk: PublicKey,
    joined: bool,
    other: PublicKey,
)
    ensures
        peers_after(peers, pk, joined).contains(pk) <==> joined,
        other != pk ==> (peers_after(peers, pk, joined).contains(other) <==> peers.contains(
            other,
        )),
{
}

} // verus!
