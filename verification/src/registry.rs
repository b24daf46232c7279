//! The shared state of the worker subroutines: the connection registry and
//! the peer registry, with their invariant — an id is pending upgrade, or
//! running, or retired, or unknown, never two of these at once. In
//! particular the two registries are disjoint in key set.
//!
//! The workers hold the physical connections and peer handles; what their
//! decisions read and write is recorded here: which ids are registered and
//! with which direction, which are running, and which have been torn down.
//! A torn-down id is retired: teardown is terminal for this supervisor's
//! lifetime, so a later connection under the same id is refused as a
//! duplicate. Each operation below is one registry step taken under the
//! lock, and each preserves the invariant.

use vstd::prelude::*;
use std::collections::HashMap;
use std::collections::HashSet;
use crate::supervisor::Direction;
use crate::supervisor::NodeId;

verus! {

broadcast use vstd::std_specs::hash::group_hash_axioms;

/// Outcome of registering a freshly established connection.
#[derive(Clone, Copy, Debug, PartialEq, Eq, Structural)]
pub enum Registered {
    /// The id was new: the connection is registered, pending upgrade.
    Fresh,
    /// The id is already tracked, or retired: the new connection must be
    /// closed.
    Duplicate,
}

/// The key sets of the two registries, and the retired ids.
pub struct Registries {
    connected: HashMap<NodeId, Direction>,
    peers: HashSet<NodeId>,
    retired: HashSet<NodeId>,
}

impl Registries {
    /// The connection registry: pending ids and how they connected.
    pub closed spec fn connections(&self) -> Map<NodeId, Direction> {
        self.connected@
    }

    /// The peer registry's key set: ids of running peers.
    pub closed spec fn running(&self) -> Set<NodeId> {
        self.peers@
    }

    /// Ids whose peer was torn down: terminal for this supervisor.
    pub closed spec fn retired(&self) -> Set<NodeId> {
        self.retired@
    }

    /// No id is in two of the three sets at once.
    pub closed spec fn wf(&self) -> bool {
        forall|id: NodeId| {
            &&& !(#[trigger] self.connections().dom().contains(id)
                && self.running().contains(id))
            &&& !(self.connections().dom().contains(id) && self.retired().contains(id))
            &&& !(self.running().contains(id) && self.retired().contains(id))
        }
    }

    /// Whether the id is tracked or retired — then a new connection under it
    /// must be rejected.
    pub open spec fn knows(&self, id: NodeId) -> bool {
        self.connections().dom().contains(id) || self.running().contains(id)
            || self.retired().contains(id)
    }

    /// Empty registries.
    pub fn new() -> (r: Registries)
        ensures
            r.wf(),
            r.connections() == Map::<NodeId, Direction>::empty(),
            r.running() == Set::<NodeId>::empty(),
            r.retired() == Set::<NodeId>::empty(),
    {
        Registries {
            connected: HashMap::new(),
            peers: HashSet::new(),
            retired: HashSet::new(),
        }
    }

    /// The accept worker's registration step: record an inbound connection
    /// under its id, unless the id is already tracked or retired — then the
    /// caller must close the duplicate and report the rejection.
    pub fn register_incoming(&mut self, id: NodeId) -> (r: Registered)
        requires
            old(self).wf(),
        ensures
            final(self).wf(),
            r == Registered::Fresh <==> !old(self).knows(id),
            r == Registered::Fresh ==> final(self).connections()
                == old(self).connections().insert(id, Direction::Incoming),
            r == Registered::Duplicate ==> final(self).connections() == old(self).connections(),
            final(self).running() == old(self).running(),
            final(self).retired() == old(self).retired(),
    {
        if self.connected.contains_key(&id) || self.peers.contains(&id)
            || self.retired.contains(&id) {
            Registered::Duplicate
        } else {
            self.connected.insert(id, Direction::Incoming);
            proof {
                self.lemma_wf_after_connect(*old(self), id);
            }
            Registered::Fresh
        }
    }

    /// The connect worker's registration step: the same rule as for inbound
    /// connections, with the outgoing direction.
    pub fn register_outgoing(&mut self, id: NodeId) -> (r: Registered)
        requires
            old(self).wf(),
        ensures
            final(self).wf(),
            r == Registered::Fresh <==> !old(self).knows(id),
            r == Registered::Fresh ==> final(self).connections()
                == old(self).connections().insert(id, Direction::Outgoing),
            r == Registered::Duplicate ==> final(self).connections() == old(self).connections(),
            final(self).running() == old(self).running(),
            final(self).retired() == old(self).retired(),
    {
        if self.connected.contains_key(&id) || self.peers.contains(&id)
            || self.retired.contains(&id) {
            Registered::Duplicate
        } else {
            self.connected.insert(id, Direction::Outgoing);
            proof {
                self.lemma_wf_after_connect(*old(self), id);
            }
            Registered::Fresh
        }
    }

    /// After inserting a fresh id into the connection registry the invariant
    /// still holds: the id was in none of the sets, and the other ids kept
    /// their memberships.
    proof fn lemma_wf_after_connect(&self, before: Registries, id: NodeId)
        requires
            before.wf(),
            !before.knows(id),
            self.connections().dom() == before.connections().dom().insert(id),
            self.running() == before.running(),
            self.retired() == before.retired(),
        ensures
            self.wf(),
    {
        assert forall|x: NodeId| {
            &&& !(#[trigger] self.connections().dom().contains(x)
                && self.running().contains(x))
            &&& !(self.connections().dom().contains(x) && self.retired().contains(x))
            &&& !(self.running().contains(x) && self.retired().contains(x))
        } by {
            if x != id {
                assert(self.connections().dom().contains(x)
                    == before.connections().dom().contains(x));
            }
            assert(!(before.connections().dom().contains(x)
                && before.running().contains(x)));
        }
    }

    /// The upgrade worker's first step: take the pending connection out of
    /// the registry. `None` means there was none, and the upgrade fails with
    /// a connection-not-found report.
    pub fn begin_upgrade(&mut self, id: NodeId) -> (dir: Option<Direction>)
        requires
            old(self).wf(),
        ensures
            final(self).wf(),
            match dir {
                Option::Some(d) => old(self).connections().dom().contains(id)
                    && d == old(self).connections()[id]
                    && final(self).connections() == old(self).connections().remove(id),
                Option::None => !old(self).connections().dom().contains(id)
                    && final(self).connections() == old(self).connections(),
            },
            final(self).running() == old(self).running(),
            final(self).retired() == old(self).retired(),
    {
        let dir = self.connected.remove(&id);
        proof {
            assert forall|x: NodeId| {
                &&& !(#[trigger] self.connections().dom().contains(x)
                    && self.running().contains(x))
                &&& !(self.connections().dom().contains(x) && self.retired().contains(x))
                &&& !(self.running().contains(x) && self.retired().contains(x))
            } by {
                assert(self.connections().dom().contains(x)
                    ==> old(self).connections().dom().contains(x));
                assert(!(old(self).connections().dom().contains(x)
                    && old(self).running().contains(x)));
            }
        }
        dir
    }

    /// The upgrade worker's second step, after the peer was built and
    /// started: record it as running. `false` reports the fatal mismatch
    /// between protocol and registries — the id is tracked or retired.
    pub fn complete_upgrade(&mut self, id: NodeId) -> (ok: bool)
        requires
            old(self).wf(),
        ensures
            final(self).wf(),
            ok <==> !old(self).knows(id),
            ok ==> final(self).running() == old(self).running().insert(id),
            !ok ==> final(self).running() == old(self).running(),
            final(self).connections() == old(self).connections(),
            final(self).retired() == old(self).retired(),
    {
        if self.peers.contains(&id) || self.connected.contains_key(&id)
            || self.retired.contains(&id) {
            false
        } else {
            self.peers.insert(id);
            proof {
                assert forall|x: NodeId| {
                    &&& !(#[trigger] self.connections().dom().contains(x)
                        && self.running().contains(x))
                    &&& !(self.connections().dom().contains(x) && self.retired().contains(x))
                    &&& !(self.running().contains(x) && self.retired().contains(x))
                } by {
                    assert(self.connections() == old(self).connections());
                    if x != id {
                        assert(self.running().contains(x)
                            ==> old(self).running().contains(x));
                    }
                    assert(!(old(self).connections().dom().contains(x)
                        && old(self).running().contains(x)));
                    assert(!(old(self).connections().dom().contains(x)
                        && old(self).retired().contains(x)));
                }
            }
            true
        }
    }

    /// The stop worker's registry step: give the peer up for teardown and
    /// retire its id — teardown is terminal, so the id cannot register
    /// again. `false` reports the fatal mismatch — no peer is tracked for
    /// the id — and is what keeps a repeated teardown from reporting twice.
    pub fn release_peer(&mut self, id: NodeId) -> (present: bool)
        requires
            old(self).wf(),
        ensures
            final(self).wf(),
            present == old(self).running().contains(id),
            final(self).running() == old(self).running().remove(id),
            present ==> final(self).retired() == old(self).retired().insert(id),
            !present ==> final(self).retired() == old(self).retired(),
            final(self).connections() == old(self).connections(),
    {
        let present = self.peers.remove(&id);
        if present {
            self.retired.insert(id);
        }
        proof {
            assert forall|x: NodeId| {
                &&& !(#[trigger] self.connections().dom().contains(x)
                    && self.running().contains(x))
                &&& !(self.connections().dom().contains(x) && self.retired().contains(x))
                &&& !(self.running().contains(x) && self.retired().contains(x))
            } by {
                assert(self.connections() == old(self).connections());
                assert(self.running().contains(x) ==> old(self).running().contains(x));
                assert(self.retired().contains(x)
                    ==> old(self).retired().contains(x) || x == id);
                assert(!(old(self).connections().dom().contains(x)
                    && old(self).running().contains(x)));
                assert(!(old(self).connections().dom().contains(x)
                    && old(self).retired().contains(x)));
                assert(!(old(self).running().contains(x)
                    && old(self).retired().contains(x)));
                if x == id {
                    assert(!self.running().contains(id));
                    if present {
                        assert(old(self).running().contains(id));
                        assert(!old(self).connections().dom().contains(id));
                    }
                }
            }
        }
        present
    }

    /// The send worker's lookup: whether a running peer is tracked for the
    /// id. A miss is the fatal mismatch, since the protocol only orders sends
    /// for upgraded ids.
    pub fn has_peer(&self, id: NodeId) -> (b: bool)
        ensures
            b == self.running().contains(id),
    {
        self.peers.contains(&id)
    }
}

/// At all times the connection registry and the peer registry are disjoint
/// in key set: no id is both pending upgrade and running. Every registry
/// operation above preserves `wf`, so this holds at every step.
pub proof fn lemma_registries_disjoint(r: &Registries, id: NodeId)
    requires
        r.wf(),
    ensures
        !(r.connections().dom().contains(id) && r.running().contains(id)),
{
}

/// A retired id is in neither registry: once torn down it can neither be
/// pending upgrade nor running again.
pub proof fn lemma_retired_is_out(r: &Registries, id: NodeId)
    requires
        r.wf(),
        r.retired().contains(id),
    ensures
        !r.connections().dom().contains(id),
        !r.running().contains(id),
{
    assert(!(r.connections().dom().contains(id) && r.retired().contains(id)));
    assert(!(r.running().contains(id) && r.retired().contains(id)));
}

} // verus!
