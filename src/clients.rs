use vstd::prelude::*;

use crate::surface_tree::SurfaceTree;

verus! {

/// A connected protocol client and the surfaces it owns.
pub struct ClientEntry {
    pub id: u64,
    pub surfaces: SurfaceTree,
}

/// Protocol state by client identity. Identities are unique.
pub struct ClientRegistry {
    pub clients: Vec<ClientEntry>,
}

impl ClientRegistry {
    /// The identities of the connected clients, in order of connection.
    pub open spec fn ids(&self) -> Seq<u64> {
        self.clients@.map_values(|c: ClientEntry| c.id)
    }

    pub open spec fn wf(&self) -> bool {
        self.ids().no_duplicates()
    }

    /// No client connected.
    pub fn new() -> (r: Self)
        ensures
            r.wf(),
            r.ids() == Seq::<u64>::empty(),
    {
        let r = ClientRegistry { clients: Vec::new() };
        assert(r.ids() =~= Seq::<u64>::empty());
        r
    }

    /// The position of client `id`, if it is connected.
    pub fn find(&self, id: u64) -> (r: Option<usize>)
        ensures
            r is Some ==> r->0 < self.clients.len() && self.ids()[r->0 as int] == id,
            r is None ==> !self.ids().contains(id),
    {
        let mut k: usize = 0;
        while k < self.clients.len()
            invariant
                k <= self.clients.len(),
                forall|j: int| 0 <= j < k ==> self.ids()[j] != id,
            decreases self.clients.len() - k,
        {
            if self.clients[k].id == id {
                return Some(k);
            }
            k = k + 1;
        }
        None
    }

    /// Registers client `id`, with no surfaces yet. Returns false, and changes
    /// nothing, where `id` is already connected.
    pub fn connect(&mut self, id: u64) -> (r: bool)
        requires
            old(self).wf(),
        ensures
            final(self).wf(),
            r == !old(self).ids().contains(id),
            r ==> final(self).ids() == old(self).ids().push(id),
            r ==> final(self).clients@.last().surfaces.nodes@.len() == 0,
            !r ==> final(self).ids() == old(self).ids(),
    {
        if self.find(id).is_some() {
            return false;
        }
        self.clients.push(ClientEntry { id, surfaces: SurfaceTree { nodes: Vec::new() } });
        assert(self.ids() =~= old(self).ids().push(id));
        true
    }

    /// Forgets client `id`, however it left. Callbacks still queued on its
    /// surfaces go with it, never fired. Returns whether it was connected.
    pub fn disconnect(&mut self, id: u64) -> (r: bool)
        requires
            old(self).wf(),
        ensures
            final(self).wf(),
            r == old(self).ids().contains(id),
            !final(self).ids().contains(id),
            forall|x: u64| x != id ==> (final(self).ids().contains(x) <==> old(self).ids().contains(x)),
            r ==> final(self).ids().len() == old(self).ids().len() - 1,
            !r ==> final(self).ids() == old(self).ids(),
    {
        match self.find(id) {
            None => false,
            Some(k) => {
                let ghost before = self.ids();
                self.clients.remove(k);
                assert(self.ids() =~= before.remove(k as int));
                proof {
                    assert forall|x: u64| #[trigger] self.ids().contains(x) <==> (before.contains(x)
                        && x != id) by {
                        if before.contains(x) && x != id {
                            let j = choose|j: int| 0 <= j < before.len() && before[j] == x;
                            if j < k {
                                assert(self.ids()[j] == x);
                            } else {
                                assert(self.ids()[j - 1] == x);
                            }
                        }
                        if self.ids().contains(x) {
                            let j = choose|j: int| 0 <= j < self.ids().len() && self.ids()[j] == x;
                            if j < k {
                                assert(before[j] == x);
                            } else {
                                assert(before[j + 1] == x);
                            }
                        }
                    }
                }
                true
            },
        }
    }
}

} // verus!
