use vstd::prelude::*;

verus! {

/// An imported frame: its texture, the buffer it was imported from, and the
/// import's generation number.
#[derive(Clone, Copy, Debug, PartialEq, Eq, Structural)]
pub struct SwapSlot {
    pub texture: u64,
    pub buffer: u64,
    pub generation: u64,
}

/// The per-output ring of imported frames: the one on screen and the one
/// waiting for its presentation. A buffer stays held until the frame that
/// replaces it has been presented.
#[derive(Clone, Copy, Debug)]
pub struct SwapChain {
    pub front: Option<SwapSlot>,
    pub pending: Option<SwapSlot>,
    /// Generation of the latest import.
    pub generation: u64,
}

/// The buffers a swap chain holds, the one on screen first.
pub open spec fn held(front: Option<SwapSlot>, pending: Option<SwapSlot>) -> Seq<u64> {
    let f = match front {
        Some(s) => seq![s.buffer],
        None => Seq::empty(),
    };
    let p = match pending {
        Some(s) => seq![s.buffer],
        None => Seq::empty(),
    };
    f + p
}

/// The generation that follows `g`, wrapping at the top of the range.
pub open spec fn next_generation(g: u64) -> u64 {
    if g == u64::MAX {
        0
    } else {
        (g + 1) as u64
    }
}

impl SwapChain {
    pub open spec fn held(&self) -> Seq<u64> {
        held(self.front, self.pending)
    }

    /// An empty chain.
    pub fn new() -> (r: Self)
        ensures
            r.front is None,
            r.pending is None,
            r.generation == 0,
    {
        SwapChain { front: None, pending: None, generation: 0 }
    }

    /// Takes the buffer of a frame and the outcome of importing it: the texture,
    /// or `None` where the import failed. A failed import holds nothing: the
    /// buffer comes back to be released and the chain is unchanged. Otherwise
    /// the frame waits for presentation, the frame on screen stays held, and a
    /// frame that was waiting and never presented comes back to be released.
    /// Returns the buffers to release now.
    pub fn accept(&mut self, buffer: u64, imported: Option<u64>) -> (r: Vec<u64>)
        ensures
            imported is None ==> r@ == seq![buffer] && final(self).front == old(self).front
                && final(self).pending == old(self).pending && final(self).generation == old(
                self,
            ).generation,
            imported is Some ==> final(self).front == old(self).front && final(self).pending == Some(
                SwapSlot {
                    texture: imported->0,
                    buffer,
                    generation: next_generation(old(self).generation),
                },
            ) && final(self).generation == next_generation(old(self).generation) && r@ == match old(
                self,
            ).pending {
                Some(s) => seq![s.buffer],
                None => Seq::empty(),
            },
            (r@ + final(self).held()).to_multiset() =~= old(self).held().push(buffer).to_multiset(),
    {
        let mut r: Vec<u64> = Vec::new();
        match imported {
            None => {
                r.push(buffer);
            },
            Some(texture) => {
                if let Some(s) = self.pending {
                    r.push(s.buffer);
                }
                let generation = if self.generation == u64::MAX {
                    0
                } else {
                    self.generation + 1
                };
                self.generation = generation;
                self.pending = Some(SwapSlot { texture, buffer, generation });
            },
        }
        proof {
            let f = match old(self).front {
                Some(s) => seq![s.buffer],
                None => Seq::<u64>::empty(),
            };
            assert(old(self).held() == f + match old(self).pending {
                Some(s) => seq![s.buffer],
                None => Seq::<u64>::empty(),
            });
            vstd::seq_lib::lemma_multiset_commutative(r@, self.held());
            vstd::seq_lib::lemma_multiset_commutative(old(self).held(), seq![buffer]);
            assert(old(self).held().push(buffer) =~= old(self).held() + seq![buffer]);
            if imported is None {
                vstd::seq_lib::lemma_multiset_commutative(seq![buffer], old(self).held());
            } else if old(self).pending is Some {
                let b = old(self).pending->0.buffer;
                assert(self.held() =~= f + seq![buffer]);
                assert(old(self).held() =~= f + seq![b]);
                vstd::seq_lib::lemma_multiset_commutative(f, seq![buffer]);
                vstd::seq_lib::lemma_multiset_commutative(f, seq![b]);
                vstd::seq_lib::lemma_multiset_commutative(seq![b], f + seq![buffer]);
                vstd::seq_lib::lemma_multiset_commutative(f + seq![b], seq![buffer]);
            } else {
                assert(self.held() =~= f + seq![buffer]);
                assert(old(self).held() =~= f);
                assert(r@ + self.held() =~= old(self).held().push(buffer));
            }
        }
        r
    }

    /// The backend confirmed that the waiting frame is on screen: it becomes the
    /// front, and the buffer of the frame it replaced, if any, comes back to be
    /// released. With no frame waiting nothing changes and nothing comes back.
    pub fn confirm_presented(&mut self) -> (r: Option<u64>)
        ensures
            old(self).pending is Some ==> final(self).front == old(self).pending
                && final(self).pending is None && r == match old(self).front {
                Some(s) => Some(s.buffer),
                None => None::<u64>,
            },
            old(self).pending is None ==> final(self).front == old(self).front
                && final(self).pending is None && r is None,
            final(self).generation == old(self).generation,
    {
        match self.pending {
            Some(p) => {
                let prior = match self.front {
                    Some(s) => Some(s.buffer),
                    None => None,
                };
                self.front = Some(p);
                self.pending = None;
                prior
            },
            None => None,
        }
    }

    /// Empties the chain, when its output goes away, and returns every buffer it
    /// held, the one on screen first.
    pub fn release_all(&mut self) -> (r: Vec<u64>)
        ensures
            r@ == old(self).held(),
            final(self).front is None,
            final(self).pending is None,
            final(self).generation == old(self).generation,
    {
        let mut r: Vec<u64> = Vec::new();
        if let Some(s) = self.front {
            r.push(s.buffer);
        }
        if let Some(s) = self.pending {
            r.push(s.buffer);
        }
        self.front = None;
        self.pending = None;
        proof {
            assert(r@ =~= old(self).held());
        }
        r
    }
}

} // verus!
