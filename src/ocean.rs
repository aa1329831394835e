use vstd::prelude::*;

use crate::beach::Beach;
use crate::reef::{Prey, Reef};

verus! {

/// Speed of every minnow a new reef is stocked with.
pub const MINNOW_SPEED: u32 = 25;

/// Energy of every shrimp a new reef is stocked with.
pub const SHRIMP_ENERGY: u32 = 1;

/// What a reef generated with these counts holds: the minnows, then the
/// shrimp, then the clams, then the algae.
pub open spec fn stocked(n_minnows: nat, n_shrimp: nat, n_clams: nat, n_algae: nat) -> Seq<Prey> {
    Seq::new(n_minnows, |i: int| Prey::Minnow { speed: MINNOW_SPEED })
        + Seq::new(n_shrimp, |i: int| Prey::Shrimp { energy: SHRIMP_ENERGY })
        + Seq::new(n_clams, |i: int| Prey::Clam)
        + Seq::new(n_algae, |i: int| Prey::Algae)
}

/// A handle to a reef of an ocean. Copies of a handle, and the ocean's own
/// list of reefs, all reach the same reef.
#[derive(Clone, Copy, Debug, PartialEq, Eq, Structural)]
pub struct ReefHandle {
    index: usize,
}

impl ReefHandle {
    /// Position of the reef in its ocean's list of reefs.
    pub closed spec fn spec_index(&self) -> int {
        self.index as int
    }

    pub fn index(&self) -> (r: usize)
        ensures
            r == self.spec_index(),
    {
        self.index
    }
}

/// An ocean owns its beaches and keeps every reef it generated.
#[derive(Debug)]
pub struct Ocean {
    beaches: Vec<Beach>,
    reefs: Vec<Reef>,
}

impl Ocean {
    /// The beaches, in the order they were added.
    pub closed spec fn beach_list(&self) -> Seq<Beach> {
        self.beaches@
    }

    /// The reefs, in the order they were generated.
    pub closed spec fn reef_list(&self) -> Seq<Reef> {
        self.reefs@
    }

    pub fn new() -> (r: Ocean)
        ensures
            r.beach_list() == Seq::<Beach>::empty(),
            r.reef_list() == Seq::<Reef>::empty(),
    {
        Ocean { beaches: Vec::new(), reefs: Vec::new() }
    }

    /// Takes `beach` and places it after all the others.
    pub fn add_beach(&mut self, beach: Beach)
        ensures
            final(self).beach_list() == old(self).beach_list().push(beach),
            final(self).reef_list() == old(self).reef_list(),
    {
        self.beaches.push(beach);
    }

    /// All beaches, in the order they were added.
    pub fn beaches(&self) -> (r: &[Beach])
        ensures
            r@ == self.beach_list(),
    {
        self.beaches.as_slice()
    }

    /// All reefs, in the order they were generated.
    pub fn reefs(&self) -> (r: &[Reef])
        ensures
            r@ == self.reef_list(),
    {
        self.reefs.as_slice()
    }

    /// The reef that `h` reaches.
    pub fn reef(&self, h: ReefHandle) -> (r: &Reef)
        requires
            h.spec_index() < self.reef_list().len(),
        ensures
            *r == self.reef_list()[h.spec_index()],
    {
        &self.reefs[h.index]
    }

    /// The reef that `h` reaches, to be changed in place: the change is seen
    /// through every handle to it and through the list of reefs.
    pub fn reef_mut(&mut self, h: ReefHandle) -> (r: &mut Reef)
        requires
            h.spec_index() < old(self).reef_list().len(),
        ensures
            *r == old(self).reef_list()[h.spec_index()],
            final(self).reef_list() == old(self).reef_list().update(h.spec_index(), *final(r)),
            final(self).beach_list() == old(self).beach_list(),
    {
        &mut self.reefs[h.index]
    }

    /// Generates a reef holding `n_minnows` minnows, `n_shrimp` shrimp,
    /// `n_clams` clams and `n_algae` algae, in that order, keeps it after the
    /// other reefs and hands back a handle to it.
    pub fn generate_reef(&mut self, n_minnows: u32, n_shrimp: u32, n_clams: u32, n_algae: u32) -> (r:
        ReefHandle)
        ensures
            r.spec_index() == old(self).reef_list().len(),
            final(self).reef_list() == old(self).reef_list().push(final(self).reef_list().last()),
            final(self).reef_list().last()@ == stocked(
                n_minnows as nat,
                n_shrimp as nat,
                n_clams as nat,
                n_algae as nat,
            ),
            final(self).beach_list() == old(self).beach_list(),
    {
        let mut new_reef = Reef::new();
        let mut n: u32 = 0;
        while n < n_minnows
            invariant
                n <= n_minnows,
                new_reef@ =~= stocked(n as nat, 0, 0, 0),
            decreases n_minnows - n,
        {
            new_reef.add_prey(Prey::minnow(MINNOW_SPEED));
            n = n + 1;
        }
        let mut n: u32 = 0;
        while n < n_shrimp
            invariant
                n <= n_shrimp,
                new_reef@ =~= stocked(n_minnows as nat, n as nat, 0, 0),
            decreases n_shrimp - n,
        {
            new_reef.add_prey(Prey::shrimp(SHRIMP_ENERGY));
            n = n + 1;
        }
        let mut n: u32 = 0;
        while n < n_clams
            invariant
                n <= n_clams,
                new_reef@ =~= stocked(n_minnows as nat, n_shrimp as nat, n as nat, 0),
            decreases n_clams - n,
        {
            new_reef.add_prey(Prey::clam());
            n = n + 1;
        }
        let mut n: u32 = 0;
        while n < n_algae
            invariant
                n <= n_algae,
                new_reef@ =~= stocked(n_minnows as nat, n_shrimp as nat, n_clams as nat, n as nat),
            decreases n_algae - n,
        {
            new_reef.add_prey(Prey::algae());
            n = n + 1;
        }
        let handle = ReefHandle { index: self.reefs.len() };
        self.reefs.push(new_reef);
        handle
    }
}

/// A reef generated by an ocean is shared between the handle handed back and
/// the ocean's list of reefs: prey added through the handle shows in the
/// list at the handle's position, after the stocked prey, and no other reef
/// changes.
pub proof fn lemma_handle_shares_listed_reef(
    o0: Ocean,
    o1: Ocean,
    o2: Ocean,
    h: ReefHandle,
    changed: Reef,
    counts: (u32, u32, u32, u32),
    p: Prey,
)
    requires
        h.spec_index() == o0.reef_list().len(),
        o1.reef_list() == o0.reef_list().push(o1.reef_list().last()),
        o1.reef_list().last()@ == stocked(
            counts.0 as nat,
            counts.1 as nat,
            counts.2 as nat,
            counts.3 as nat,
        ),
        changed@ == o1.reef_list()[h.spec_index()]@.push(p),
        o2.reef_list() == o1.reef_list().update(h.spec_index(), changed),
    ensures
        o2.reef_list().len() == o0.reef_list().len() + 1,
        o2.reef_list()[h.spec_index()]@ == stocked(
            counts.0 as nat,
            counts.1 as nat,
            counts.2 as nat,
            counts.3 as nat,
        ).push(p),
        forall|i: int| 0 <= i < o0.reef_list().len() ==> o2.reef_list()[i] == o0.reef_list()[i],
{
    assert(o1.reef_list()[h.spec_index()] == o1.reef_list().last());
}

} // verus!
