use vstd::prelude::*;

verus! {

/// Something a reef holds for crabs to eat.
#[derive(Clone, Copy, Debug, PartialEq, Eq, Structural)]
pub enum Prey {
    Minnow { speed: u32 },
    Shrimp { energy: u32 },
    Clam,
    Algae,
}

impl Prey {
    pub fn minnow(speed: u32) -> (r: Prey)
        ensures
            r == (Prey::Minnow { speed }),
    {
        Prey::Minnow { speed }
    }

    pub fn shrimp(energy: u32) -> (r: Prey)
        ensures
            r == (Prey::Shrimp { energy }),
    {
        Prey::Shrimp { energy }
    }

    pub fn clam() -> (r: Prey)
        ensures
            r == Prey::Clam,
    {
        Prey::Clam
    }

    pub fn algae() -> (r: Prey)
        ensures
            r == Prey::Algae,
    {
        Prey::Algae
    }
}

/// A reef: the prey it holds, in the order they were added.
#[derive(Debug)]
pub struct Reef {
    prey: Vec<Prey>,
}

impl View for Reef {
    type V = Seq<Prey>;

    closed spec fn view(&self) -> Seq<Prey> {
        self.prey@
    }
}

impl Reef {
    pub fn new() -> (r: Reef)
        ensures
            r@ == Seq::<Prey>::empty(),
    {
        Reef { prey: Vec::new() }
    }

    pub fn add_prey(&mut self, prey: Prey)
        ensures
            final(self)@ == old(self)@.push(prey),
    {
        self.prey.push(prey);
    }

    /// The prey, in the order they were added.
    pub fn prey(&self) -> (r: &[Prey])
        ensures
            r@ == self@,
    {
        self.prey.as_slice()
    }
}

} // verus!
