use vstd::prelude::*;

verus! {

/// What a crab is, as far as the rest of the library can tell: its name and
/// its speed.
pub struct CrabView {
    pub name: Seq<char>,
    pub speed: u32,
}

/// Speed that every newborn crab starts with.
pub const OFFSPRING_SPEED: u32 = 1;

/// A named crab with a speed. Names need not be unique.
#[derive(Debug)]
pub struct Crab {
    name: String,
    speed: u32,
}

impl View for Crab {
    type V = CrabView;

    closed spec fn view(&self) -> CrabView {
        CrabView { name: self.name@, speed: self.speed }
    }
}

impl Crab {
    pub fn new(name: String, speed: u32) -> (r: Crab)
        ensures
            r@ == (CrabView { name: name@, speed: speed }),
    {
        Crab { name, speed }
    }

    pub fn name(&self) -> (r: &str)
        ensures
            r@ == self@.name,
    {
        self.name.as_str()
    }

    pub fn speed(&self) -> (r: u32)
        ensures
            r == self@.speed,
    {
        self.speed
    }

    /// Whether this crab is called `name`.
    pub fn has_name(&self, name: &String) -> (r: bool)
        ensures
            r == (self@.name == name@),
    {
        self.name == *name
    }

    /// A new crab called `name`, born to `self` and `other`. Offspring start
    /// at the fixed newborn speed, whoever the parents are.
    pub fn breed(&self, other: &Crab, name: String) -> (r: Crab)
        ensures
            r@ == (CrabView { name: name@, speed: OFFSPRING_SPEED }),
    {
        Crab::new(name, OFFSPRING_SPEED)
    }
}

} // verus!
