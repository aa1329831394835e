use vstd::prelude::*;

use crate::clans::{names_of, ClanSystem};
use crate::crab::{Crab, CrabView, OFFSPRING_SPEED};

verus! {

/// The crabs of `crabs` called `name`, in their order.
pub open spec fn named(crabs: Seq<Crab>, name: Seq<char>) -> Seq<Crab> {
    crabs.filter(|c: Crab| c@.name == name)
}

/// `i` is the first position holding the greatest speed of `crabs`.
pub open spec fn is_first_fastest(crabs: Seq<Crab>, i: int) -> bool {
    &&& 0 <= i < crabs.len()
    &&& forall|j: int| 0 <= j < crabs.len() ==> #[trigger] crabs[j]@.speed <= crabs[i]@.speed
    &&& forall|j: int| 0 <= j < i ==> #[trigger] crabs[j]@.speed < crabs[i]@.speed
}

/// Every name of `names` is carried by at least one crab of `crabs`.
pub open spec fn all_resolve(crabs: Seq<Crab>, names: Seq<Seq<char>>) -> bool {
    forall|k: int| 0 <= k < names.len() ==> #[trigger] named(crabs, names[k]).len() > 0
}

/// Sum of the speeds of `names`, each name standing for the first crab of
/// `crabs` that carries it.
pub open spec fn speed_total(crabs: Seq<Crab>, names: Seq<Seq<char>>) -> int
    decreases names.len(),
{
    if names.len() == 0 {
        0
    } else {
        speed_total(crabs, names.drop_last()) + named(crabs, names.last())[0]@.speed
    }
}

/// Truncated mean speed of `names`, resolved as in `speed_total`.
pub open spec fn mean_speed(crabs: Seq<Crab>, names: Seq<Seq<char>>) -> int {
    speed_total(crabs, names) / names.len() as int
}

/// Message of the error for a first clan without members.
pub const FIRST_CLAN_EMPTY: &'static str = "id1 doesn't exist";

/// Message of the error for a second clan without members.
pub const SECOND_CLAN_EMPTY: &'static str = "id2 doesn't exist";

/// A beach owns its crabs, in the order they arrived, and one clan system
/// that groups them by name.
#[derive(Debug)]
pub struct Beach {
    crab_collection: Vec<Crab>,
    clan_system: ClanSystem,
}

impl View for Beach {
    type V = Seq<Crab>;

    closed spec fn view(&self) -> Seq<Crab> {
        self.crab_collection@
    }
}

impl Beach {
    /// The beach's clan system.
    pub closed spec fn clans(&self) -> ClanSystem {
        self.clan_system
    }

    /// The clan system is well formed.
    pub open spec fn wf(&self) -> bool {
        self.clans().wf()
    }

    pub fn new() -> (r: Beach)
        ensures
            r.wf(),
            r@ == Seq::<Crab>::empty(),
            r.clans()@ == Map::<Seq<char>, Seq<Seq<char>>>::empty(),
    {
        Beach { crab_collection: Vec::new(), clan_system: ClanSystem::new() }
    }

    /// Number of crabs on the beach.
    pub fn size(&self) -> (r: usize)
        ensures
            r == self@.len(),
    {
        self.crab_collection.len()
    }

    /// Takes `crab` and places it after all the others.
    pub fn add_crab(&mut self, crab: Crab)
        ensures
            final(self)@ == old(self)@.push(crab),
            final(self).clans() == old(self).clans(),
    {
        self.crab_collection.push(crab);
    }

    pub fn get_crab(&self, index: usize) -> (r: &Crab)
        requires
            index < self@.len(),
        ensures
            *r == self@[index as int],
    {
        &self.crab_collection[index]
    }

    /// All crabs, in the order they arrived.
    pub fn crabs(&self) -> (r: &[Crab])
        ensures
            r@ == self@,
    {
        self.crab_collection.as_slice()
    }
    /// The crab with the greatest speed, the earliest one among equals;
    /// `None` only on an empty beach.
    pub fn get_fastest_crab(&self) -> (r: Option<&Crab>)
        ensures
            match r {
                None => self@.len() == 0,
                Some(c) => exists|i: int| is_first_fastest(self@, i) && *c == self@[i],
            },
    {
        if self.crab_collection.len() == 0 {
            return None;
        }
        let mut best: usize = 0;
        let mut i: usize = 1;
        while i < self.crab_collection.len()
            invariant
                1 <= i <= self@.len(),
                best < i,
                forall|j: int| 0 <= j < i ==> #[trigger] self@[j]@.speed <= self@[best as int]@.speed,
                forall|j: int| 0 <= j < best ==> #[trigger] self@[j]@.speed < self@[best as int]@.speed,
            decreases self@.len() - i,
        {
            if self.crab_collection[i].speed() > self.crab_collection[best].speed() {
                best = i;
            }
            i = i + 1;
        }
        assert(is_first_fastest(self@, best as int));
        Some(&self.crab_collection[best])
    }

    /// The crabs called `name`, in the order they arrived.
    pub fn find_crabs_by_name(&self, name: &str) -> (r: Vec<&Crab>)
        ensures
            r@.map_values(|c: &Crab| *c) == named(self@, name@),
    {
        let key = name.to_owned();
        let mut r: Vec<&Crab> = Vec::new();
        let mut i: usize = 0;
        while i < self.crab_collection.len()
            invariant
                i <= self@.len(),
                key@ == name@,
                r@.map_values(|c: &Crab| *c) == named(self@.take(i as int), name@),
            decreases self@.len() - i,
        {
            let crab = &self.crab_collection[i];
            proof {
                assert(self@.take(i + 1) =~= self@.take(i as int).push(self@[i as int]));
                self@.take(i as int).lemma_filter_push(self@[i as int], |c: Crab| c@.name == name@);
            }
            if crab.has_name(&key) {
                r.push(crab);
            }
            assert(r@.map_values(|c: &Crab| *c) =~= named(self@.take(i + 1), name@));
            i = i + 1;
        }
        assert(self@.take(i as int) =~= self@);
        r
    }

    /// Breeds the crabs at `i` and `j` (possibly the same one) and places the
    /// offspring, called `name`, after all the others.
    pub fn breed_crabs(&mut self, i: usize, j: usize, name: String)
        requires
            i < old(self)@.len(),
            j < old(self)@.len(),
        ensures
            final(self)@ == old(self)@.push(final(self)@.last()),
            final(self)@.last()@ == (CrabView { name: name@, speed: OFFSPRING_SPEED }),
            final(self).clans() == old(self).clans(),
    {
        let new_crab = self.get_crab(i).breed(self.get_crab(j), name);
        self.add_crab(new_crab);
    }

    pub fn get_clan_system(&self) -> (r: &ClanSystem)
        ensures
            *r == self.clans(),
    {
        &self.clan_system
    }

    /// Puts `crab_name` into clan `clan_id`, unless it already belongs to a
    /// clan, in which case nothing changes.
    pub fn add_member_to_clan(&mut self, clan_id: &str, crab_name: &str)
        requires
            old(self).wf(),
        ensures
            final(self).wf(),
            final(self)@ == old(self)@,
            final(self).clans()@ == if old(self).clans().has_member_spec(crab_name@) {
                old(self).clans()@
            } else {
                old(self).clans()@.insert(
                    clan_id@,
                    old(self).clans().members(clan_id@).push(crab_name@),
                )
            },
    {
        if !self.clan_system.has_member(crab_name) {
            self.clan_system.add_clan_member(clan_id, crab_name);
        }
    }
    /// Sum of the speeds of `names`, each resolved to its first crab.
    fn clan_total(&self, names: &Vec<String>) -> (r: u128)
        requires
            all_resolve(self@, names_of(names@)),
        ensures
            r == speed_total(self@, names_of(names@)),
    {
        let mut total: u128 = 0;
        let mut k: usize = 0;
        while k < names.len()
            invariant
                k <= names@.len(),
                all_resolve(self@, names_of(names@)),
                total == speed_total(self@, names_of(names@).take(k as int)),
                total <= k * 0x1_0000_0000,
            decreases names@.len() - k,
        {
            let found = self.find_crabs_by_name(names[k].as_str());
            proof {
                assert(named(self@, names_of(names@)[k as int]).len() > 0);
                assert(found@.map_values(|c: &Crab| *c)[0] == found@[0]);
                let prefix = names_of(names@).take(k + 1);
                assert(prefix.drop_last() =~= names_of(names@).take(k as int));
            }
            let speed = found[0].speed();
            assert(total + speed <= (k + 1) * 0x1_0000_0000) by (nonlinear_arith)
                requires
                    total <= k * 0x1_0000_0000,
                    speed < 0x1_0000_0000,
            ;
            total = total + speed as u128;
            k = k + 1;
        }
        assert(names_of(names@).take(k as int) =~= names_of(names@));
        total
    }

    /// Compares the mean speeds of two clans, each member standing for the
    /// first crab of the beach with its name. The faster clan's id wins;
    /// equal means give `None`. A clan without members is an error, the
    /// first clan being checked before the second.
    pub fn get_winner_clan(&self, id1: &str, id2: &str) -> (r: Result<Option<String>, String>)
        requires
            self.wf(),
            all_resolve(self@, self.clans().members(id1@)),
            self.clans().members(id1@).len() > 0 ==> all_resolve(
                self@,
                self.clans().members(id2@),
            ),
        ensures
            ({
                let m1 = self.clans().members(id1@);
                let m2 = self.clans().members(id2@);
                if m1.len() == 0 {
                    r matches Err(e) && e@ == FIRST_CLAN_EMPTY@
                } else if m2.len() == 0 {
                    r matches Err(e) && e@ == SECOND_CLAN_EMPTY@
                } else if mean_speed(self@, m1) > mean_speed(self@, m2) {
                    r matches Ok(Some(w)) && w@ == id1@
                } else if mean_speed(self@, m1) < mean_speed(self@, m2) {
                    r matches Ok(Some(w)) && w@ == id2@
                } else {
                    r == Ok::<Option<String>, String>(None)
                }
            }),
    {
        let names_one = self.clan_system.get_clan_member_names(id1);
        let count_one = names_one.len();
        if count_one == 0 {
            return Err(FIRST_CLAN_EMPTY.to_owned());
        }
        let average_one = self.clan_total(&names_one) / count_one as u128;
        let names_two = self.clan_system.get_clan_member_names(id2);
        let count_two = names_two.len();
        if count_two == 0 {
            return Err(SECOND_CLAN_EMPTY.to_owned());
        }
        let average_two = self.clan_total(&names_two) / count_two as u128;
        if average_one > average_two {
            Ok(Some(id1.to_owned()))
        } else if average_one < average_two {
            Ok(Some(id2.to_owned()))
        } else {
            Ok(None)
        }
    }
}

/// Crabs added one after another to an empty beach are all there, each at
/// the position of its call: the beach holds exactly the added crabs, in
/// call order, so its size is the number of calls.
pub proof fn lemma_crabs_kept_in_call_order(beaches: Seq<Beach>, added: Seq<Crab>)
    requires
        beaches.len() == added.len() + 1,
        beaches[0]@ == Seq::<Crab>::empty(),
        forall|k: int|
            0 <= k < added.len() ==> #[trigger] beaches[k + 1]@ == beaches[k]@.push(added[k]),
    ensures
        beaches.last()@.len() == added.len(),
        forall|k: int| 0 <= k < added.len() ==> beaches.last()@[k] == added[k],
    decreases added.len(),
{
    if added.len() > 0 {
        let n = added.len() - 1;
        lemma_crabs_kept_in_call_order(beaches.drop_last(), added.drop_last());
        assert(beaches.drop_last().last() == beaches[n]);
        assert(beaches[n]@ =~= added.drop_last());
        assert(beaches[n + 1]@ == beaches[n]@.push(added[n]));
        assert(beaches.last()@ =~= added);
    } else {
        assert(beaches.last()@ =~= added);
    }
}

/// A name that is in no clan, put into clan `a` and then offered to clan
/// `b`, ends up in clan `a` and in no other clan; the second call changes
/// nothing.
pub proof fn lemma_clan_membership_exclusive(
    b0: Beach,
    b1: Beach,
    b2: Beach,
    a: Seq<char>,
    b: Seq<char>,
    name: Seq<char>,
)
    requires
        b0.wf(),
        !b0.clans().has_member_spec(name),
        b1.clans()@ == b0.clans()@.insert(a, b0.clans().members(a).push(name)),
        b2.clans()@ == if b1.clans().has_member_spec(name) {
            b1.clans()@
        } else {
            b1.clans()@.insert(b, b1.clans().members(b).push(name))
        },
    ensures
        b2.clans()@ == b1.clans()@,
        b2.clans().members(a).contains(name),
        forall|id: Seq<char>| #[trigger] b2.clans().members(id).contains(name) ==> id == a,
{
    let m = b0.clans().members(a).push(name);
    assert(m[m.len() - 1] == name);
    assert(b1.clans()@[a].contains(name));
    assert(b1.clans().has_member_spec(name));
    assert forall|id: Seq<char>| #[trigger] b2.clans().members(id).contains(name) implies id
        == a by {
        if id != a {
            assert(b2.clans().members(id) == b0.clans().members(id));
            assert(b0.clans()@.contains_key(id) && b0.clans()@[id].contains(name));
        }
    }
}

} // verus!
