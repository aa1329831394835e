use vstd::prelude::*;

verus! {

/// The names held by a list of strings, as character sequences.
pub open spec fn names_of(v: Seq<String>) -> Seq<Seq<char>> {
    v.map_values(|s: String| s@)
}

/// One clan: its identifier and its members' names, in the order they joined.
#[derive(Debug)]
struct Clan {
    id: String,
    members: Vec<String>,
}

/// Clans of a beach: each clan identifier maps to the names of its members.
/// Only names are stored; the crabs themselves live elsewhere.
#[derive(Debug)]
pub struct ClanSystem {
    clans: Vec<Clan>,
}

impl View for ClanSystem {
    type V = Map<Seq<char>, Seq<Seq<char>>>;

    closed spec fn view(&self) -> Map<Seq<char>, Seq<Seq<char>>> {
        Map::new(
            |k: Seq<char>| self.ids().contains(k),
            |k: Seq<char>|
                self.members_at(choose|i: int| 0 <= i < self.ids().len() && self.ids()[i] == k),
        )
    }
}

impl ClanSystem {
    spec fn ids(&self) -> Seq<Seq<char>> {
        self.clans@.map_values(|c: Clan| c.id@)
    }

    spec fn members_at(&self, i: int) -> Seq<Seq<char>> {
        names_of(self.clans@[i].members@)
    }

    /// Clan identifiers are unique.
    pub closed spec fn wf(&self) -> bool {
        self.ids().no_duplicates()
    }

    /// The members of clan `id`; an unknown clan has none.
    pub open spec fn members(&self, id: Seq<char>) -> Seq<Seq<char>> {
        if self@.contains_key(id) {
            self@[id]
        } else {
            Seq::empty()
        }
    }

    /// `name` is a member of some clan.
    pub open spec fn has_member_spec(&self, name: Seq<char>) -> bool {
        exists|id: Seq<char>| self@.contains_key(id) && #[trigger] self@[id].contains(name)
    }

    /// `id` names the one clan with strictly more members than every other,
    /// and it has at least one member.
    pub open spec fn is_largest(&self, id: Seq<char>) -> bool {
        &&& self@.contains_key(id)
        &&& self@[id].len() > 0
        &&& forall|k: Seq<char>|
            self@.contains_key(k) && k != id ==> #[trigger] self@[k].len() < self@[id].len()
    }

    proof fn lemma_entry(&self, i: int)
        requires
            self.wf(),
            0 <= i < self.clans@.len(),
        ensures
            self@.contains_key(self.ids()[i]),
            self@[self.ids()[i]] == self.members_at(i),
    {
        let k = self.ids()[i];
        assert(self.ids().contains(k));
        let j = choose|j: int| 0 <= j < self.ids().len() && self.ids()[j] == k;
        assert(j == i);
    }

    proof fn lemma_key_index(&self, k: Seq<char>) -> (i: int)
        requires
            self.wf(),
            self@.contains_key(k),
        ensures
            0 <= i < self.clans@.len(),
            self.ids()[i] == k,
            self@[k] == self.members_at(i),
    {
        let i = choose|j: int| 0 <= j < self.ids().len() && self.ids()[j] == k;
        self.lemma_entry(i);
        i
    }

    pub fn new() -> (r: ClanSystem)
        ensures
            r.wf(),
            r@ == Map::<Seq<char>, Seq<Seq<char>>>::empty(),
    {
        let r = ClanSystem { clans: Vec::new() };
        assert(r@ =~= Map::<Seq<char>, Seq<Seq<char>>>::empty());
        r
    }

    fn find_clan(&self, clan_id: &str) -> (r: Option<usize>)
        requires
            self.wf(),
        ensures
            match r {
                Some(i) => i < self.clans@.len() && self.ids()[i as int] == clan_id@,
                None => !self@.contains_key(clan_id@),
            },
    {
        let key = clan_id.to_owned();
        let mut i: usize = 0;
        while i < self.clans.len()
            invariant
                i <= self.clans@.len(),
                key@ == clan_id@,
                forall|j: int| 0 <= j < i ==> self.ids()[j] != clan_id@,
            decreases self.clans@.len() - i,
        {
            if self.clans[i].id == key {
                return Some(i);
            }
            i = i + 1;
        }
        None
    }

    /// Appends `crab_name` to the members of `clan_id`, creating the clan if
    /// it is new. Names already present anywhere are not checked.
    pub fn add_clan_member(&mut self, clan_id: &str, crab_name: &str)
        requires
            old(self).wf(),
        ensures
            final(self).wf(),
            final(self)@ == old(self)@.insert(
                clan_id@,
                old(self).members(clan_id@).push(crab_name@),
            ),
    {
        let ghost pre = *self;
        match self.find_clan(clan_id) {
            Some(i) => {
                self.clans[i].members.push(crab_name.to_owned());
                proof {
                    assert(self.ids() =~= pre.ids());
                    pre.lemma_entry(i as int);
                    assert(self.members_at(i as int) =~= pre.members_at(i as int).push(crab_name@));
                    assert forall|k: Seq<char>| #[trigger] self@.contains_key(k) implies self@[k]
                        == pre@.insert(clan_id@, pre.members(clan_id@).push(crab_name@))[k] by {
                        let j = self.lemma_key_index(k);
                        pre.lemma_entry(j);
                    }
                    assert(self@ =~= pre@.insert(clan_id@, pre.members(clan_id@).push(crab_name@)));
                }
            },
            None => {
                let mut members: Vec<String> = Vec::new();
                members.push(crab_name.to_owned());
                self.clans.push(Clan { id: clan_id.to_owned(), members });
                proof {
                    assert(self.ids() =~= pre.ids().push(clan_id@));
                    assert(!pre.ids().contains(clan_id@));
                    assert(self.wf()) by {
                        assert forall|a: int, b: int|
                            0 <= a < self.ids().len() && 0 <= b < self.ids().len() && a != b
                            implies self.ids()[a] != self.ids()[b] by {
                            if a < pre.ids().len() && b < pre.ids().len() {
                            } else if a < pre.ids().len() {
                                assert(pre.ids()[a] == pre.ids()[a]);
                            } else {
                                assert(pre.ids()[b] == pre.ids()[b]);
                            }
                        }
                    }
                    let n = pre.clans@.len() as int;
                    assert(self.members_at(n) =~= seq![crab_name@]);
                    self.lemma_entry(n);
                    assert forall|k: Seq<char>| #[trigger] self@.contains_key(k) implies self@[k]
                        == pre@.insert(clan_id@, pre.members(clan_id@).push(crab_name@))[k] by {
                        let j = self.lemma_key_index(k);
                        if j < n {
                            pre.lemma_entry(j);
                        }
                    }
                    assert forall|k: Seq<char>|
                        #[trigger] pre@.insert(clan_id@, seq![crab_name@]).contains_key(k)
                        implies self@.contains_key(k) by {
                        if k != clan_id@ {
                            let j = pre.lemma_key_index(k);
                            self.lemma_entry(j);
                        }
                    }
                    assert(self@ =~= pre@.insert(clan_id@, pre.members(clan_id@).push(crab_name@)));
                }
            },
        }
    }

    /// A copy of the member names of `clan_id`, empty for an unknown clan.
    pub fn get_clan_member_names(&self, clan_id: &str) -> (r: Vec<String>)
        requires
            self.wf(),
        ensures
            names_of(r@) == self.members(clan_id@),
    {
        match self.find_clan(clan_id) {
            Some(i) => {
                proof {
                    self.lemma_entry(i as int);
                }
                let members = &self.clans[i].members;
                let mut r: Vec<String> = Vec::new();
                let mut j: usize = 0;
                while j < members.len()
                    invariant
                        j <= members@.len(),
                        r@.len() == j,
                        forall|k: int| 0 <= k < j ==> r@[k]@ == members@[k]@,
                    decreases members@.len() - j,
                {
                    let name = members[j].clone();
                    r.push(name);
                    j = j + 1;
                }
                assert(names_of(r@) =~= names_of(members@));
                r
            },
            None => {
                let r: Vec<String> = Vec::new();
                assert(names_of(r@) =~= Seq::<Seq<char>>::empty());
                r
            },
        }
    }

    /// How many clans exist.
    pub fn get_clan_count(&self) -> (r: usize)
        requires
            self.wf(),
        ensures
            r == self@.dom().len(),
    {
        proof {
            assert(self@.dom() =~= self.ids().to_set());
            self.ids().unique_seq_to_set();
        }
        self.clans.len()
    }

    /// How many members `clan_id` has; 0 for an unknown clan.
    pub fn get_clan_member_count(&self, clan_id: &str) -> (r: usize)
        requires
            self.wf(),
        ensures
            r == self.members(clan_id@).len(),
    {
        match self.find_clan(clan_id) {
            Some(i) => {
                proof {
                    self.lemma_entry(i as int);
                }
                self.clans[i].members.len()
            },
            None => 0,
        }
    }

    /// The clan with strictly the most members, if there is exactly one such
    /// clan and it is not empty; a tie at the top gives `None`.
    pub fn get_largest_clan_id(&self) -> (r: Option<String>)
        requires
            self.wf(),
        ensures
            match r {
                Some(id) => self.is_largest(id@),
                None => forall|k: Seq<char>| !self.is_largest(k),
            },
    {
        let mut largest: usize = 0;
        let mut best: Option<usize> = None;
        let mut i: usize = 0;
        while i < self.clans.len()
            invariant
                self.wf(),
                i <= self.clans@.len(),
                forall|j: int| 0 <= j < i ==> self.clans@[j].members@.len() <= largest,
                match best {
                    Some(b) => {
                        &&& b < i
                        &&& largest > 0
                        &&& self.clans@[b as int].members@.len() == largest
                        &&& forall|j: int|
                            0 <= j < i && j != b ==> self.clans@[j].members@.len() < largest
                    },
                    None => largest == 0 || exists|a: int, b: int|
                        0 <= a < b < i && self.clans@[a].members@.len() == largest
                            && self.clans@[b].members@.len() == largest,
                },
            decreases self.clans@.len() - i,
        {
            let n = self.clans[i].members.len();
            if n > largest {
                largest = n;
                best = Some(i);
            } else if n == largest {
                proof {
                    if let Some(b) = best {
                        assert(self.clans@[b as int].members@.len() == largest);
                    }
                }
                best = None;
            }
            i = i + 1;
        }
        match best {
            Some(b) => {
                proof {
                    self.lemma_entry(b as int);
                    assert forall|k: Seq<char>|
                        self@.contains_key(k) && k != self.ids()[b as int] implies #[trigger] self@[k].len()
                        < self@[self.ids()[b as int]].len() by {
                        let j = self.lemma_key_index(k);
                    }
                }
                Some(self.clans[b].id.clone())
            },
            None => {
                proof {
                    assert forall|k: Seq<char>| !self.is_largest(k) by {
                        if self.is_largest(k) {
                            let j = self.lemma_key_index(k);
                            if largest > 0 {
                                let (a, b) = choose|a: int, b: int|
                                    0 <= a < b < i && self.clans@[a].members@.len() == largest
                                        && self.clans@[b].members@.len() == largest;
                                let o = if a == j { b } else { a };
                                self.lemma_entry(o);
                                assert(self@[self.ids()[o]].len() < self@[k].len());
                            }
                        }
                    }
                }
                None
            },
        }
    }

    /// Whether `crab_name` belongs to any clan.
    pub fn has_member(&self, crab_name: &str) -> (r: bool)
        requires
            self.wf(),
        ensures
            r == self.has_member_spec(crab_name@),
    {
        let key = crab_name.to_owned();
        let mut i: usize = 0;
        while i < self.clans.len()
            invariant
                self.wf(),
                i <= self.clans@.len(),
                key@ == crab_name@,
                forall|j: int| 0 <= j < i ==> !(#[trigger] self.members_at(j)).contains(crab_name@),
            decreases self.clans@.len() - i,
        {
            let members = &self.clans[i].members;
            let mut j: usize = 0;
            while j < members.len()
                invariant
                    self.wf(),
                    i < self.clans@.len(),
                    members@ == self.clans@[i as int].members@,
                    j <= members@.len(),
                    key@ == crab_name@,
                    forall|m: int| 0 <= m < j ==> members@[m]@ != crab_name@,
                decreases members@.len() - j,
            {
                if members[j] == key {
                    proof {
                        self.lemma_entry(i as int);
                        assert(self@[self.ids()[i as int]][j as int] == crab_name@);
                        assert(self@[self.ids()[i as int]].contains(crab_name@));
                    }
                    return true;
                }
                j = j + 1;
            }
            proof {
                assert(!self.members_at(i as int).contains(crab_name@)) by {
                    if self.members_at(i as int).contains(crab_name@) {
                        let m = choose|m: int|
                            0 <= m < self.members_at(i as int).len()
                                && self.members_at(i as int)[m] == crab_name@;
                        assert(members@[m]@ == crab_name@);
                    }
                }
            }
            i = i + 1;
        }
        proof {
            assert forall|id: Seq<char>| self@.contains_key(id) implies !(
            #[trigger] self@[id]).contains(crab_name@) by {
                let j = self.lemma_key_index(id);
            }
        }
        false
    }
}

} // verus!
