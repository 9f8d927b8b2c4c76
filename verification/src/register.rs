use vstd::hash_map::StringHashMap;
use vstd::prelude::*;

verus! {

/// One person of the identity register: who they are and when they were born.
pub struct PeopleRegister {
    pub key_uuid: String,
    pub key_bbref: Option<String>,
    pub birth_year: Option<u16>,
}

impl PeopleRegister {
    /// Whether this person goes by `key` in the statistics tables.
    pub open spec fn has_bbref(&self, key: Seq<char>) -> bool {
        self.key_bbref matches Some(own) && own@ == key
    }

    /// The age reached by the end of `season`, kept to eight bits, or `None` where the
    /// birth year is unknown.
    pub open spec fn age_in(&self, season: u16) -> Option<u8> {
        match self.birth_year {
            Some(birth) => Some(((season - birth) % 256) as u8),
            None => None,
        }
    }

    /// The age by the end of `season`: the simple difference of the years, whatever the
    /// birthday.
    pub fn get_age(&self, season: u16) -> (age: Option<u8>)
        requires
            self.birth_year matches Some(birth) ==> birth <= season,
        ensures
            age == self.age_in(season),
    {
        match self.birth_year {
            Some(birth) => Some(((season - birth) % 256) as u8),
            None => None,
        }
    }

    /// The age by the end of `season` where the register can tell it: `None` for a person
    /// whose birth year is unknown or lies after `season`.
    pub fn age_if_born(&self, season: u16) -> (age: Option<u8>)
        ensures
            age == known_age(Some(*self), season),
    {
        match self.birth_year {
            Some(birth) => {
                if birth <= season {
                    self.get_age(season)
                } else {
                    None
                }
            },
            None => None,
        }
    }
}

/// The age that the register gives for an entry that was looked up: unknown where there
/// is no entry, no birth year, or a birth year after `season`.
pub open spec fn known_age(person: Option<PeopleRegister>, season: u16) -> Option<u8> {
    match person {
        Some(p) => match p.birth_year {
            Some(birth) => if birth <= season {
                p.age_in(season)
            } else {
                None
            },
            None => None,
        },
        None => None,
    }
}

/// Where the person who goes by `key` stands in the register: the last of them, where
/// several rows carry the key.
pub open spec fn position_of_bbref(people: Seq<PeopleRegister>, key: Seq<char>) -> Option<int>
    decreases people.len(),
{
    if people.len() == 0 {
        None
    } else if people.last().has_bbref(key) {
        Some(people.len() - 1)
    } else {
        position_of_bbref(people.drop_last(), key)
    }
}

/// The person who goes by `key`, if the register has one.
pub open spec fn person_of_bbref(people: Seq<PeopleRegister>, key: Seq<char>) -> Option<
    PeopleRegister,
> {
    match position_of_bbref(people, key) {
        Some(i) => Some(people[i]),
        None => None,
    }
}

/// A position that was found lies in the register, its row carries the key, and no later
/// row does.
pub proof fn lemma_position_of_bbref(people: Seq<PeopleRegister>, key: Seq<char>)
    ensures
        match position_of_bbref(people, key) {
            Some(i) => {
                &&& 0 <= i < people.len()
                &&& people[i].has_bbref(key)
                &&& forall|j: int| i < j < people.len() ==> !people[j].has_bbref(key)
            },
            None => forall|j: int| 0 <= j < people.len() ==> !people[j].has_bbref(key),
        },
    decreases people.len(),
{
    if people.len() > 0 && !people.last().has_bbref(key) {
        let rest = people.drop_last();
        lemma_position_of_bbref(rest, key);
        assert forall|j: int| 0 <= j < rest.len() implies rest[j] == people[j] by {}
        match position_of_bbref(rest, key) {
            Some(i) => {
                assert forall|j: int| i < j < people.len() implies !people[j].has_bbref(key) by {
                    if j < rest.len() {
                        assert(rest[j] == people[j]);
                    }
                }
            },
            None => {
                assert forall|j: int| 0 <= j < people.len() implies !people[j].has_bbref(key) by {
                    if j < rest.len() {
                        assert(rest[j] == people[j]);
                    }
                }
            },
        }
    }
}

/// The identity register, with an index from the key of the statistics tables to the row.
pub struct People {
    people: Vec<PeopleRegister>,
    bbref_idx: StringHashMap<usize>,
}

impl View for People {
    type V = Seq<PeopleRegister>;

    closed spec fn view(&self) -> Seq<PeopleRegister> {
        self.people@
    }
}

impl People {
    /// The index holds, for every key, the position that the rows give it.
    #[verifier::type_invariant]
    closed spec fn indexed(&self) -> bool {
        forall|key: Seq<char>| #[trigger]
            position_of_bbref(self.people@, key) == (if self.bbref_idx@.contains_key(key) {
                Some(self.bbref_idx@[key] as int)
            } else {
                None
            })
    }

    /// Builds the register from its rows, in their order.
    pub fn from_register(rows: Vec<PeopleRegister>) -> (register: Self)
        ensures
            register@ == rows@,
    {
        let mut people: Vec<PeopleRegister> = Vec::new();
        let mut bbref_idx: StringHashMap<usize> = StringHashMap::new();
        for person in it: rows
            invariant
                people@ == rows@.take(it.index() as int),
                forall|key: Seq<char>| #[trigger]
                    position_of_bbref(people@, key) == (if bbref_idx@.contains_key(key) {
                        Some(bbref_idx@[key] as int)
                    } else {
                        None
                    }),
        {
            let idx: usize = people.len();
            let ghost before = people@;
            let ghost index_before = bbref_idx@;
            if let Some(bbrefid) = &person.key_bbref {
                bbref_idx.insert(bbrefid.clone(), idx);
            }
            people.push(person);
            proof {
                assert(people@.drop_last() == before);
                assert(rows@.take(it.index() + 1) == before.push(person));
                assert forall|key: Seq<char>| #[trigger]
                    position_of_bbref(people@, key) == (if bbref_idx@.contains_key(key) {
                        Some(bbref_idx@[key] as int)
                    } else {
                        None
                    }) by {
                    assert(position_of_bbref(before, key) == (if index_before.contains_key(key) {
                        Some(index_before[key] as int)
                    } else {
                        None
                    }));
                }
            }
        }
        proof {
            assert(rows@.take(rows@.len() as int) == rows@);
        }
        People { people, bbref_idx }
    }

    /// The person who goes by `key_bbref` in the statistics tables.
    pub fn find_by_bbref(&self, key_bbref: &str) -> (person: Option<&PeopleRegister>)
        ensures
            person == match person_of_bbref(self@, key_bbref@) {
                Some(p) => Some(&p),
                None => None,
            },
    {
        proof {
            use_type_invariant(self);
            lemma_position_of_bbref(self.people@, key_bbref@);
            assert(position_of_bbref(self.people@, key_bbref@) == (if self.bbref_idx@.contains_key(
                key_bbref@,
            ) {
                Some(self.bbref_idx@[key_bbref@] as int)
            } else {
                None
            }));
        }
        match self.bbref_idx.get(key_bbref) {
            Some(idx) => Some(&self.people[*idx]),
            None => None,
        }
    }

    /// The age of the player `key_bbref` by the end of `season`, where the register can
    /// tell it.
    pub fn age_of(&self, key_bbref: &str, season: u16) -> (age: Option<u8>)
        ensures
            age == known_age(person_of_bbref(self@, key_bbref@), season),
    {
        match self.find_by_bbref(key_bbref) {
            Some(person) => person.age_if_born(season),
            None => None,
        }
    }
}

} // verus!
