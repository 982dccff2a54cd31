//! Environment variables: a finite map from names to values.

use vstd::prelude::*;

use crate::text;

verus! {

/// Environment variables. Each name occurs once.
#[derive(PartialEq, Eq)]
pub struct Environment {
    entries: Vec<(String, String)>,
}

/// The map that a list of entries stands for; a later entry for the same name
/// wins.
pub open spec fn entry_map(entries: Seq<(String, String)>) -> Map<Seq<char>, Seq<char>>
    decreases entries.len(),
{
    if entries.len() == 0 {
        Map::empty()
    } else {
        entry_map(entries.drop_last()).insert(entries.last().0@, entries.last().1@)
    }
}

/// Whether no name occurs twice.
pub open spec fn names_distinct(entries: Seq<(String, String)>) -> bool {
    forall|i: int, j: int| 0 <= i < j < entries.len() ==> entries[i].0@ != entries[j].0@
}

/// With distinct names the map holds exactly the entries.
pub proof fn lemma_entry_map(entries: Seq<(String, String)>)
    requires
        names_distinct(entries),
    ensures
        forall|i: int|
            0 <= i < entries.len() ==> entry_map(entries).contains_key(
                (#[trigger] entries[i]).0@,
            ) && entry_map(entries)[entries[i].0@] == entries[i].1@,
        forall|k: Seq<char>| #[trigger]
            entry_map(entries).contains_key(k) ==> exists|i: int|
                0 <= i < entries.len() && (#[trigger] entries[i]).0@ == k,
    decreases entries.len(),
{
    if entries.len() > 0 {
        let short = entries.drop_last();
        lemma_entry_map(short);
        assert forall|i: int| 0 <= i < entries.len() implies entry_map(entries).contains_key(
            (#[trigger] entries[i]).0@,
        ) && entry_map(entries)[entries[i].0@] == entries[i].1@ by {
            if i < entries.len() - 1 {
                assert(short[i] == entries[i]);
                assert(entries[i].0@ != entries[entries.len() - 1].0@);
            }
        }
        assert forall|k: Seq<char>| #[trigger] entry_map(entries).contains_key(k) implies exists|
            i: int,
        | 0 <= i < entries.len() && (#[trigger] entries[i]).0@ == k by {
            if k == entries.last().0@ {
                assert(entries[entries.len() - 1].0@ == k);
            } else {
                assert(entry_map(short).contains_key(k));
                let i = choose|i: int| 0 <= i < short.len() && (#[trigger] short[i]).0@ == k;
                assert(entries[i].0@ == k);
            }
        }
    }
}

impl View for Environment {
    type V = Map<Seq<char>, Seq<char>>;

    closed spec fn view(&self) -> Map<Seq<char>, Seq<char>> {
        entry_map(self.entries@)
    }
}

impl Environment {
    #[verifier::type_invariant]
    spec fn inv(self) -> bool {
        names_distinct(self.entries@)
    }

    /// The entries, each name once.
    pub closed spec fn listing(self) -> Seq<(String, String)> {
        self.entries@
    }

    /// No variables.
    pub fn new() -> (e: Environment)
        ensures
            e@ == Map::<Seq<char>, Seq<char>>::empty(),
    {
        Environment { entries: Vec::new() }
    }

    /// The entries, each name once, in no promised order.
    pub fn entries(&self) -> (r: &Vec<(String, String)>)
        ensures
            r@ == self.listing(),
            names_distinct(r@),
            entry_map(r@) == self@,
    {
        proof {
            use_type_invariant(self);
        }
        &self.entries
    }

    /// The number of variables.
    pub fn len(&self) -> (n: usize)
        ensures
            n == self.listing().len(),
    {
        self.entries.len()
    }

    fn position(&self, name: &str) -> (r: Option<usize>)
        ensures
            match r {
                Some(i) => i < self.entries@.len() && self.entries@[i as int].0@ == name@
                    && self@.contains_key(name@) && self@[name@] == self.entries@[i as int].1@,
                None => !self@.contains_key(name@) && forall|i: int|
                    0 <= i < self.entries@.len() ==> self.entries@[i].0@ != name@,
            },
    {
        proof {
            use_type_invariant(self);
            lemma_entry_map(self.entries@);
        }
        for i in 0..self.entries.len()
            invariant
                forall|k: int| 0 <= k < i ==> self.entries@[k].0@ != name@,
                forall|k: int|
                    0 <= k < self.entries@.len() ==> entry_map(self.entries@).contains_key(
                        (#[trigger] self.entries@[k]).0@,
                    ) && entry_map(self.entries@)[self.entries@[k].0@] == self.entries@[k].1@,
        {
            if text::same_str(self.entries[i].0.as_str(), name) {
                return Some(i);
            }
        }
        None
    }

    /// The value of a variable.
    pub fn get(&self, name: &str) -> (r: Option<&String>)
        ensures
            match r {
                Some(v) => self@.contains_key(name@) && self@[name@] == v@,
                None => !self@.contains_key(name@),
            },
    {
        match self.position(name) {
            Some(i) => Some(&self.entries[i].1),
            None => None,
        }
    }

    /// Whether every variable has the same value in the other environment.
    fn contained_in(&self, other: &Environment) -> (r: bool)
        ensures
            r == (forall|name: Seq<char>| #[trigger]
                self@.contains_key(name) ==> other@.contains_key(name) && other@[name] == self@[name]),
    {
        proof {
            use_type_invariant(self);
            lemma_entry_map(self.entries@);
        }
        for i in 0..self.entries.len()
            invariant
                forall|k: int|
                    0 <= k < self.entries@.len() ==> self@.contains_key(
                        (#[trigger] self.entries@[k]).0@,
                    ) && self@[self.entries@[k].0@] == self.entries@[k].1@,
                forall|k: int|
                    0 <= k < i ==> other@.contains_key((#[trigger] self.entries@[k]).0@)
                        && other@[self.entries@[k].0@] == self.entries@[k].1@,
        {
            let same: bool = match other.get(self.entries[i].0.as_str()) {
                Some(value) => text::same_str(value.as_str(), self.entries[i].1.as_str()),
                None => false,
            };
            if !same {
                assert(self@.contains_key(self.entries@[i as int].0@));
                return false;
            }
        }
        assert forall|name: Seq<char>| #[trigger] self@.contains_key(name) implies other@.contains_key(
            name,
        ) && other@[name] == self@[name] by {
            let k = choose|k: int|
                0 <= k < self.entries@.len() && (#[trigger] self.entries@[k]).0@ == name;
            assert(other@.contains_key(self.entries@[k].0@));
        }
        true
    }

    /// Whether two environments hold the same variables with the same values.
    pub fn same(&self, other: &Environment) -> (r: bool)
        ensures
            r == (self@ == other@),
    {
        let r: bool = self.contained_in(other) && other.contained_in(self);
        proof {
            if r {
                assert(self@ =~= other@);
            }
        }
        r
    }

    /// Sets a variable.
    pub fn insert(&mut self, name: String, value: String)
        ensures
            final(self)@ == old(self)@.insert(name@, value@),
    {
        let found: Option<usize> = self.position(name.as_str());
        let ghost before = self.entries@;
        let ghost name_text = name@;
        let ghost value_text = value@;
        proof {
            use_type_invariant(&*self);
            lemma_entry_map(before);
        }
        let mut entries: Vec<(String, String)> = Vec::new();
        std::mem::swap(&mut entries, &mut self.entries);
        match found {
            Some(i) => {
                entries.set(i, (name, value));
            },
            None => {
                entries.push((name, value));
            },
        }
        proof {
            assert(names_distinct(entries@)) by {
                assert forall|a: int, b: int| 0 <= a < b < entries@.len() implies entries@[a].0@
                    != entries@[b].0@ by {
                    match found {
                        Some(i) => {
                            assert(before[a].0@ != before[b].0@);
                        },
                        None => {},
                    }
                }
            }
            lemma_entry_map(entries@);
            let after = entry_map(entries@);
            let wanted = entry_map(before).insert(name_text, value_text);
            assert forall|k: Seq<char>| after.contains_key(k) <==> wanted.contains_key(k) by {
                if after.contains_key(k) {
                    let i = choose|i: int| 0 <= i < entries@.len() && (#[trigger] entries@[i]).0@ == k;
                    if i < before.len() && entries@[i] == before[i] {
                        assert(entry_map(before).contains_key(before[i].0@));
                    }
                }
                if wanted.contains_key(k) && k != name_text {
                    let i = choose|i: int| 0 <= i < before.len() && (#[trigger] before[i]).0@ == k;
                    assert(entries@[i] == before[i]);
                }
                if k == name_text {
                    match found {
                        Some(i) => {
                            assert(entries@[i as int].0@ == k);
                        },
                        None => {
                            assert(entries@[before.len() as int].0@ == k);
                        },
                    }
                }
            }
            assert forall|k: Seq<char>| after.contains_key(k) implies after[k] == wanted[k] by {
                let i = choose|i: int| 0 <= i < entries@.len() && (#[trigger] entries@[i]).0@ == k;
                assert(after[entries@[i].0@] == entries@[i].1@);
                if k != name_text {
                    assert(entries@[i] == before[i]);
                    assert(entry_map(before)[before[i].0@] == before[i].1@);
                } else {
                    match found {
                        Some(j) => {
                            assert(entries@[j as int].0@ == k);
                            assert(after[entries@[j as int].0@] == value_text);
                        },
                        None => {
                            assert(entries@[before.len() as int].0@ == k);
                            assert(after[entries@[before.len() as int].0@] == value_text);
                        },
                    }
                }
            }
            assert(after =~= wanted);
        }
        self.entries = entries;
    }
}

impl Clone for Environment {
    fn clone(&self) -> (e: Environment)
        ensures
            e@ == self@,
            e.listing() == self.listing(),
    {
        proof {
            use_type_invariant(self);
        }
        let mut entries: Vec<(String, String)> = Vec::new();
        for i in 0..self.entries.len()
            invariant
                entries@ == self.entries@.take(i as int),
        {
            let name: String = self.entries[i].0.clone();
            let value: String = self.entries[i].1.clone();
            entries.push((name, value));
            assert(entries@ =~= self.entries@.take(i + 1));
        }
        assert(entries@ =~= self.entries@);
        Environment { entries }
    }
}

/// A variable that was set has that value, and no other variable changed.
pub proof fn law_set_variables_are_read_back(
    e: &mut Environment,
    name: String,
    value: String,
    other: &str,
    done: (),
    before: Option<&String>,
    after: Option<&String>,
)
    requires
        call_ensures(Environment::get, (&*old(e), other), before),
        call_ensures(Environment::insert, (e, name, value), done),
        call_ensures(Environment::get, (&*final(e), other), after),
    ensures
        other@ == name@ ==> (after matches Some(v) && v@ == value@),
        other@ != name@ ==> (before is Some <==> after is Some),
        other@ != name@ && before is Some ==> after->Some_0@ == before->Some_0@,
{
}

/// A new environment sets nothing; two are the same exactly where no variable tells them
/// apart.
pub proof fn law_environments_are_told_apart_by_a_variable(
    new: Environment,
    a: Environment,
    b: Environment,
    name: &str,
    none: Option<&String>,
    left: Option<&String>,
    right: Option<&String>,
    same: bool,
)
    requires
        call_ensures(Environment::new, (), new),
        call_ensures(Environment::get, (&new, name), none),
        call_ensures(Environment::get, (&a, name), left),
        call_ensures(Environment::get, (&b, name), right),
        call_ensures(Environment::same, (&a, &b), same),
    ensures
        none is None,
        same ==> (left is Some <==> right is Some),
        same && left is Some ==> left->Some_0@ == right->Some_0@,
        !same ==> exists|n: Seq<char>|
            (#[trigger] a@.contains_key(n) != b@.contains_key(n)) || (a@.contains_key(n) && a@[n]
                != b@[n]),
{
    if forall|n: Seq<char>|
        (#[trigger] a@.contains_key(n)) == b@.contains_key(n) && (a@.contains_key(n) ==> a@[n]
            == b@[n]) {
        assert(a@ =~= b@);
    }
}

} // verus!
