//! Containers of variables.
use vstd::prelude::*;

use crate::env::diff;
use crate::env::diff::Entry;
use crate::env::diff::EnvDiff;
use crate::env::parse::EnvError;
use crate::env::parse::EnvironmentParse;
use crate::env::parse::EnvironmentVariable;
use crate::table::Table;
use crate::text;

verus! {

// ---------------------------------------------------------------------------
// Looking variables up
// ---------------------------------------------------------------------------
/// Something that raw values can be looked up in.
pub trait EnvRaw {
    /// Whether the container is in order.
    spec fn well_formed(&self) -> bool;

    /// The raw value of a key.
    spec fn lookup(&self, key: Seq<char>) -> Option<Seq<u8>>;

    /// The raw value of a key.
    fn raw_get(&self, key: &str) -> (r: Option<Vec<u8>>)
        requires
            self.well_formed(),
        ensures
            match r {
                Some(value) => self.lookup(key@) == Some(value@),
                None => self.lookup(key@) is None,
            },
    ;
}

/// What a variable is, given the raw value of its key.
pub open spec fn variable<T: EnvironmentVariable>(raw: Option<Seq<u8>>) -> Result<T::V, EnvError> {
    match raw {
        None => Err(EnvError::Missing),
        Some(raw) => match T::deserialized(raw) {
            Ok(value) => Ok(value),
            Err(e) => Err(EnvError::Parse(e)),
        },
    }
}

/// What a variable is in a container.
pub open spec fn variable_in<E: EnvRaw, T: EnvironmentVariable>(env: &E) -> Result<T::V, EnvError> {
    variable::<T>(env.lookup(T::key_text()))
}

/// Something that typed variables can be looked up in.
pub trait Env: EnvRaw + Sized {
    /// The variable of type `T`.
    fn get<T: EnvironmentVariable>(&self) -> (r: Result<T, EnvError>)
        requires
            self.well_formed(),
        ensures
            match r {
                Ok(value) => variable_in::<Self, T>(self) == Ok::<T::V, EnvError>(value@),
                Err(e) => variable_in::<Self, T>(self) == Err::<T::V, EnvError>(e),
            },
    {
        match self.raw_get(T::key()) {
            None => Err(EnvError::Missing),
            Some(raw) => match T::env_deserialize(raw) {
                Ok(value) => Ok(value),
                Err(e) => Err(EnvError::Parse(e)),
            },
        }
    }
}

impl<E: EnvRaw> Env for E {

}

// ---------------------------------------------------------------------------
// Lists of assignments
// ---------------------------------------------------------------------------
/// Whether a list of changes sets each variable of `env` once, and does
/// nothing else.
pub open spec fn lists(
    entries: Seq<(Seq<char>, Option<Seq<u8>>)>,
    env: Map<Seq<char>, Seq<u8>>,
) -> bool {
    &&& forall|i: int|
        0 <= i < entries.len() ==> env.contains_key((#[trigger] entries[i]).0) && entries[i].1
            == Some(env[entries[i].0])
    &&& forall|key: Seq<char>| #[trigger]
        env.contains_key(key) ==> exists|i: int|
            0 <= i < entries.len() && (#[trigger] entries[i]).0 == key
    &&& forall|i: int, j: int|
        #![trigger entries[i], entries[j]]
        0 <= i < j < entries.len() ==> entries[i].0 != entries[j].0
}

/// Making the changes of such a list overrides what was there before with the
/// variables it lists, and leaves the rest alone.
pub proof fn law_lists_override(
    base: Map<Seq<char>, Seq<u8>>,
    entries: Seq<(Seq<char>, Option<Seq<u8>>)>,
    env: Map<Seq<char>, Seq<u8>>,
)
    requires
        lists(entries, env),
    ensures
        diff::applied_all(base, entries) == base.union_prefer_right(env),
{
    let result = diff::applied_all(base, entries);
    assert forall|key: Seq<char>|
        #![trigger result.dom().contains(key)]
        #![trigger result[key]]
        result.dom().contains(key) == (base.contains_key(key) || env.contains_key(key)) && (
        env.contains_key(key) ==> result[key] == env[key]) && (base.contains_key(key)
            && !env.contains_key(key) ==> result[key] == base[key]) by {
        if env.contains_key(key) {
            let at = choose|i: int| 0 <= i < entries.len() && (#[trigger] entries[i]).0 == key;
            assert forall|i: int| at < i < entries.len() implies (#[trigger] entries[i]).0
                != entries[at].0 by {}
            diff::law_last_change_decides(base, entries, at);
        } else {
            assert forall|i: int| 0 <= i < entries.len() implies (#[trigger] entries[i]).0
                != key by {}
            diff::law_applied_frame(base, entries, key);
        }
    }
    assert(result =~= base.union_prefer_right(env));
}

// ---------------------------------------------------------------------------
// A container of its own
// ---------------------------------------------------------------------------
/// A key and its raw value.
pub type EnvEntry = (String, Vec<u8>);

/// An environment that is held in memory.
pub struct EnvBuf {
    variables: Table<Vec<u8>>,
}

impl View for EnvBuf {
    type V = Map<Seq<char>, Seq<u8>>;

    closed spec fn view(&self) -> Map<Seq<char>, Seq<u8>> {
        self.variables@
    }
}

impl EnvRaw for EnvBuf {
    closed spec fn well_formed(&self) -> bool {
        self.variables.well_formed()
    }

    open spec fn lookup(&self, key: Seq<char>) -> Option<Seq<u8>> {
        if self@.contains_key(key) {
            Some(self@[key])
        } else {
            None
        }
    }

    fn raw_get(&self, key: &str) -> (r: Option<Vec<u8>>) {
        match self.variables.get(key) {
            Some(value) => Some(text::copy(value)),
            None => None,
        }
    }
}

impl EnvBuf {
    /// An empty environment.
    pub fn new() -> (r: Self)
        ensures
            r.well_formed(),
            r@ == Map::<Seq<char>, Seq<u8>>::empty(),
    {
        EnvBuf { variables: Table::new() }
    }

    /// Sets a variable, in place of what it was.
    pub fn insert(&mut self, key: String, value: Vec<u8>)
        requires
            old(self).well_formed(),
        ensures
            final(self).well_formed(),
            final(self)@ == old(self)@.insert(key@, value@),
    {
        self.variables.insert(key, value);
    }

    /// Unsets a variable.
    pub fn remove(&mut self, key: &str)
        requires
            old(self).well_formed(),
        ensures
            final(self).well_formed(),
            final(self)@ == old(self)@.remove(key@),
    {
        self.variables.remove(key);
    }

    /// Makes a list of changes, from the first to the last.
    pub fn apply(&mut self, entries: &Vec<Entry>)
        requires
            old(self).well_formed(),
        ensures
            final(self).well_formed(),
            final(self)@ == diff::applied_all(old(self)@, diff::entry_views(entries@)),
    {
        let ghost all = diff::entry_views(entries@);
        let mut i: usize = 0;
        assert(all.take(0) =~= Seq::<(Seq<char>, Option<Seq<u8>>)>::empty());
        while i < entries.len()
            invariant
                i <= entries@.len(),
                all == diff::entry_views(entries@),
                self.well_formed(),
                self@ == diff::applied_all(old(self)@, all.take(i as int)),
            decreases entries@.len() - i,
        {
            assert(all.take(i + 1).drop_last() =~= all.take(i as int));
            assert(all.take(i + 1).last() == entries@[i as int]@);
            match &entries[i] {
                Entry::Assign { key, value } => {
                    self.insert(key.clone(), text::copy(value));
                },
                Entry::Unset { key } => {
                    self.remove(key.as_str());
                },
            }
            i = i + 1;
        }
        assert(all.take(i as int) =~= all);
    }

    /// The environment that a list of changes makes out of nothing.
    pub fn from_entries(entries: &Vec<Entry>) -> (r: Self)
        ensures
            r.well_formed(),
            r@ == diff::applied_all(
                Map::<Seq<char>, Seq<u8>>::empty(),
                diff::entry_views(entries@),
            ),
    {
        let mut r = EnvBuf::new();
        r.apply(entries);
        r
    }

    /// The environment of the given variables. Where a key occurs more than
    /// once, the last one counts.
    pub fn from_values(values: Vec<EnvEntry>) -> (r: Self)
        ensures
            r.well_formed(),
            r@ == diff::applied_all(Map::<Seq<char>, Seq<u8>>::empty(), assignments(values@)),
    {
        let mut entries: Vec<Entry> = Vec::new();
        let mut i: usize = 0;
        while i < values.len()
            invariant
                i <= values@.len(),
                diff::entry_views(entries@) == assignments(values@).take(i as int),
            decreases values@.len() - i,
        {
            let ghost before = entries@;
            entries.push(
                Entry::Assign { key: values[i].0.clone(), value: text::copy(&values[i].1) },
            );
            i = i + 1;
            assert(diff::entry_views(entries@) =~= diff::entry_views(before).push(
                assignments(values@)[i - 1],
            ));
            assert(assignments(values@).take(i as int) =~= assignments(values@).take(i - 1).push(
                assignments(values@)[i - 1],
            ));
        }
        assert(assignments(values@).take(i as int) =~= assignments(values@));
        EnvBuf::from_entries(&entries)
    }

    /// Makes the changes that something comes to.
    pub fn raw_merge<T: EnvDiff>(&mut self, diff: T)
        requires
            old(self).well_formed(),
            diff.valid(),
        ensures
            final(self).well_formed(),
            exists|entries: Seq<(Seq<char>, Option<Seq<u8>>)>| #[trigger]
                diff.yields(entries) && final(self)@ == diff::applied_all(old(self)@, entries),
    {
        let entries = diff.to_env_diff();
        self.apply(&entries);
    }

    /// Sets a typed variable.
    pub fn set<T: EnvironmentVariable>(&mut self, value: T)
        requires
            old(self).well_formed(),
        ensures
            final(self).well_formed(),
            final(self)@ == old(self)@.insert(T::key_text(), T::serialized(value@)),
    {
        self.insert(T::key().to_owned(), value.env_serialize());
    }

    /// The variables, as a list of changes that sets each of them.
    fn listed(&self) -> (r: Vec<Entry>)
        requires
            self.well_formed(),
        ensures
            lists(diff::entry_views(r@), self@),
    {
        let mut r: Vec<Entry> = Vec::new();
        let ghost keys = self.variables.keys();
        let mut i: usize = 0;
        while i < self.variables.len()
            invariant
                i <= keys.len(),
                keys == self.variables.keys(),
                self.well_formed(),
                r@.len() == i,
                forall|j: int|
                    0 <= j < i ==> (#[trigger] r@[j])@ == (keys[j], Some(self@[keys[j]])),
            decreases keys.len() - i,
        {
            let (key, value) = self.variables.at(i);
            r.push(Entry::Assign { key: key.clone(), value: text::copy(value) });
            i = i + 1;
        }
        proof {
            let e = diff::entry_views(r@);
            self.variables.lemma_keys();
            assert forall|k: int| 0 <= k < e.len() implies (#[trigger] e[k]) == (
                keys[k],
                Some(self@[keys[k]]),
            ) by {
                assert(e[k] == r@[k]@);
            }
            assert forall|key: Seq<char>| #[trigger] self@.contains_key(key) implies exists|k: int|
                0 <= k < e.len() && (#[trigger] e[k]).0 == key by {
                let p = choose|p: int| 0 <= p < keys.len() && #[trigger] keys[p] == key;
                assert(e[p].0 == key);
            }
        }
        r
    }

    /// A copy of the environment.
    pub fn duplicate(&self) -> (r: Self)
        requires
            self.well_formed(),
        ensures
            r.well_formed(),
            r@ == self@,
    {
        let entries = self.listed();
        proof {
            law_lists_override(Map::empty(), diff::entry_views(entries@), self@);
        }
        let r = EnvBuf::from_entries(&entries);
        assert(r@ =~= self@);
        r
    }
}

/// Each of the variables is set.
impl EnvDiff for EnvBuf {
    open spec fn valid(&self) -> bool {
        self.well_formed()
    }

    open spec fn yields(&self, entries: Seq<(Seq<char>, Option<Seq<u8>>)>) -> bool {
        lists(entries, self@)
    }

    fn to_env_diff(self) -> (r: Vec<Entry>) {
        self.listed()
    }
}

/// The changes that set the given variables.
pub open spec fn assignments(values: Seq<EnvEntry>) -> Seq<(Seq<char>, Option<Seq<u8>>)> {
    Seq::new(values.len(), |i: int| (values[i].0@, Some(values[i].1@)))
}

/// What was set is what is looked up.
pub proof fn law_set_get<T: EnvironmentVariable>(
    before: Map<Seq<char>, Seq<u8>>,
    value: T::V,
    after: EnvBuf,
)
    requires
        after@ == before.insert(T::key_text(), T::serialized(value)),
        T::deserialized(T::serialized(value)) == Ok::<T::V, crate::env::parse::ParseFailure>(value),
    ensures
        variable_in::<EnvBuf, T>(&after) == Ok::<T::V, EnvError>(value),
{
}

/// A variable that is not there is missing; one that is there is what its raw value
/// stands for, or the reason why it stands for nothing.
pub proof fn law_variable<E: EnvRaw, T: EnvironmentVariable>(env: &E)
    ensures
        env.lookup(T::key_text()) is None <==> variable_in::<E, T>(env) == Err::<T::V, EnvError>(
            EnvError::Missing,
        ),
        env.lookup(T::key_text()) matches Some(raw) ==> match T::deserialized(raw) {
            Ok(value) => variable_in::<E, T>(env) == Ok::<T::V, EnvError>(value),
            Err(e) => variable_in::<E, T>(env) == Err::<T::V, EnvError>(EnvError::Parse(e)),
        },
{
}

/// Every one of the given variables is in the environment that is made of them,
/// unless a later one has the same key.
pub proof fn law_from_values(values: Seq<EnvEntry>, at: int)
    requires
        0 <= at < values.len(),
        forall|i: int| at < i < values.len() ==> (#[trigger] values[i]).0@ != values[at].0@,
    ensures
        ({
            let env = diff::applied_all(Map::<Seq<char>, Seq<u8>>::empty(), assignments(values));
            env.contains_key(values[at].0@) && env[values[at].0@] == values[at].1@
        }),
{
    let all = assignments(values);
    assert forall|i: int| at < i < all.len() implies (#[trigger] all[i]).0 != all[at].0 by {
        assert(values[i].0@ != values[at].0@);
    }
    diff::law_last_change_decides(Map::empty(), all, at);
}

/// What is looked up in an environment that is held in memory is what it holds under
/// that key.
pub proof fn law_lookup(env: EnvBuf, key: Seq<char>)
    ensures
        env.lookup(key) is Some <==> env@.contains_key(key),
        env.lookup(key) matches Some(raw) ==> raw == env@[key],
{
}

} // verus!
