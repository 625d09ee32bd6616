//! The environment of the process.
use vstd::prelude::*;

use crate::env::container;
use crate::env::container::EnvBuf;
use crate::env::container::EnvEntry;
use crate::env::container::EnvRaw;
use crate::env::diff;
use crate::env::diff::Entry;
use crate::env::diff::EnvDiff;
use crate::env::parse::EnvironmentVariable;
use crate::text;

verus! {

/// A variable as the system hands it out: key and value are raw bytes.
pub struct OsVariable {
    pub key: Vec<u8>,
    pub value: Vec<u8>,
}

/// A view of the system environment.
///
/// Setting a variable is scoped to the view: another view will not see it, and
/// the environment of the process does not change.
pub struct EnvOs {
    system: Vec<OsVariable>,
    append_buf: EnvBuf,
}

/// The keys and values of a list of system variables.
pub open spec fn os_views(system: Seq<OsVariable>) -> Seq<(Seq<u8>, Seq<u8>)> {
    Seq::new(system.len(), |i: int| (system[i].key@, system[i].value@))
}

/// The first value that the system has for a key.
pub open spec fn os_lookup(system: Seq<(Seq<u8>, Seq<u8>)>, key: Seq<u8>) -> Option<Seq<u8>>
    decreases system.len(),
{
    if system.len() == 0 {
        None
    } else if system[0].0 == key {
        Some(system[0].1)
    } else {
        os_lookup(system.drop_first(), key)
    }
}

/// The changes that set what the system has. Variables whose key is not text
/// are left out.
pub open spec fn os_entries(system: Seq<(Seq<u8>, Seq<u8>)>) -> Seq<(Seq<char>, Option<Seq<u8>>)>
    decreases system.len(),
{
    if system.len() == 0 {
        Seq::empty()
    } else {
        let (key, value) = system.last();
        match text::decoded(key) {
            Some(key) => os_entries(system.drop_last()).push((key, Some(value))),
            None => os_entries(system.drop_last()),
        }
    }
}

impl EnvRaw for EnvOs {
    open spec fn well_formed(&self) -> bool {
        self.appended().well_formed()
    }

    open spec fn lookup(&self, key: Seq<char>) -> Option<Seq<u8>> {
        match self.appended().lookup(key) {
            Some(value) => Some(value),
            None => os_lookup(os_views(self.inherited()), text::utf8(key)),
        }
    }

    fn raw_get(&self, key: &str) -> (r: Option<Vec<u8>>) {
        match self.append_buf.raw_get(key) {
            Some(value) => Some(value),
            None => {
                let wanted = text::bytes_of(key);
                let ghost all = os_views(self.system@);
                let mut i: usize = 0;
                assert(all.skip(0) =~= all);
                while i < self.system.len()
                    invariant
                        i <= self.system@.len(),
                        all == os_views(self.system@),
                        wanted@ == text::utf8(key@),
                        os_lookup(all.skip(i as int), wanted@) == os_lookup(all, wanted@),
                        self.append_buf.lookup(key@) is None,
                    decreases self.system@.len() - i,
                {
                    let ghost rest = all.skip(i as int);
                    assert(rest[0] == (self.system@[i as int].key@, self.system@[i as int].value@));
                    assert(rest.drop_first() =~= all.skip(i + 1));
                    if text::same(&self.system[i].key, &wanted) {
                        return Some(text::copy(&self.system[i].value));
                    }
                    i = i + 1;
                }
                None
            },
        }
    }
}

impl EnvOs {
    /// The variables that the process was given.
    pub closed spec fn inherited(&self) -> Seq<OsVariable> {
        self.system@
    }

    /// The variables that were set in this view.
    pub closed spec fn appended(&self) -> EnvBuf {
        self.append_buf
    }

    /// A new view of the environment that the process was given.
    pub fn new_view(system: Vec<OsVariable>) -> (r: Self)
        ensures
            r.well_formed(),
            r.inherited() == system@,
            r.appended()@ == Map::<Seq<char>, Seq<u8>>::empty(),
    {
        EnvOs { system, append_buf: EnvBuf::new() }
    }

    /// Makes the changes that something comes to, in this view.
    pub fn raw_merge<T: EnvDiff>(&mut self, diff: T)
        requires
            old(self).well_formed(),
            diff.valid(),
        ensures
            final(self).well_formed(),
            final(self).inherited() == old(self).inherited(),
            exists|entries: Seq<(Seq<char>, Option<Seq<u8>>)>| #[trigger]
                diff.yields(entries) && final(self).appended()@ == diff::applied_all(
                    old(self).appended()@,
                    entries,
                ),
    {
        self.append_buf.raw_merge(diff);
    }

    /// Sets a typed variable in this view.
    pub fn set<T: EnvironmentVariable>(&mut self, value: T)
        requires
            old(self).well_formed(),
        ensures
            final(self).well_formed(),
            final(self).inherited() == old(self).inherited(),
            final(self).appended()@ == old(self).appended()@.insert(
                T::key_text(),
                T::serialized(value@),
            ),
    {
        self.append_buf.set(value);
    }

    /// A copy of everything in this view.
    pub fn into_buf(self) -> (r: EnvBuf)
        requires
            self.well_formed(),
        ensures
            r.well_formed(),
            r@ == collected(self.inherited(), self.appended()@),
    {
        let ghost given = os_entries(os_views(self.inherited()));
        let ghost set = self.appended()@;
        let entries = self.to_env_diff();
        proof {
            let all = diff::entry_views(entries@);
            let tail = all.skip(given.len() as int);
            assert(all =~= given + tail);
            diff::law_applied_concat(Map::empty(), given, tail);
            container::law_lists_override(
                diff::applied_all(Map::empty(), given),
                tail,
                set,
            );
        }
        EnvBuf::from_entries(&entries)
    }
}

/// First what the process was given is set, then what was set in the view.
impl EnvDiff for EnvOs {
    open spec fn valid(&self) -> bool {
        self.well_formed()
    }

    open spec fn yields(&self, entries: Seq<(Seq<char>, Option<Seq<u8>>)>) -> bool {
        let given = os_entries(os_views(self.inherited()));
        &&& entries.len() >= given.len()
        &&& entries.take(given.len() as int) == given
        &&& container::lists(entries.skip(given.len() as int), self.appended()@)
    }

    fn to_env_diff(self) -> (r: Vec<Entry>) {
        let mut r: Vec<Entry> = Vec::new();
        let ghost all = os_views(self.system@);
        let mut i: usize = 0;
        assert(all.take(0) =~= Seq::<(Seq<u8>, Seq<u8>)>::empty());
        assert(diff::entry_views(r@) =~= os_entries(all.take(0)));
        while i < self.system.len()
            invariant
                i <= self.system@.len(),
                all == os_views(self.system@),
                diff::entry_views(r@) == os_entries(all.take(i as int)),
            decreases self.system@.len() - i,
        {
            let ghost before = r@;
            assert(all.take(i + 1).drop_last() =~= all.take(i as int));
            assert(all.take(i + 1).last() == (
                self.system@[i as int].key@,
                self.system@[i as int].value@,
            ));
            match text::from_utf8(text::copy(&self.system[i].key)) {
                Some(key) => {
                    let ghost k = key@;
                    r.push(Entry::Assign { key, value: text::copy(&self.system[i].value) });
                    assert(diff::entry_views(r@) =~= diff::entry_views(before).push(
                        (k, Some(self.system@[i as int].value@)),
                    ));
                },
                None => {},
            }
            i = i + 1;
        }
        assert(all.take(i as int) =~= all);
        let ghost given = diff::entry_views(r@);
        let appended = self.append_buf.to_env_diff();
        diff::extend(&mut r, &appended);
        assert(diff::entry_views(r@).take(given.len() as int) =~= given);
        assert(diff::entry_views(r@).skip(given.len() as int) =~= diff::entry_views(appended@));
        r
    }
}

/// The environment made of what the process was given and what was set in a
/// view of it: the latter overrides the former.
pub open spec fn collected(
    system: Seq<OsVariable>,
    appended: Map<Seq<char>, Seq<u8>>,
) -> Map<Seq<char>, Seq<u8>> {
    diff::applied_all(
        Map::<Seq<char>, Seq<u8>>::empty(),
        os_entries(os_views(system)),
    ).union_prefer_right(appended)
}

/// Whether no key occurs twice in what the process was given.
pub open spec fn unique_keys(system: Seq<(Seq<u8>, Seq<u8>)>) -> bool {
    forall|i: int, j: int|
        #![trigger system[i], system[j]]
        0 <= i < j < system.len() ==> system[i].0 != system[j].0
}

proof fn lemma_os_lookup(system: Seq<(Seq<u8>, Seq<u8>)>, key: Seq<u8>)
    ensures
        match os_lookup(system, key) {
            Some(value) => exists|i: int|
                0 <= i < system.len() && (#[trigger] system[i]).0 == key && system[i].1 == value,
            None => forall|i: int| 0 <= i < system.len() ==> (#[trigger] system[i]).0 != key,
        },
    decreases system.len(),
{
    if system.len() > 0 && system[0].0 != key {
        let rest = system.drop_first();
        lemma_os_lookup(rest, key);
        match os_lookup(rest, key) {
            Some(value) => {
                let i = choose|i: int|
                    0 <= i < rest.len() && (#[trigger] rest[i]).0 == key && rest[i].1 == value;
                assert(system[i + 1].0 == key && system[i + 1].1 == value);
            },
            None => {
                assert forall|i: int| 0 <= i < system.len() implies (#[trigger] system[i]).0
                    != key by {
                    if i > 0 {
                        assert(rest[i - 1].0 != key);
                    }
                }
            },
        }
    } else if system.len() > 0 {
        assert(system[0].0 == key && system[0].1 == os_lookup(system, key)->0);
    }
}

proof fn lemma_os_entries(system: Seq<(Seq<u8>, Seq<u8>)>, key: Seq<char>)
    requires
        unique_keys(system),
    ensures
        ({
            let m = diff::applied_all(Map::<Seq<char>, Seq<u8>>::empty(), os_entries(system));
            match os_lookup(system, text::utf8(key)) {
                Some(value) => m.contains_key(key) && m[key] == value,
                None => !m.contains_key(key),
            }
        }),
    decreases system.len(),
{
    let raw = text::utf8(key);
    lemma_os_lookup(system, raw);
    text::law_utf8_round_trip(key);
    if system.len() > 0 {
        let init = system.drop_last();
        let (last_key, last_value) = system.last();
        assert forall|i: int, j: int|
            #![trigger init[i], init[j]]
            0 <= i < j < init.len() implies init[i].0 != init[j].0 by {
            assert(system[i].0 != system[j].0);
        }
        lemma_os_entries(init, key);
        lemma_os_lookup(init, raw);
        let m0 = diff::applied_all(Map::<Seq<char>, Seq<u8>>::empty(), os_entries(init));
        let m = diff::applied_all(Map::<Seq<char>, Seq<u8>>::empty(), os_entries(system));
        match text::decoded(last_key) {
            Some(k) => {
                text::law_utf8_decoded_encodes(last_key);
                assert(os_entries(system).drop_last() =~= os_entries(init));
                assert(m == m0.insert(k, last_value));
                if k == key {
                    assert(system[system.len() - 1].0 == raw);
                } else {
                    assert(last_key != raw);
                }
            },
            None => {
                assert(m == m0);
                assert(last_key != raw);
            },
        }
        if last_key == raw {
            // No other variable has this key.
            let value = os_lookup(system, raw)->0;
            let i = choose|i: int|
                0 <= i < system.len() && (#[trigger] system[i]).0 == raw && system[i].1 == value;
            assert(i == system.len() - 1) by {
                if i < system.len() - 1 {
                    assert(system[i].0 != system[system.len() - 1].0);
                }
            }
        } else {
            assert(os_lookup(system, raw) == os_lookup(init, raw)) by {
                match os_lookup(init, raw) {
                    Some(value) => {
                        let i = choose|i: int|
                            0 <= i < init.len() && (#[trigger] init[i]).0 == raw && init[i].1
                                == value;
                        assert(system[i].0 == raw);
                        let other = os_lookup(system, raw)->0;
                        let j = choose|j: int|
                            0 <= j < system.len() && (#[trigger] system[j]).0 == raw
                                && system[j].1 == other;
                        if i < j {
                            assert(system[i].0 != system[j].0);
                        }
                        if j < i {
                            assert(system[j].0 != system[i].0);
                        }
                    },
                    None => {
                        if os_lookup(system, raw) is Some {
                            let other = os_lookup(system, raw)->0;
                            let j = choose|j: int|
                                0 <= j < system.len() && (#[trigger] system[j]).0 == raw
                                    && system[j].1 == other;
                            assert(j < system.len() - 1);
                            assert(init[j].0 == raw);
                        }
                    },
                }
            }
        }
    }
}

/// What is looked up in a view is what a copy of the view holds: a variable
/// that was set in the view overrides what the process was given. (The system
/// gives no key twice.)
pub proof fn law_view_is_collected(
    system: Seq<OsVariable>,
    appended: Map<Seq<char>, Seq<u8>>,
    view: EnvOs,
    key: Seq<char>,
)
    requires
        view.inherited() == system,
        view.appended()@ == appended,
        unique_keys(os_views(system)),
    ensures
        view.lookup(key) == (if collected(system, appended).contains_key(key) {
            Some(collected(system, appended)[key])
        } else {
            None
        }),
        appended.contains_key(key) ==> view.lookup(key) == Some(appended[key]),
{
    lemma_os_entries(os_views(system), key);
}

/// A variable that is set in one view is not seen in another view of the same
/// environment.
pub proof fn law_views_are_separate(a: EnvOs, b: EnvOs, key: Seq<char>)
    requires
        a.inherited() == b.inherited(),
        !b.appended()@.contains_key(key),
    ensures
        b.lookup(key) == os_lookup(os_views(a.inherited()), text::utf8(key)),
{
}

/// What the process was given in two lists is what it was given in one after the
/// other. A variable whose key is text is set, and one whose key is not text is
/// left out.
pub proof fn law_os_entries_concat(a: Seq<(Seq<u8>, Seq<u8>)>, b: Seq<(Seq<u8>, Seq<u8>)>)
    ensures
        os_entries(a + b) == os_entries(a) + os_entries(b),
    decreases b.len(),
{
    if b.len() == 0 {
        assert(a + b =~= a);
        assert(os_entries(a) + os_entries(b) =~= os_entries(a));
    } else {
        assert((a + b).drop_last() =~= a + b.drop_last());
        assert((a + b).last() == b.last());
        law_os_entries_concat(a, b.drop_last());
        assert(os_entries(a + b) =~= os_entries(a) + os_entries(b));
    }
}

proof fn lemma_no_entry(system: Seq<(Seq<u8>, Seq<u8>)>, key: Seq<char>)
    requires
        forall|i: int| 0 <= i < system.len() ==> (#[trigger] system[i]).0 != text::utf8(key),
    ensures
        forall|i: int| 0 <= i < os_entries(system).len() ==> (#[trigger] os_entries(system)[i]).0
            != key,
    decreases system.len(),
{
    if system.len() > 0 {
        let init = system.drop_last();
        assert forall|i: int| 0 <= i < init.len() implies (#[trigger] init[i]).0 != text::utf8(
            key,
        ) by {
            assert(init[i] == system[i]);
        }
        lemma_no_entry(init, key);
        let last = system[system.len() - 1];
        if text::decoded(last.0) is Some {
            text::law_utf8_decoded_encodes(last.0);
        }
        assert forall|i: int| 0 <= i < os_entries(system).len() implies (
        #[trigger] os_entries(system)[i]).0 != key by {
            if i < os_entries(init).len() {
                assert(os_entries(system)[i] == os_entries(init)[i]);
            }
        }
    }
}

/// Every variable that the process was given is in a copy of a view: where its key
/// is text, no later one has the same key and nothing was set in the view for it,
/// the key has its value.
pub proof fn law_every_inherited_variable(
    system: Seq<OsVariable>,
    appended: Map<Seq<char>, Seq<u8>>,
    at: int,
    key: Seq<char>,
)
    requires
        0 <= at < system.len(),
        system[at].key@ == text::utf8(key),
        forall|i: int| at < i < system.len() ==> (#[trigger] system[i]).key@ != system[at].key@,
        !appended.contains_key(key),
    ensures
        collected(system, appended).contains_key(key),
        collected(system, appended)[key] == system[at].value@,
{
    let all = os_views(system);
    let before = all.take(at);
    let one = seq![all[at]];
    let behind = all.skip(at + 1);
    assert(all =~= before + one + behind);
    law_os_entries_concat(before + one, behind);
    law_os_entries_concat(before, one);
    text::law_utf8_round_trip(key);
    assert(one.drop_last() =~= Seq::<(Seq<u8>, Seq<u8>)>::empty());
    reveal_with_fuel(os_entries, 2);
    let set = seq![(key, Some(system[at].value@))];
    assert(os_entries(one) =~= set);
    let empty = Map::<Seq<char>, Seq<u8>>::empty();
    let start = diff::applied_all(empty, os_entries(before));
    diff::law_applied_concat(empty, os_entries(before) + set, os_entries(behind));
    diff::law_applied_concat(empty, os_entries(before), set);
    diff::law_last_change_decides(start, set, 0);
    assert forall|i: int| 0 <= i < behind.len() implies (#[trigger] behind[i]).0 != text::utf8(
        key,
    ) by {
        assert(behind[i] == all[at + 1 + i]);
        assert(system[at + 1 + i].key@ != system[at].key@);
    }
    lemma_no_entry(behind, key);
    diff::law_applied_frame(diff::applied_all(start, set), os_entries(behind), key);
}

/// A key that the process was not given and that was not set in a view is not in a
/// copy of it; one that was set in the view has what it was set to.
pub proof fn law_nothing_else_inherited(
    system: Seq<OsVariable>,
    appended: Map<Seq<char>, Seq<u8>>,
    key: Seq<char>,
)
    ensures
        appended.contains_key(key) ==> collected(system, appended).contains_key(key) && collected(
            system,
            appended,
        )[key] == appended[key],
        !appended.contains_key(key) && (forall|i: int|
            0 <= i < system.len() ==> (#[trigger] system[i]).key@ != text::utf8(key))
            ==> !collected(system, appended).contains_key(key),
{
    if !appended.contains_key(key) && (forall|i: int|
        0 <= i < system.len() ==> (#[trigger] system[i]).key@ != text::utf8(key)) {
        let all = os_views(system);
        assert forall|i: int| 0 <= i < all.len() implies (#[trigger] all[i]).0 != text::utf8(
            key,
        ) by {
            assert(system[i].key@ != text::utf8(key));
        }
        lemma_no_entry(all, key);
        diff::law_applied_frame(Map::empty(), os_entries(all), key);
    }
}

/// The first variable of a key is the one that is looked up, and there is none only
/// where none has that key.
pub proof fn law_first_variable(system: Seq<(Seq<u8>, Seq<u8>)>, key: Seq<u8>)
    ensures
        forall|i: int|
            0 <= i < system.len() && (#[trigger] system[i]).0 == key && (forall|j: int|
                0 <= j < i ==> (#[trigger] system[j]).0 != key) ==> os_lookup(system, key) == Some(
                system[i].1,
            ),
        os_lookup(system, key) is None <==> (forall|i: int|
            0 <= i < system.len() ==> (#[trigger] system[i]).0 != key),
    decreases system.len(),
{
    if system.len() > 0 {
        let rest = system.drop_first();
        law_first_variable(rest, key);
        assert forall|i: int|
            0 <= i < system.len() && (#[trigger] system[i]).0 == key && (forall|j: int|
                0 <= j < i ==> (#[trigger] system[j]).0 != key) implies os_lookup(system, key)
            == Some(system[i].1) by {
            if i > 0 {
                assert(system[0].0 != key);
                assert(rest[i - 1] == system[i]);
                assert forall|j: int| 0 <= j < i - 1 implies (#[trigger] rest[j]).0 != key by {
                    assert(rest[j] == system[j + 1]);
                }
            }
        }
        lemma_os_lookup(system, key);
    }
}

/// What is looked up in a view is what was set in it, and otherwise the first
/// variable of that key that the process was given.
pub proof fn law_view_lookup(view: EnvOs, key: Seq<char>, at: int)
    requires
        0 <= at < view.inherited().len(),
        view.inherited()[at].key@ == text::utf8(key),
        forall|i: int|
            0 <= i < at ==> (#[trigger] view.inherited()[i]).key@ != text::utf8(key),
    ensures
        view.lookup(key) == Some(
            if view.appended()@.contains_key(key) {
                view.appended()@[key]
            } else {
                view.inherited()[at].value@
            },
        ),
{
    let raw = os_views(view.inherited());
    assert forall|i: int| 0 <= i < at implies (#[trigger] raw[i]).0 != text::utf8(key) by {
        assert(view.inherited()[i].key@ != text::utf8(key));
    }
    assert(raw[at].0 == text::utf8(key));
    law_first_variable(raw, text::utf8(key));
    container::law_lookup(view.appended(), key);
}

} // verus!
