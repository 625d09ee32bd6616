//! Changes to an environment.
use vstd::prelude::*;

use crate::env::parse::EnvironmentVariable;
use crate::text;

verus! {

/// One change to an environment.
pub enum Entry {
    Assign { key: String, value: Vec<u8> },
    Unset { key: String },
}

impl View for Entry {
    /// The key, and the value that it gets; none where the key is unset.
    type V = (Seq<char>, Option<Seq<u8>>);

    open spec fn view(&self) -> (Seq<char>, Option<Seq<u8>>) {
        match self {
            Entry::Assign { key, value } => (key@, Some(value@)),
            Entry::Unset { key } => (key@, None),
        }
    }
}

/// What each change of a list does.
pub open spec fn entry_views(entries: Seq<Entry>) -> Seq<(Seq<char>, Option<Seq<u8>>)> {
    Seq::new(entries.len(), |i: int| entries[i]@)
}

/// The environment after one change.
pub open spec fn applied(
    env: Map<Seq<char>, Seq<u8>>,
    entry: (Seq<char>, Option<Seq<u8>>),
) -> Map<Seq<char>, Seq<u8>> {
    match entry.1 {
        Some(value) => env.insert(entry.0, value),
        None => env.remove(entry.0),
    }
}

/// The environment after a list of changes, from the first to the last.
pub open spec fn applied_all(
    env: Map<Seq<char>, Seq<u8>>,
    entries: Seq<(Seq<char>, Option<Seq<u8>>)>,
) -> Map<Seq<char>, Seq<u8>>
    decreases entries.len(),
{
    if entries.len() == 0 {
        env
    } else {
        applied(applied_all(env, entries.drop_last()), entries.last())
    }
}

/// The bytes of a change: `key=value` where the key is set, the key alone
/// where it is unset.
pub open spec fn rendered(entry: (Seq<char>, Option<Seq<u8>>)) -> Seq<u8> {
    match entry.1 {
        Some(value) => text::utf8(entry.0) + text::utf8("="@) + value,
        None => text::utf8(entry.0),
    }
}

impl Entry {
    /// The key that the change is about.
    pub fn key(&self) -> (r: &String)
        ensures
            r@ == self@.0,
    {
        match self {
            Entry::Assign { key, value: _ } => key,
            Entry::Unset { key } => key,
        }
    }

    /// The bytes of the change.
    pub fn to_os_string(&self) -> (r: Vec<u8>)
        ensures
            r@ == rendered(self@),
    {
        match self {
            Entry::Assign { key, value } => {
                let mut r = text::bytes_of(key.as_str());
                let mut equals = text::bytes_of("=");
                r.append(&mut equals);
                let mut tail = text::copy(value);
                r.append(&mut tail);
                r
            },
            Entry::Unset { key } => text::bytes_of(key.as_str()),
        }
    }

    /// The same change once more.
    pub fn duplicate(&self) -> (r: Self)
        ensures
            r@ == self@,
    {
        match self {
            Entry::Assign { key, value } => Entry::Assign { key: key.clone(), value: text::copy(value) },
            Entry::Unset { key } => Entry::Unset { key: key.clone() },
        }
    }
}

/// The bytes of each change of a list.
pub fn to_vec(entries: &Vec<Entry>) -> (r: Vec<Vec<u8>>)
    ensures
        text::blobs(r@) == Seq::new(entries@.len(), |i: int| rendered(entries@[i]@)),
{
    let ghost all = Seq::new(entries@.len(), |i: int| rendered(entries@[i]@));
    let mut r: Vec<Vec<u8>> = Vec::new();
    let mut i: usize = 0;
    while i < entries.len()
        invariant
            i <= entries@.len(),
            all == Seq::new(entries@.len(), |i: int| rendered(entries@[i]@)),
            text::blobs(r@) == all.take(i as int),
        decreases entries@.len() - i,
    {
        let ghost before = r@;
        r.push(entries[i].to_os_string());
        assert(text::blobs(r@) =~= text::blobs(before).push(all[i as int]));
        i = i + 1;
        assert(all.take(i as int) =~= all.take(i - 1).push(all[i - 1]));
    }
    assert(all.take(i as int) =~= all);
    r
}

// ---------------------------------------------------------------------------
// What comes to a list of changes
// ---------------------------------------------------------------------------
/// Something that comes to a list of changes.
pub trait EnvDiff: Sized {
    /// Whether there is such a list.
    spec fn valid(&self) -> bool;

    /// Whether it comes to the given list. Where the order of the changes does
    /// not matter, it may come to more than one.
    spec fn yields(&self, entries: Seq<(Seq<char>, Option<Seq<u8>>)>) -> bool;

    /// The changes.
    fn to_env_diff(self) -> (r: Vec<Entry>)
        requires
            self.valid(),
        ensures
            self.yields(entry_views(r@)),
    ;
}

impl EnvDiff for Vec<Entry> {
    open spec fn valid(&self) -> bool {
        true
    }

    open spec fn yields(&self, entries: Seq<(Seq<char>, Option<Seq<u8>>)>) -> bool {
        entries == entry_views(self@)
    }

    fn to_env_diff(self) -> (r: Vec<Entry>) {
        self
    }
}

/// A typed variable is set.
impl<T: EnvironmentVariable> EnvDiff for T {
    open spec fn valid(&self) -> bool {
        true
    }

    open spec fn yields(&self, entries: Seq<(Seq<char>, Option<Seq<u8>>)>) -> bool {
        entries == seq![(T::key_text(), Some(T::serialized(self@)))]
    }

    fn to_env_diff(self) -> (r: Vec<Entry>) {
        let ghost all = seq![(T::key_text(), Some(T::serialized(self@)))];
        let mut r: Vec<Entry> = Vec::new();
        r.push(Entry::Assign { key: T::key().to_owned(), value: self.env_serialize() });
        assert(entry_views(r@) =~= all);
        r
    }
}

/// A text of the form `key=value` stands for a variable that is set.
///
/// This is for untyped variables; typed ones are usually the better choice.
impl EnvDiff for &'static str {
    open spec fn valid(&self) -> bool {
        text::split_at_each(self@, '=').len() == 2
    }

    open spec fn yields(&self, entries: Seq<(Seq<char>, Option<Seq<u8>>)>) -> bool {
        let parts = text::split_at_each(self@, '=');
        entries == seq![(parts[0], Some(text::utf8(parts[1])))]
    }

    fn to_env_diff(self) -> (r: Vec<Entry>) {
        let parts = text::split(self, '=');
        assert(text::texts(parts@).len() == 2);
        assert(text::texts(parts@)[0] == parts@[0]@);
        assert(text::texts(parts@)[1] == parts@[1]@);
        let mut r: Vec<Entry> = Vec::new();
        r.push(
            Entry::Assign { key: parts[0].clone(), value: text::bytes_of(parts[1].as_str()) },
        );
        assert(entry_views(r@) =~= seq![(parts@[0]@, Some(text::utf8(parts@[1]@)))]);
        r
    }
}

/// What is not there changes nothing.
impl<T: EnvDiff> EnvDiff for Option<T> {
    open spec fn valid(&self) -> bool {
        match self {
            Some(diff) => diff.valid(),
            None => true,
        }
    }

    open spec fn yields(&self, entries: Seq<(Seq<char>, Option<Seq<u8>>)>) -> bool {
        match self {
            Some(diff) => diff.yields(entries),
            None => entries.len() == 0,
        }
    }

    fn to_env_diff(self) -> (r: Vec<Entry>) {
        match self {
            Some(diff) => diff.to_env_diff(),
            None => Vec::new(),
        }
    }
}

/// The changes of one thing, and then those of another.
impl<A: EnvDiff, B: EnvDiff> EnvDiff for (A, B) {
    open spec fn valid(&self) -> bool {
        self.0.valid() && self.1.valid()
    }

    open spec fn yields(&self, entries: Seq<(Seq<char>, Option<Seq<u8>>)>) -> bool {
        exists|n: int|
            0 <= n <= entries.len() && self.0.yields(#[trigger] entries.take(n)) && self.1.yields(
                entries.skip(n),
            )
    }

    fn to_env_diff(self) -> (r: Vec<Entry>) {
        let mut r = self.0.to_env_diff();
        let ghost first = entry_views(r@);
        let second = self.1.to_env_diff();
        extend(&mut r, &second);
        assert(entry_views(r@).take(first.len() as int) =~= first);
        assert(entry_views(r@).skip(first.len() as int) =~= entry_views(second@));
        r
    }
}

/// Puts the changes of one list behind those of another.
pub fn extend(to: &mut Vec<Entry>, from: &Vec<Entry>)
    ensures
        entry_views(final(to)@) == entry_views(old(to)@) + entry_views(from@),
{
    let mut i: usize = 0;
    assert(entry_views(to@) =~= entry_views(old(to)@) + entry_views(from@).take(0));
    while i < from.len()
        invariant
            i <= from@.len(),
            entry_views(to@) == entry_views(old(to)@) + entry_views(from@).take(i as int),
        decreases from@.len() - i,
    {
        let ghost before = to@;
        to.push(from[i].duplicate());
        assert(entry_views(to@) =~= entry_views(before).push(entry_views(from@)[i as int]));
        i = i + 1;
        assert(entry_views(from@).take(i as int) =~= entry_views(from@).take(i - 1).push(
            entry_views(from@)[i - 1],
        ));
        assert(entry_views(to@) =~= entry_views(old(to)@) + entry_views(from@).take(i as int));
    }
    assert(entry_views(from@).take(i as int) =~= entry_views(from@));
}

// ---------------------------------------------------------------------------
// One change for each key
// ---------------------------------------------------------------------------
/// The changes of a list that are not about a key.
pub open spec fn without(entries: Seq<(Seq<char>, Option<Seq<u8>>)>, key: Seq<char>) -> Seq<
    (Seq<char>, Option<Seq<u8>>),
>
    decreases entries.len(),
{
    if entries.len() == 0 {
        Seq::empty()
    } else if entries.last().0 == key {
        without(entries.drop_last(), key)
    } else {
        without(entries.drop_last(), key).push(entries.last())
    }
}

/// The last change to each key of a list, in the order in which they are made.
pub open spec fn settled(entries: Seq<(Seq<char>, Option<Seq<u8>>)>) -> Seq<
    (Seq<char>, Option<Seq<u8>>),
>
    decreases entries.len(),
{
    if entries.len() == 0 {
        Seq::empty()
    } else {
        without(settled(entries.drop_last()), entries.last().0).push(entries.last())
    }
}

/// The changes of a list that are not about a key.
fn drop_key(entries: &Vec<Entry>, key: &String) -> (r: Vec<Entry>)
    ensures
        entry_views(r@) == without(entry_views(entries@), key@),
{
    let ghost all = entry_views(entries@);
    let mut r: Vec<Entry> = Vec::new();
    let mut i: usize = 0;
    assert(entry_views(r@) =~= without(all.take(0), key@));
    while i < entries.len()
        invariant
            i <= entries@.len(),
            all == entry_views(entries@),
            entry_views(r@) == without(all.take(i as int), key@),
        decreases entries@.len() - i,
    {
        let ghost before = r@;
        assert(all.take(i + 1).drop_last() =~= all.take(i as int));
        assert(all.take(i + 1).last() == entries@[i as int]@);
        if *entries[i].key() != *key {
            r.push(entries[i].duplicate());
            assert(entry_views(r@) =~= entry_views(before).push(all[i as int]));
        }
        i = i + 1;
    }
    assert(all.take(i as int) =~= all);
    r
}

/// The last change to each key of a list, in the order in which they are made.
pub fn settle(entries: &Vec<Entry>) -> (r: Vec<Entry>)
    ensures
        entry_views(r@) == settled(entry_views(entries@)),
{
    let ghost all = entry_views(entries@);
    let mut r: Vec<Entry> = Vec::new();
    let mut i: usize = 0;
    assert(entry_views(r@) =~= settled(all.take(0)));
    while i < entries.len()
        invariant
            i <= entries@.len(),
            all == entry_views(entries@),
            entry_views(r@) == settled(all.take(i as int)),
        decreases entries@.len() - i,
    {
        assert(all.take(i + 1).drop_last() =~= all.take(i as int));
        assert(all.take(i + 1).last() == entries@[i as int]@);
        r = drop_key(&r, entries[i].key());
        let ghost before = r@;
        r.push(entries[i].duplicate());
        assert(entry_views(r@) =~= entry_views(before).push(all[i as int]));
        i = i + 1;
    }
    assert(all.take(i as int) =~= all);
    r
}

proof fn lemma_without(
    env: Map<Seq<char>, Seq<u8>>,
    entries: Seq<(Seq<char>, Option<Seq<u8>>)>,
    key: Seq<char>,
)
    ensures
        forall|i: int|
            0 <= i < without(entries, key).len() ==> (#[trigger] without(entries, key)[i]).0 != key
                && entries.contains(without(entries, key)[i]),
        applied_all(env, without(entries, key)).remove(key) == applied_all(env, entries).remove(
            key,
        ),
    decreases entries.len(),
{
    if entries.len() > 0 {
        let head = entries.drop_last();
        lemma_without(env, head, key);
        let w = without(entries, key);
        assert forall|i: int| 0 <= i < w.len() implies (#[trigger] w[i]).0 != key
            && entries.contains(w[i]) by {
            if i < without(head, key).len() {
                assert(w[i] == without(head, key)[i]);
                let j = choose|j: int| 0 <= j < head.len() && head[j] == w[i];
                assert(entries[j] == w[i]);
            } else {
                assert(entries[entries.len() - 1] == w[i]);
            }
        }
        let a = applied_all(env, without(head, key));
        let b = applied_all(env, head);
        if entries.last().0 == key {
            assert(applied(b, entries.last()).remove(key) =~= b.remove(key));
        } else {
            assert(w.drop_last() =~= without(head, key));
            assert(applied(a, entries.last()).remove(key) =~= applied(
                a.remove(key),
                entries.last(),
            ));
            assert(applied(b, entries.last()).remove(key) =~= applied(
                b.remove(key),
                entries.last(),
            ));
        }
    }
}

proof fn lemma_without_distinct(entries: Seq<(Seq<char>, Option<Seq<u8>>)>, key: Seq<char>)
    requires
        one_each(entries),
    ensures
        one_each(without(entries, key)),
    decreases entries.len(),
{
    if entries.len() > 0 {
        let head = entries.drop_last();
        assert(one_each(head)) by {
            assert forall|i: int, j: int|
                #![trigger head[i], head[j]]
                0 <= i < j < head.len() implies head[i].0 != head[j].0 by {
                assert(entries[i].0 != entries[j].0);
            }
        }
        lemma_without_distinct(head, key);
        lemma_without(Map::empty(), head, key);
        let w = without(entries, key);
        let v = without(head, key);
        assert forall|i: int, j: int|
            #![trigger w[i], w[j]]
            0 <= i < j < w.len() implies w[i].0 != w[j].0 by {
            assert(w[i] == v[i]);
            if j < v.len() {
                assert(w[j] == v[j]);
            } else {
                assert(head.contains(v[i]));
                let k = choose|k: int| 0 <= k < head.len() && head[k] == v[i];
                assert(entries[k].0 != entries[entries.len() - 1].0);
            }
        }
    }
}

/// Whether no two changes of a list are about the same key.
pub open spec fn one_each(entries: Seq<(Seq<char>, Option<Seq<u8>>)>) -> bool {
    forall|i: int, j: int|
        #![trigger entries[i], entries[j]]
        0 <= i < j < entries.len() ==> entries[i].0 != entries[j].0
}

/// The last changes to each key come to the same as all changes together, and
/// there is one for each key.
pub proof fn law_settled(
    env: Map<Seq<char>, Seq<u8>>,
    entries: Seq<(Seq<char>, Option<Seq<u8>>)>,
)
    ensures
        applied_all(env, settled(entries)) == applied_all(env, entries),
        one_each(settled(entries)),
    decreases entries.len(),
{
    if entries.len() > 0 {
        let head = entries.drop_last();
        let last = entries.last();
        let kept = without(settled(head), last.0);
        law_settled(env, head);
        lemma_without(env, settled(head), last.0);
        lemma_without_distinct(settled(head), last.0);
        let s = settled(entries);
        assert(s.drop_last() =~= kept);
        let a = applied_all(env, kept);
        let b = applied_all(env, head);
        assert(applied(a, last) =~= applied(a.remove(last.0), last));
        assert(applied(b, last) =~= applied(b.remove(last.0), last));
        assert forall|i: int, j: int|
            #![trigger s[i], s[j]]
            0 <= i < j < s.len() implies s[i].0 != s[j].0 by {
            assert(s[i] == kept[i]);
            if j < kept.len() {
                assert(s[j] == kept[j]);
            }
        }
    }
}

// ---------------------------------------------------------------------------
// Laws
// ---------------------------------------------------------------------------
/// Changes that are made one list after the other come to the changes of both
/// lists together.
pub proof fn law_applied_concat(
    env: Map<Seq<char>, Seq<u8>>,
    a: Seq<(Seq<char>, Option<Seq<u8>>)>,
    b: Seq<(Seq<char>, Option<Seq<u8>>)>,
)
    ensures
        applied_all(env, a + b) == applied_all(applied_all(env, a), b),
    decreases b.len(),
{
    if b.len() == 0 {
        assert(a + b =~= a);
    } else {
        assert((a + b).drop_last() =~= a + b.drop_last());
        law_applied_concat(env, a, b.drop_last());
    }
}

/// A key that no change is about keeps what it had.
pub proof fn law_applied_frame(
    env: Map<Seq<char>, Seq<u8>>,
    entries: Seq<(Seq<char>, Option<Seq<u8>>)>,
    key: Seq<char>,
)
    requires
        forall|i: int| 0 <= i < entries.len() ==> (#[trigger] entries[i]).0 != key,
    ensures
        applied_all(env, entries).contains_key(key) == env.contains_key(key),
        env.contains_key(key) ==> applied_all(env, entries)[key] == env[key],
    decreases entries.len(),
{
    if entries.len() > 0 {
        assert forall|i: int| 0 <= i < entries.drop_last().len() implies (
        #[trigger] entries.drop_last()[i]).0 != key by {
            assert(entries.drop_last()[i] == entries[i]);
        }
        law_applied_frame(env, entries.drop_last(), key);
        assert(entries.last() == entries[entries.len() - 1]);
    }
}

/// The last change to a key decides.
pub proof fn law_last_change_decides(
    env: Map<Seq<char>, Seq<u8>>,
    entries: Seq<(Seq<char>, Option<Seq<u8>>)>,
    at: int,
)
    requires
        0 <= at < entries.len(),
        forall|i: int| at < i < entries.len() ==> (#[trigger] entries[i]).0 != entries[at].0,
    ensures
        match entries[at].1 {
            Some(value) => applied_all(env, entries).contains_key(entries[at].0) && applied_all(
                env,
                entries,
            )[entries[at].0] == value,
            None => !applied_all(env, entries).contains_key(entries[at].0),
        },
{
    let head = entries.take(at + 1);
    let tail = entries.skip(at + 1);
    assert(entries =~= head + tail);
    law_applied_concat(env, head, tail);
    assert(head.last() == entries[at]);
    assert forall|i: int| 0 <= i < tail.len() implies (#[trigger] tail[i]).0 != entries[at].0 by {
        assert(tail[i] == entries[at + 1 + i]);
    }
    law_applied_frame(applied_all(env, head), tail, entries[at].0);
}

/// A change is written as the key, an equals sign and the value, or as the key alone
/// where it is unset.
pub proof fn law_rendered(key: Seq<char>, value: Seq<u8>)
    ensures
        ({
            let set = rendered((key, Some(value)));
            let k = text::utf8(key);
            &&& set.len() == k.len() + 1 + value.len()
            &&& set.take(k.len() as int) == k
            &&& set[k.len() as int] == 0x3d
            &&& set.skip(k.len() as int + 1) == value
            &&& rendered((key, None)) == k
        }),
{
    let set = rendered((key, Some(value)));
    let k = text::utf8(key);
    reveal_strlit("=");
    text::lemma_ascii_bytes("="@);
    assert(set.take(k.len() as int) =~= k);
    assert(set.skip(k.len() as int + 1) =~= value);
}

/// What a list of changes does is what each of them does, in order.
pub proof fn law_entry_views(entries: Seq<Entry>)
    ensures
        entry_views(entries).len() == entries.len(),
        forall|i: int|
            0 <= i < entries.len() ==> match #[trigger] entries[i] {
                Entry::Assign { key, value } => entry_views(entries)[i] == (key@, Some(value@)),
                Entry::Unset { key } => entry_views(entries)[i] == (key@, None::<Seq<u8>>),
            },
{
}

} // verus!
