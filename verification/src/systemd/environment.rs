//! The environment of the service manager.
use vstd::prelude::*;

use crate::env::container;
use crate::env::container::EnvBuf;
use crate::env::container::EnvRaw;
use crate::env::diff;
use crate::env::diff::Entry;
use crate::env::diff::EnvDiff;
use crate::text;
use crate::warn;
use crate::warn::Notice;
use crate::warn::WarnExt;
use crate::warn::Warning;

verus! {

/// What the service manager has in its environment.
pub struct SystemdEnvironment {
    buf: EnvBuf,
}

impl View for SystemdEnvironment {
    type V = Map<Seq<char>, Seq<u8>>;

    closed spec fn view(&self) -> Map<Seq<char>, Seq<u8>> {
        self.buf@
    }
}

impl EnvRaw for SystemdEnvironment {
    closed spec fn well_formed(&self) -> bool {
        self.buf.well_formed()
    }

    open spec fn lookup(&self, key: Seq<char>) -> Option<Seq<u8>> {
        if self@.contains_key(key) {
            Some(self@[key])
        } else {
            None
        }
    }

    fn raw_get(&self, key: &str) -> (r: Option<Vec<u8>>) {
        self.buf.raw_get(key)
    }
}

/// The variables that the manager tells of, in texts of the form `key=value`.
/// The key ends at the first equals sign; texts without one are left out.
pub open spec fn told(pairs: Seq<Seq<char>>) -> Seq<(Seq<char>, Option<Seq<u8>>)>
    decreases pairs.len(),
{
    if pairs.len() == 0 {
        Seq::empty()
    } else {
        match text::split_at_first(pairs.last(), '=') {
            Some((key, value)) => told(pairs.drop_last()).push((key, Some(text::utf8(value)))),
            None => told(pairs.drop_last()),
        }
    }
}

/// What the user is told of the texts that were left out.
pub open spec fn told_warnings(pairs: Seq<Seq<char>>) -> Seq<Notice>
    decreases pairs.len(),
{
    if pairs.len() == 0 {
        Seq::empty()
    } else if text::split_at_first(pairs.last(), '=') is Some {
        told_warnings(pairs.drop_last())
    } else {
        told_warnings(pairs.drop_last()).push(warn::plain(warn::not_an_entry(pairs.last())))
    }
}

impl SystemdEnvironment {
    /// The environment that the manager tells of.
    pub fn open(pairs: &Vec<String>, warnings: &mut Vec<Warning>) -> (r: Self)
        ensures
            r.well_formed(),
            r@ == diff::applied_all(
                Map::<Seq<char>, Seq<u8>>::empty(),
                told(text::texts(pairs@)),
            ),
            warn::notices(final(warnings)@) == warn::notices(old(warnings)@)
                + told_warnings(text::texts(pairs@)),
    {
        let mut r = SystemdEnvironment { buf: EnvBuf::new() };
        r.update(pairs, warnings);
        r
    }

    /// Takes over what the manager tells now, in place of what it told before.
    pub fn update(&mut self, pairs: &Vec<String>, warnings: &mut Vec<Warning>)
        ensures
            final(self).well_formed(),
            final(self)@ == diff::applied_all(
                Map::<Seq<char>, Seq<u8>>::empty(),
                told(text::texts(pairs@)),
            ),
            warn::notices(final(warnings)@) == warn::notices(old(warnings)@)
                + told_warnings(text::texts(pairs@)),
    {
        let ghost all = text::texts(pairs@);
        let mut entries: Vec<Entry> = Vec::new();
        let mut i: usize = 0;
        assert(all.take(0) =~= Seq::<Seq<char>>::empty());
        assert(diff::entry_views(entries@) =~= told(all.take(0)));
        assert(warn::notices(warnings@) =~= warn::notices(old(warnings)@)
            + told_warnings(all.take(0)));
        while i < pairs.len()
            invariant
                i <= pairs@.len(),
                all == text::texts(pairs@),
                diff::entry_views(entries@) == told(all.take(i as int)),
                warn::notices(warnings@) == warn::notices(old(warnings)@)
                    + told_warnings(all.take(i as int)),
            decreases pairs@.len() - i,
        {
            let ghost before = entries@;
            let ghost heard = warnings@;
            assert(all.take(i + 1).drop_last() =~= all.take(i as int));
            assert(all.take(i + 1).last() == pairs@[i as int]@);
            let split: Result<(String, String), Warning> = match text::split_once(
                pairs[i].as_str(),
                '=',
            ) {
                Some(split) => Ok(split),
                None => Err(Warning::NotAnEntry(pairs[i].clone())),
            };
            proof {
                if split is Err {
                    warn::lemma_notices_push(heard, split->Err_0);
                }
            }
            match split.warn(warnings) {
                Some((key, value)) => {
                    let ghost k = key@;
                    let ghost v = text::utf8(value@);
                    entries.push(Entry::Assign { key, value: text::bytes_of(value.as_str()) });
                    assert(diff::entry_views(entries@) =~= diff::entry_views(before).push(
                        (k, Some(v)),
                    ));
                },
                None => {
                    assert(warn::notices(warnings@) =~= warn::notices(old(warnings)@)
                        + told_warnings(all.take(i + 1)));
                },
            }
            i = i + 1;
        }
        assert(all.take(i as int) =~= all);
        self.buf = EnvBuf::from_entries(&entries);
    }
}

/// Each of the variables is set.
impl EnvDiff for SystemdEnvironment {
    open spec fn valid(&self) -> bool {
        self.well_formed()
    }

    open spec fn yields(&self, entries: Seq<(Seq<char>, Option<Seq<u8>>)>) -> bool {
        container::lists(entries, self@)
    }

    fn to_env_diff(self) -> (r: Vec<Entry>) {
        self.buf.to_env_diff()
    }
}

// ---------------------------------------------------------------------------
// Changing the manager's environment
// ---------------------------------------------------------------------------
/// A change, as the manager takes it: `key=value`, or the key of a variable
/// that is unset.
pub open spec fn passed(entry: (Seq<char>, Option<Seq<u8>>)) -> Option<Seq<char>> {
    text::decoded(diff::rendered(entry))
}

/// Those changes of a list that set a variable, or those that unset one, as the
/// manager takes them. What is not text is left out.
pub open spec fn all_passed(
    entries: Seq<(Seq<char>, Option<Seq<u8>>)>,
    setting: bool,
) -> Seq<Seq<char>>
    decreases entries.len(),
{
    if entries.len() == 0 {
        Seq::empty()
    } else if (entries.last().1 is Some) == setting && passed(entries.last()) is Some {
        all_passed(entries.drop_last(), setting).push(passed(entries.last())->0)
    } else {
        all_passed(entries.drop_last(), setting)
    }
}

/// What the user is told of the changes that were left out.
pub open spec fn passed_warnings(entries: Seq<(Seq<char>, Option<Seq<u8>>)>) -> Seq<Notice>
    decreases entries.len(),
{
    if entries.len() == 0 {
        Seq::empty()
    } else if passed(entries.last()) is Some {
        passed_warnings(entries.drop_last())
    } else {
        passed_warnings(entries.drop_last()).push(warn::plain(warn::not_text(entries.last().0)))
    }
}

/// Puts a change behind a list of changes that the manager is to make, if it
/// is text.
pub fn entry_push(to: &mut Vec<String>, entry: &Entry, warnings: &mut Vec<Warning>)
    ensures
        match passed(entry@) {
            Some(s) => {
                &&& text::texts(final(to)@) == text::texts(old(to)@).push(s)
                &&& final(warnings)@ == old(warnings)@
            },
            None => {
                &&& final(to)@ == old(to)@
                &&& warn::notices(final(warnings)@) == warn::notices(
                    old(warnings)@,
                ).push(warn::plain(warn::not_text(entry@.0)))
            },
        },
{
    let key = entry.key().clone();
    let rendered: Result<String, Warning> = match text::from_utf8(entry.to_os_string()) {
        Some(s) => Ok(s),
        None => Err(Warning::NotText(key)),
    };
    proof {
        if rendered is Err {
            warn::lemma_notices_push(old(warnings)@, rendered->Err_0);
        }
    }
    match rendered.warn(warnings) {
        Some(s) => {
            let ghost pushed = s@;
            to.push(s);
            assert(text::texts(to@) =~= text::texts(old(to)@).push(pushed));
        },
        None => {},
    }
}

/// What the manager is asked in order to make a list of changes: the variables
/// to set, and those to unset.
pub fn raw_merge(entries: &Vec<Entry>, warnings: &mut Vec<Warning>) -> (r: (
    Vec<String>,
    Vec<String>,
))
    ensures
        text::texts(r.0@) == all_passed(diff::entry_views(entries@), true),
        text::texts(r.1@) == all_passed(diff::entry_views(entries@), false),
        warn::notices(final(warnings)@) == warn::notices(old(warnings)@)
            + passed_warnings(diff::entry_views(entries@)),
{
    let ghost all = diff::entry_views(entries@);
    let mut variables: Vec<String> = Vec::new();
    let mut unsets: Vec<String> = Vec::new();
    let mut i: usize = 0;
    assert(all.take(0) =~= Seq::<(Seq<char>, Option<Seq<u8>>)>::empty());
    assert(text::texts(variables@) =~= all_passed(all.take(0), true));
    assert(text::texts(unsets@) =~= all_passed(all.take(0), false));
    assert(warn::notices(warnings@) =~= warn::notices(old(warnings)@)
        + passed_warnings(all.take(0)));
    while i < entries.len()
        invariant
            i <= entries@.len(),
            all == diff::entry_views(entries@),
            text::texts(variables@) == all_passed(all.take(i as int), true),
            text::texts(unsets@) == all_passed(all.take(i as int), false),
            warn::notices(warnings@) == warn::notices(old(warnings)@)
                + passed_warnings(all.take(i as int)),
        decreases entries@.len() - i,
    {
        assert(all.take(i + 1).drop_last() =~= all.take(i as int));
        assert(all.take(i + 1).last() == entries@[i as int]@);
        match &entries[i] {
            Entry::Assign { key: _, value: _ } => {
                entry_push(&mut variables, &entries[i], warnings);
            },
            Entry::Unset { key: _ } => {
                entry_push(&mut unsets, &entries[i], warnings);
            },
        }
        assert(warn::notices(warnings@) =~= warn::notices(old(warnings)@)
            + passed_warnings(all.take(i + 1)));
        i = i + 1;
    }
    assert(all.take(i as int) =~= all);
    (variables, unsets)
}

// ---------------------------------------------------------------------------
// Laws
// ---------------------------------------------------------------------------
/// What is passed to the manager is what the manager tells: a variable that is
/// text, under a key without an equals sign, comes back as it was.
pub proof fn law_passed_is_told(key: Seq<char>, value: Seq<char>)
    requires
        !key.contains('='),
    ensures
        passed((key, Some(text::utf8(value)))) == Some(key + seq!['='] + value),
        told(seq![key + seq!['='] + value]) == seq![(key, Some(text::utf8(value)))],
{
    let pair = key + seq!['='] + value;
    reveal_strlit("=");
    assert("="@ =~= seq!['=']);
    text::law_utf8_concat(key, seq!['=']);
    text::law_utf8_concat(key + seq!['='], value);
    text::law_utf8_round_trip(pair);
    assert(forall|j: int| 0 <= j < key.len() ==> pair[j] == key[j]);
    text::lemma_first_index_unique(pair, '=', key.len() as int);
    assert(pair.take(key.len() as int) =~= key);
    assert(pair.skip(key.len() as int + 1) =~= value);
    let pairs = seq![pair];
    assert(pairs.drop_last() =~= Seq::<Seq<char>>::empty());
    reveal_with_fuel(told, 2);
    assert(told(pairs) =~= seq![(key, Some(text::utf8(value)))]);
}

/// What the manager tells in two lists is what it tells in one after the other,
/// and so is what the user is told of them.
pub proof fn law_told_concat(a: Seq<Seq<char>>, b: Seq<Seq<char>>)
    ensures
        told(a + b) == told(a) + told(b),
        told_warnings(a + b) == told_warnings(a) + told_warnings(b),
    decreases b.len(),
{
    if b.len() == 0 {
        assert(a + b =~= a);
        assert(told(a) + told(b) =~= told(a));
        assert(told_warnings(a) + told_warnings(b) =~= told_warnings(a));
    } else {
        assert((a + b).drop_last() =~= a + b.drop_last());
        assert((a + b).last() == b.last());
        law_told_concat(a, b.drop_last());
        assert(told(a + b) =~= told(a) + told(b));
        assert(told_warnings(a + b) =~= told_warnings(a) + told_warnings(b));
    }
}

/// A text with an equals sign tells of one variable: its key ends at the first
/// one, and the user hears nothing. A text without one tells of none, and the user
/// hears of it.
pub proof fn law_told_one(pair: Seq<char>)
    ensures
        forall|key: Seq<char>, value: Seq<char>|
            #![trigger key + seq!['='] + value]
            !key.contains('=') && pair == key + seq!['='] + value ==> told(seq![pair]) == seq![
                (key, Some(text::utf8(value))),
            ] && told_warnings(seq![pair]).len() == 0,
        !pair.contains('=') ==> told(seq![pair]).len() == 0 && told_warnings(seq![pair]) == seq![
            (warn::Notice {
                text: "Skipping "@ + pair + ": not a valid env entry"@,
                cause: None,
            }),
        ],
{
    let pairs = seq![pair];
    assert(pairs.drop_last() =~= Seq::<Seq<char>>::empty());
    reveal_with_fuel(told, 2);
    reveal_with_fuel(told_warnings, 2);
    assert forall|key: Seq<char>, value: Seq<char>|
        #![trigger key + seq!['='] + value]
        !key.contains('=') && pair == key + seq!['='] + value implies told(pairs) == seq![
        (key, Some(text::utf8(value))),
    ] && told_warnings(pairs).len() == 0 by {
        law_passed_is_told(key, value);
        text::lemma_first_index(pair, '=');
        assert(pair[key.len() as int] == '=');
    }
    if !pair.contains('=') {
        text::lemma_first_index(pair, '=');
        assert(told(pairs) =~= Seq::empty());
        assert(told_warnings(pairs) =~= seq![warn::plain(warn::not_an_entry(pair))]);
    }
}

/// Every variable that the manager tells of is in its environment: where a text of
/// the list is `key=value`, and no later one is about that key, the key has that
/// value.
pub proof fn law_every_told_variable(
    pairs: Seq<Seq<char>>,
    at: int,
    key: Seq<char>,
    value: Seq<char>,
)
    requires
        0 <= at < pairs.len(),
        !key.contains('='),
        pairs[at] == key + seq!['='] + value,
        forall|i: int|
            at < i < pairs.len() ==> !(key + seq!['=']).is_prefix_of(#[trigger] pairs[i]),
    ensures
        ({
            let env = diff::applied_all(Map::<Seq<char>, Seq<u8>>::empty(), told(pairs));
            env.contains_key(key) && env[key] == text::utf8(value)
        }),
{
    let before = pairs.take(at);
    let behind = pairs.skip(at + 1);
    assert(pairs =~= before + seq![pairs[at]] + behind);
    law_told_concat(before + seq![pairs[at]], behind);
    law_told_concat(before, seq![pairs[at]]);
    law_told_one(pairs[at]);
    let start = diff::applied_all(Map::<Seq<char>, Seq<u8>>::empty(), told(before));
    let one = seq![(key, Some(text::utf8(value)))];
    assert(told(seq![pairs[at]]) == one);
    assert(told(pairs) == told(before) + one + told(behind));
    diff::law_applied_concat(Map::empty(), told(before) + one, told(behind));
    diff::law_applied_concat(Map::empty(), told(before), one);
    diff::law_last_change_decides(start, one, 0);
    assert forall|i: int| 0 <= i < behind.len() implies !(key + seq!['=']).is_prefix_of(
        #[trigger] behind[i],
    ) by {
        assert(behind[i] == pairs[at + 1 + i]);
    }
    lemma_not_told(behind, key);
    diff::law_applied_frame(diff::applied_all(start, one), told(behind), key);
}

proof fn lemma_not_told(pairs: Seq<Seq<char>>, key: Seq<char>)
    requires
        forall|i: int|
            0 <= i < pairs.len() ==> !(key + seq!['=']).is_prefix_of(#[trigger] pairs[i]),
    ensures
        forall|i: int| 0 <= i < told(pairs).len() ==> (#[trigger] told(pairs)[i]).0 != key,
    decreases pairs.len(),
{
    if pairs.len() > 0 {
        let init = pairs.drop_last();
        let last = pairs.last();
        assert forall|i: int| 0 <= i < init.len() implies !(key + seq!['=']).is_prefix_of(
            #[trigger] init[i],
        ) by {
            assert(init[i] == pairs[i]);
        }
        lemma_not_told(init, key);
        text::lemma_first_index(last, '=');
        let i = text::first_index(last, '=');
        if i < last.len() && last.take(i) == key {
            assert(last.subrange(0, i + 1) =~= key + seq!['=']);
            assert((key + seq!['=']).is_prefix_of(pairs[pairs.len() - 1]));
        }
        assert forall|j: int| 0 <= j < told(pairs).len() implies (#[trigger] told(pairs)[j]).0
            != key by {
            if j < told(init).len() {
                assert(told(pairs)[j] == told(init)[j]);
            }
        }
    }
}

/// Nothing is in the manager's environment that it does not tell of: whatever key
/// has a value, some text of the list is that key and that value.
pub proof fn law_only_told_variables(pairs: Seq<Seq<char>>, key: Seq<char>)
    requires
        diff::applied_all(Map::<Seq<char>, Seq<u8>>::empty(), told(pairs)).contains_key(key),
    ensures
        exists|i: int, value: Seq<char>|
            0 <= i < pairs.len() && #[trigger] pairs[i] == #[trigger] (key + seq!['='] + value)
                && text::utf8(value) == diff::applied_all(
                Map::<Seq<char>, Seq<u8>>::empty(),
                told(pairs),
            )[key],
    decreases pairs.len(),
{
    let env = diff::applied_all(Map::<Seq<char>, Seq<u8>>::empty(), told(pairs));
    if pairs.len() > 0 {
        let init = pairs.drop_last();
        let last = pairs.last();
        let n = pairs.len() - 1;
        text::lemma_first_index(last, '=');
        let i = text::first_index(last, '=');
        if i < last.len() {
            assert(told(pairs).drop_last() =~= told(init));
            assert(last =~= last.take(i) + seq!['='] + last.skip(i + 1));
        }
        if i < last.len() && last.take(i) == key {
            assert(pairs[n] == key + seq!['='] + last.skip(i + 1));
        } else {
            law_only_told_variables(init, key);
            let (j, value) = choose|j: int, value: Seq<char>|
                0 <= j < init.len() && #[trigger] init[j] == #[trigger] (key + seq!['='] + value)
                    && text::utf8(value) == diff::applied_all(
                    Map::<Seq<char>, Seq<u8>>::empty(),
                    told(init),
                )[key];
            assert(pairs[j] == key + seq!['='] + value);
        }
    }
}

/// What the manager is asked for two lists of changes is what it is asked for one
/// after the other, and so is what the user is told of them.
pub proof fn law_passed_concat(
    a: Seq<(Seq<char>, Option<Seq<u8>>)>,
    b: Seq<(Seq<char>, Option<Seq<u8>>)>,
    setting: bool,
)
    ensures
        all_passed(a + b, setting) == all_passed(a, setting) + all_passed(b, setting),
        passed_warnings(a + b) == passed_warnings(a) + passed_warnings(b),
    decreases b.len(),
{
    if b.len() == 0 {
        assert(a + b =~= a);
        assert(all_passed(a, setting) + all_passed(b, setting) =~= all_passed(a, setting));
        assert(passed_warnings(a) + passed_warnings(b) =~= passed_warnings(a));
    } else {
        assert((a + b).drop_last() =~= a + b.drop_last());
        assert((a + b).last() == b.last());
        law_passed_concat(a, b.drop_last(), setting);
        assert(all_passed(a + b, setting) =~= all_passed(a, setting) + all_passed(b, setting));
        assert(passed_warnings(a + b) =~= passed_warnings(a) + passed_warnings(b));
    }
}

/// A change that sets a variable to text is passed as `key=value` among those that
/// set, one that unsets as the key among those that unset, and neither is passed
/// among the others. What is not text is passed nowhere, and the user hears of it.
pub proof fn law_passed_one(key: Seq<char>, value: Seq<u8>)
    ensures
        ({
            let set = seq![(key, Some(value))];
            let unset = seq![(key, None::<Seq<u8>>)];
            &&& all_passed(set, false).len() == 0
            &&& all_passed(unset, true).len() == 0
            &&& all_passed(unset, false) == seq![key]
            &&& passed_warnings(unset).len() == 0
            &&& match text::decoded(value) {
                Some(s) => all_passed(set, true) == seq![key + "="@ + s] && passed_warnings(
                    set,
                ).len() == 0,
                None => all_passed(set, true).len() == 0 && passed_warnings(set) == seq![
                    (warn::Notice {
                        text: text::quoted(
                            "Skipping passing variable "@ + key
                                + " to systemd: could not convert to string"@,
                        ),
                        cause: None,
                    }),
                ],
            }
        }),
{
    let set = seq![(key, Some(value))];
    let unset = seq![(key, None::<Seq<u8>>)];
    assert(set.drop_last() =~= Seq::<(Seq<char>, Option<Seq<u8>>)>::empty());
    assert(unset.drop_last() =~= Seq::<(Seq<char>, Option<Seq<u8>>)>::empty());
    reveal_with_fuel(all_passed, 2);
    reveal_with_fuel(passed_warnings, 2);
    text::law_utf8_round_trip(key);
    text::law_utf8_concat(key, "="@);
    let head = text::utf8(key + "="@);
    assert(passed((key, Some(value))) == text::decoded(head + value));
    match text::decoded(value) {
        Some(s) => {
            text::law_utf8_decoded_encodes(value);
            text::law_utf8_concat(key + "="@, s);
            text::law_utf8_round_trip(key + "="@ + s);
            assert(all_passed(set, true) =~= seq![key + "="@ + s]);
        },
        None => {
            text::lemma_valid_tail(key + "="@, value);
            assert(all_passed(set, true) =~= Seq::empty());
            assert(passed_warnings(set) =~= seq![warn::plain(warn::not_text(key))]);
        },
    }
    assert(all_passed(unset, false) =~= seq![key]);
}

/// What is looked up in the manager's environment is what it holds under that key.
pub proof fn law_lookup(env: SystemdEnvironment, key: Seq<char>)
    ensures
        env.lookup(key) is Some <==> env@.contains_key(key),
        env.lookup(key) matches Some(raw) ==> raw == env@[key],
{
}

} // verus!
