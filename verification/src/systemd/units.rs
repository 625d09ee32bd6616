//! Units that the service manager runs for a while.
use vstd::prelude::*;

use crate::command::CommandLine;
use crate::env::diff;
use crate::env::diff::Entry;
use crate::table::Table;
use crate::text;

verus! {

/// How a unit is started among those that run.
#[derive(Clone, Copy, PartialEq, Eq, Structural, Debug)]
pub enum UnitMode {
    /// On conflict, replace already running jobs.
    Replace,
    /// On conflict, fail.
    Fail,
    /// Terminate all units that are not dependencies of this unit.
    Isolate,
    /// Start without dependencies.
    IgnoreDependencies,
    /// Start without `requirement` dependencies.
    IgnoreRequirements,
}

/// What the manager calls a mode.
pub open spec fn mode_name(mode: UnitMode) -> Seq<char> {
    match mode {
        UnitMode::Replace => "replace"@,
        UnitMode::Fail => "fail"@,
        UnitMode::Isolate => "isolate"@,
        UnitMode::IgnoreDependencies => "ignore-dependencies"@,
        UnitMode::IgnoreRequirements => "ignore-requirements"@,
    }
}

impl UnitMode {
    /// What the manager calls the mode.
    pub fn as_str(self) -> (r: &'static str)
        ensures
            r@ == mode_name(self),
    {
        match self {
            UnitMode::Replace => "replace",
            UnitMode::Fail => "fail",
            UnitMode::Isolate => "isolate",
            UnitMode::IgnoreDependencies => "ignore-dependencies",
            UnitMode::IgnoreRequirements => "ignore-requirements",
        }
    }
}

/// The value of a property.
pub enum PropertyValue {
    Text(String),
    List(Vec<String>),
}

/// The value of a property.
#[verifier::ext_equal]
pub enum PropertyView {
    Text(Seq<char>),
    List(Seq<Seq<char>>),
}

impl View for PropertyValue {
    type V = PropertyView;

    open spec fn view(&self) -> PropertyView {
        match self {
            PropertyValue::Text(s) => PropertyView::Text(s@),
            PropertyValue::List(list) => PropertyView::List(text::texts(list@)),
        }
    }
}

/// Why a unit cannot be defined.
#[derive(Clone, Copy, PartialEq, Eq, Structural, Debug)]
pub enum UnitError {
    /// The value of a variable is not text.
    VariableNotText,
    /// The name of the working directory is not text.
    WorkdirNotText,
}

/// The properties of a unit.
pub struct UnitDefinition {
    inner: Table<PropertyValue>,
}

impl View for UnitDefinition {
    type V = Map<Seq<char>, PropertyView>;

    closed spec fn view(&self) -> Map<Seq<char>, PropertyView> {
        self.inner@
    }
}

/// The variables that a list of changes sets, each as `key=value`.
pub open spec fn set_variables(entries: Seq<(Seq<char>, Option<Seq<u8>>)>) -> Seq<Seq<char>>
    decreases entries.len(),
{
    if entries.len() == 0 {
        Seq::empty()
    } else {
        match entries.last().1 {
            Some(value) => set_variables(entries.drop_last()).push(
                entries.last().0 + "="@ + text::decoded(value)->0,
            ),
            None => set_variables(entries.drop_last()),
        }
    }
}

/// The variables that a list of changes unsets.
pub open spec fn unset_variables(entries: Seq<(Seq<char>, Option<Seq<u8>>)>) -> Seq<Seq<char>>
    decreases entries.len(),
{
    if entries.len() == 0 {
        Seq::empty()
    } else {
        match entries.last().1 {
            Some(_) => unset_variables(entries.drop_last()),
            None => unset_variables(entries.drop_last()).push(entries.last().0),
        }
    }
}

/// Whether every value that a list of changes sets is text.
pub open spec fn all_text(entries: Seq<(Seq<char>, Option<Seq<u8>>)>) -> bool {
    forall|i: int|
        0 <= i < entries.len() ==> ((#[trigger] entries[i]).1 matches Some(value) ==> text::decoded(
            value,
        ) is Some)
}

/// The properties of a unit with the given environment.
pub open spec fn with_environment(
    properties: Map<Seq<char>, PropertyView>,
    entries: Seq<(Seq<char>, Option<Seq<u8>>)>,
) -> Map<Seq<char>, PropertyView> {
    properties.insert("ENVIRONMENT"@, PropertyView::List(set_variables(entries))).insert(
        "UNSET_ENVIRONMENT"@,
        PropertyView::List(unset_variables(entries)),
    )
}

impl UnitDefinition {
    /// Whether no property is set twice.
    pub closed spec fn well_formed(&self) -> bool {
        self.inner.well_formed()
    }

    /// A unit without properties.
    pub fn new() -> (r: Self)
        ensures
            r.well_formed(),
            r@ == Map::<Seq<char>, PropertyView>::empty(),
    {
        UnitDefinition { inner: Table::new() }
    }

    /// Sets a property, in place of what it was.
    pub fn set(&mut self, property: &str, value: PropertyValue)
        requires
            old(self).well_formed(),
        ensures
            final(self).well_formed(),
            final(self)@ == old(self)@.insert(property@, value@),
    {
        self.inner.insert(property.to_owned(), value);
    }

    /// Sets the environment that the unit runs in.
    pub fn environment(&mut self, env: &Vec<Entry>) -> (r: Result<(), UnitError>)
        requires
            old(self).well_formed(),
        ensures
            final(self).well_formed(),
            match r {
                Ok(_) => {
                    &&& all_text(diff::entry_views(env@))
                    &&& final(self)@ == with_environment(old(self)@, diff::entry_views(env@))
                },
                Err(e) => {
                    &&& !all_text(diff::entry_views(env@))
                    &&& e == UnitError::VariableNotText
                    &&& final(self)@ == old(self)@
                },
            },
    {
        let ghost all = diff::entry_views(env@);
        let mut set: Vec<String> = Vec::new();
        let mut unset: Vec<String> = Vec::new();
        let mut i: usize = 0;
        assert(text::texts(set@) =~= set_variables(all.take(0)));
        assert(text::texts(unset@) =~= unset_variables(all.take(0)));
        while i < env.len()
            invariant
                i <= env@.len(),
                all == diff::entry_views(env@),
                forall|j: int|
                    0 <= j < i ==> ((#[trigger] all[j]).1 matches Some(value) ==> text::decoded(
                        value,
                    ) is Some),
                text::texts(set@) == set_variables(all.take(i as int)),
                text::texts(unset@) == unset_variables(all.take(i as int)),
                self.well_formed(),
                self@ == old(self)@,
            decreases env@.len() - i,
        {
            assert(all.take(i + 1).drop_last() =~= all.take(i as int));
            assert(all.take(i + 1).last() == all[i as int]);
            match &env[i] {
                Entry::Assign { key, value } => {
                    let value = match text::from_utf8(text::copy(value)) {
                        Some(value) => value,
                        None => {
                            assert(all[i as int].1 is Some);
                            return Err(UnitError::VariableNotText);
                        },
                    };
                    let ghost before = set@;
                    let head = text::concat(key.as_str(), "=");
                    let pair = text::concat(head.as_str(), value.as_str());
                    let ghost pushed = pair@;
                    set.push(pair);
                    assert(text::texts(set@) =~= text::texts(before).push(pushed));
                },
                Entry::Unset { key } => {
                    let ghost before = unset@;
                    unset.push(key.clone());
                    assert(text::texts(unset@) =~= text::texts(before).push(key@));
                },
            }
            i = i + 1;
        }
        assert(all.take(i as int) =~= all);
        self.set("ENVIRONMENT", PropertyValue::List(set));
        self.set("UNSET_ENVIRONMENT", PropertyValue::List(unset));
        Ok(())
    }

    /// Sets the directory that the unit runs in.
    pub fn workdir(&mut self, v: &str)
        requires
            old(self).well_formed(),
        ensures
            final(self).well_formed(),
            final(self)@ == old(self)@.insert("WorkingDirectory"@, PropertyView::Text(v@)),
    {
        self.set("WorkingDirectory", PropertyValue::Text(v.to_owned()));
    }

    /// The unit that runs in the surroundings of a command.
    pub fn from_command(command: &CommandLine) -> (r: Result<Self, UnitError>)
        ensures
            match r {
                Ok(definition) => {
                    &&& definition.well_formed()
                    &&& all_text(diff::settled(command@.env))
                    &&& match command@.current_dir {
                        Some(dir) => {
                            &&& text::decoded(dir) is Some
                            &&& definition@ == with_environment(
                                Map::empty(),
                                diff::settled(command@.env),
                            ).insert(
                                "WorkingDirectory"@,
                                PropertyView::Text(text::decoded(dir)->0),
                            )
                        },
                        None => definition@ == with_environment(
                            Map::empty(),
                            diff::settled(command@.env),
                        ),
                    }
                },
                Err(UnitError::VariableNotText) => !all_text(diff::settled(command@.env)),
                Err(UnitError::WorkdirNotText) => {
                    &&& all_text(diff::settled(command@.env))
                    &&& command@.current_dir matches Some(dir) && text::decoded(dir) is None
                },
            },
    {
        let mut definition = Self::new();
        match definition.environment(&command.get_envs()) {
            Ok(_) => {},
            Err(e) => {
                return Err(e);
            },
        }
        match &command.current_dir {
            Some(dir) => match text::from_utf8(text::copy(&dir.bytes)) {
                Some(value) => {
                    definition.workdir(value.as_str());
                },
                None => {
                    return Err(UnitError::WorkdirNotText);
                },
            },
            None => {},
        }
        Ok(definition)
    }

    /// The properties, each once.
    pub fn into_properties(self) -> (r: Vec<(String, PropertyValue)>)
        requires
            self.well_formed(),
        ensures
            forall|i: int|
                0 <= i < r@.len() ==> self@.contains_key((#[trigger] r@[i]).0@)
                    && self@[r@[i].0@] == r@[i].1@,
            forall|key: Seq<char>| #[trigger]
                self@.contains_key(key) ==> exists|i: int|
                    0 <= i < r@.len() && (#[trigger] r@[i]).0@ == key,
            forall|i: int, j: int|
                #![trigger r@[i], r@[j]]
                0 <= i < j < r@.len() ==> r@[i].0@ != r@[j].0@,
    {
        self.inner.into_entries()
    }
}

/// What the manager is asked in order to start a unit.
pub struct UnitRequest {
    pub name: String,
    pub mode: &'static str,
    pub definition: UnitDefinition,
}

/// What the manager is asked in order to start a unit that must not be there
/// yet.
pub fn transient_unit(name: &str, definition: UnitDefinition) -> (r: UnitRequest)
    ensures
        r.name@ == name@,
        r.mode@ == mode_name(UnitMode::Fail),
        r.definition == definition,
{
    UnitRequest { name: name.to_owned(), mode: UnitMode::Fail.as_str(), definition }
}

// ---------------------------------------------------------------------------
// Laws
// ---------------------------------------------------------------------------
/// What the manager calls the modes.
pub proof fn law_mode_names()
    ensures
        mode_name(UnitMode::Replace) == "replace"@,
        mode_name(UnitMode::Fail) == "fail"@,
        mode_name(UnitMode::Isolate) == "isolate"@,
        mode_name(UnitMode::IgnoreDependencies) == "ignore-dependencies"@,
        mode_name(UnitMode::IgnoreRequirements) == "ignore-requirements"@,
{
}

/// The variables that two lists of changes set and unset are those of one after
/// those of the other. A change that sets a variable is told as `key=value` and
/// unsets nothing; one that unsets is told by its key and sets nothing.
pub proof fn law_variables_concat(
    a: Seq<(Seq<char>, Option<Seq<u8>>)>,
    b: Seq<(Seq<char>, Option<Seq<u8>>)>,
    key: Seq<char>,
    value: Seq<char>,
)
    ensures
        set_variables(a + b) == set_variables(a) + set_variables(b),
        unset_variables(a + b) == unset_variables(a) + unset_variables(b),
        set_variables(seq![(key, Some(text::utf8(value)))]) == seq![key + "="@ + value],
        unset_variables(seq![(key, Some(text::utf8(value)))]).len() == 0,
        set_variables(seq![(key, None::<Seq<u8>>)]).len() == 0,
        unset_variables(seq![(key, None::<Seq<u8>>)]) == seq![key],
    decreases b.len(),
{
    reveal_with_fuel(set_variables, 2);
    reveal_with_fuel(unset_variables, 2);
    let set = seq![(key, Some(text::utf8(value)))];
    let unset = seq![(key, None::<Seq<u8>>)];
    assert(set.drop_last() =~= Seq::<(Seq<char>, Option<Seq<u8>>)>::empty());
    assert(unset.drop_last() =~= Seq::<(Seq<char>, Option<Seq<u8>>)>::empty());
    text::law_utf8_round_trip(value);
    assert(set_variables(set) =~= seq![key + "="@ + value]);
    assert(unset_variables(unset) =~= seq![key]);
    if b.len() == 0 {
        assert(a + b =~= a);
        assert(set_variables(a) + set_variables(b) =~= set_variables(a));
        assert(unset_variables(a) + unset_variables(b) =~= unset_variables(a));
    } else {
        assert((a + b).drop_last() =~= a + b.drop_last());
        assert((a + b).last() == b.last());
        law_variables_concat(a, b.drop_last(), key, value);
        assert(set_variables(a + b) =~= set_variables(a) + set_variables(b));
        assert(unset_variables(a + b) =~= unset_variables(a) + unset_variables(b));
    }
}

/// The environment of a unit is two of its properties; the others stay as they were.
pub proof fn law_environment_properties(
    properties: Map<Seq<char>, PropertyView>,
    entries: Seq<(Seq<char>, Option<Seq<u8>>)>,
    other: Seq<char>,
)
    ensures
        ({
            let all = with_environment(properties, entries);
            &&& all.contains_key("ENVIRONMENT"@)
            &&& all["ENVIRONMENT"@] == PropertyView::List(set_variables(entries))
            &&& all.contains_key("UNSET_ENVIRONMENT"@)
            &&& all["UNSET_ENVIRONMENT"@] == PropertyView::List(unset_variables(entries))
            &&& other != "ENVIRONMENT"@ && other != "UNSET_ENVIRONMENT"@ ==> all.contains_key(
                other,
            ) == properties.contains_key(other) && (properties.contains_key(other) ==> all[other]
                == properties[other])
        }),
{
    reveal_strlit("ENVIRONMENT");
    reveal_strlit("UNSET_ENVIRONMENT");
    assert("ENVIRONMENT"@.len() == 11);
    assert("UNSET_ENVIRONMENT"@.len() == 17);
}

/// A list of changes is text exactly where each value that it sets is.
pub proof fn law_all_text(
    a: Seq<(Seq<char>, Option<Seq<u8>>)>,
    b: Seq<(Seq<char>, Option<Seq<u8>>)>,
    key: Seq<char>,
    value: Seq<u8>,
)
    ensures
        all_text(a + b) <==> all_text(a) && all_text(b),
        all_text(seq![(key, Some(value))]) <==> text::decoded(value) is Some,
        all_text(seq![(key, None::<Seq<u8>>)]),
{
    let both = a + b;
    if all_text(both) {
        assert forall|i: int| 0 <= i < a.len() implies ((#[trigger] a[i]).1 matches Some(value)
            ==> text::decoded(value) is Some) by {
            assert(both[i] == a[i]);
        }
        assert forall|i: int| 0 <= i < b.len() implies ((#[trigger] b[i]).1 matches Some(value)
            ==> text::decoded(value) is Some) by {
            assert(both[a.len() + i] == b[i]);
        }
    }
    if all_text(a) && all_text(b) {
        assert forall|i: int| 0 <= i < both.len() implies ((#[trigger] both[i]).1 matches Some(
            value,
        ) ==> text::decoded(value) is Some) by {
            if i < a.len() {
                assert(both[i] == a[i]);
            } else {
                assert(both[i] == b[i - a.len()]);
            }
        }
    }
    let one = seq![(key, Some(value))];
    assert(one[0].1 == Some(value));
}

} // verus!
