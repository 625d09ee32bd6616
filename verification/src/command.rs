//! Commands that are to be run.
use vstd::prelude::*;

use crate::env::diff;
use crate::env::diff::Entry;
use crate::env::parse::EnvironmentVariable;
use crate::path::UnixPath;
use crate::text;
use crate::views;

verus! {

/// A program with its arguments and its surroundings.
pub struct CommandLine {
    pub program: UnixPath,
    pub args: Vec<Vec<u8>>,
    /// The changes that are made to the environment which the child inherits.
    pub env: Vec<Entry>,
    /// Where to run the program, if not here.
    pub current_dir: Option<UnixPath>,
    /// Whether the standard output is thrown away.
    pub silent: bool,
    /// Whether the child is killed when its parent ends.
    pub cleanup: bool,
}

/// What a command says.
#[verifier::ext_equal]
pub struct CommandView {
    pub program: Seq<u8>,
    pub args: Seq<Seq<u8>>,
    pub env: Seq<(Seq<char>, Option<Seq<u8>>)>,
    pub current_dir: Option<Seq<u8>>,
    pub silent: bool,
    pub cleanup: bool,
}

impl View for CommandLine {
    type V = CommandView;

    open spec fn view(&self) -> CommandView {
        CommandView {
            program: self.program@,
            args: text::blobs(self.args@),
            env: diff::entry_views(self.env@),
            current_dir: views::viewed(self.current_dir),
            silent: self.silent,
            cleanup: self.cleanup,
        }
    }
}

/// A program by itself.
pub open spec fn bare(program: Seq<u8>) -> CommandView {
    CommandView {
        program,
        args: Seq::empty(),
        env: Seq::empty(),
        current_dir: None,
        silent: false,
        cleanup: false,
    }
}

/// A program with arguments.
pub open spec fn with_args(program: Seq<u8>, args: Seq<Seq<u8>>) -> CommandView {
    CommandView { args, ..bare(program) }
}

/// The bytes of each text of a list.
pub open spec fn words(texts: Seq<Seq<char>>) -> Seq<Seq<u8>> {
    Seq::new(texts.len(), |i: int| text::utf8(texts[i]))
}

/// The change that sets a typed variable.
pub open spec fn setting<T: EnvironmentVariable>(value: T::V) -> (Seq<char>, Option<Seq<u8>>) {
    (T::key_text(), Some(T::serialized(value)))
}

/// The change that unsets a typed variable.
pub open spec fn unsetting<T: EnvironmentVariable>() -> (Seq<char>, Option<Seq<u8>>) {
    (T::key_text(), None)
}

impl CommandLine {
    /// A program by itself.
    pub fn new(program: UnixPath) -> (r: Self)
        ensures
            r@ == bare(program@),
    {
        let r = CommandLine {
            program,
            args: Vec::new(),
            env: Vec::new(),
            current_dir: None,
            silent: false,
            cleanup: false,
        };
        assert(r@ =~= bare(program@));
        r
    }

    /// One more argument.
    pub fn arg_bytes(&mut self, arg: Vec<u8>)
        ensures
            final(self)@ == (CommandView { args: old(self)@.args.push(arg@), ..old(self)@ }),
    {
        self.args.push(arg);
        assert(self@.args =~= old(self)@.args.push(arg@));
        assert(self@ =~= (CommandView { args: old(self)@.args.push(arg@), ..old(self)@ }));
    }

    /// One more argument.
    pub fn arg(&mut self, arg: &str)
        ensures
            final(self)@ == (CommandView {
                args: old(self)@.args.push(text::utf8(arg@)),
                ..old(self)@
            }),
    {
        self.arg_bytes(text::bytes_of(arg));
    }

    /// More arguments.
    pub fn args(&mut self, args: &Vec<String>)
        ensures
            final(self)@ == (CommandView {
                args: old(self)@.args + words(text::texts(args@)),
                ..old(self)@
            }),
    {
        let ghost all = words(text::texts(args@));
        let mut i: usize = 0;
        assert(self@.args =~= old(self)@.args + all.take(0));
        while i < args.len()
            invariant
                i <= args@.len(),
                all == words(text::texts(args@)),
                self@ == (CommandView { args: old(self)@.args + all.take(i as int), ..old(self)@ }),
            decreases args@.len() - i,
        {
            let ghost before = self@.args;
            self.arg(args[i].as_str());
            i = i + 1;
            assert(all.take(i as int) =~= all.take(i - 1).push(all[i - 1]));
            assert(self@.args =~= old(self)@.args + all.take(i as int));
        }
        assert(all.take(i as int) =~= all);
    }

    /// What is explicitly set or unset for the child: one change for each key.
    pub fn get_envs(&self) -> (r: Vec<Entry>)
        ensures
            diff::entry_views(r@) == diff::settled(self@.env),
    {
        diff::settle(&self.env)
    }

    /// Makes more changes to the environment, behind those there are.
    pub fn apply(&mut self, entries: &Vec<Entry>)
        ensures
            final(self)@ == (CommandView {
                env: old(self)@.env + diff::entry_views(entries@),
                ..old(self)@
            }),
    {
        diff::extend(&mut self.env, entries);
    }

    /// Makes one more change to the environment.
    pub fn apply_entry(&mut self, entry: Entry)
        ensures
            final(self)@ == (CommandView { env: old(self)@.env.push(entry@), ..old(self)@ }),
    {
        self.env.push(entry);
        assert(self@.env =~= old(self)@.env.push(entry@));
        assert(self@ =~= (CommandView { env: old(self)@.env.push(entry@), ..old(self)@ }));
    }

    /// Sets a typed variable.
    pub fn set<T: EnvironmentVariable>(&mut self, value: T)
        ensures
            final(self)@ == (CommandView {
                env: old(self)@.env.push(setting::<T>(value@)),
                ..old(self)@
            }),
    {
        self.apply_entry(Entry::Assign { key: T::key().to_owned(), value: value.env_serialize() });
    }

    /// Unsets a typed variable.
    pub fn unset<T: EnvironmentVariable>(&mut self)
        ensures
            final(self)@ == (CommandView {
                env: old(self)@.env.push(unsetting::<T>()),
                ..old(self)@
            }),
    {
        self.apply_entry(Entry::Unset { key: T::key().to_owned() });
    }
}

/// Ending with the parent.
pub trait CleanupExt: View<V = CommandView> + Sized {
    /// The same command, whose child is killed when its parent ends.
    fn with_cleanup(self) -> (r: Self)
        ensures
            r@ == (CommandView { cleanup: true, ..self@ }),
    ;
}

impl CleanupExt for CommandLine {
    fn with_cleanup(self) -> (r: Self) {
        let mut r = self;
        r.cleanup = true;
        r
    }
}

/// Texts become arguments one by one, each as its UTF-8 form.
pub proof fn law_words(texts: Seq<Seq<char>>)
    ensures
        words(texts).len() == texts.len(),
        forall|i: int|
            0 <= i < texts.len() ==> text::decoded(#[trigger] words(texts)[i]) == Some(texts[i]),
{
    assert forall|i: int| 0 <= i < texts.len() implies text::decoded(#[trigger] words(texts)[i])
        == Some(texts[i]) by {
        text::law_utf8_round_trip(texts[i]);
    }
}

/// A program by itself has no arguments, inherits its environment as it is and is run
/// where its parent is; arguments change nothing else.
pub proof fn law_bare(program: Seq<u8>, args: Seq<Seq<u8>>)
    ensures
        bare(program).program == program,
        bare(program).args.len() == 0,
        bare(program).env.len() == 0,
        bare(program).current_dir is None,
        !bare(program).silent,
        !bare(program).cleanup,
        with_args(program, args) == (CommandView { args, ..bare(program) }),
{
}

} // verus!
