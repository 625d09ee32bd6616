//! Steps on files, and what they come to.
use vstd::prelude::*;

use crate::path;
use crate::path::UnixPath;
use crate::text;

verus! {

/// The permissions of the files that are made: they are their owner's alone.
pub const FILE_MODE: u32 = 0o600;

/// One step on a file or a directory.
pub enum FileStep {
    /// Makes an empty file that must not have been there.
    CreateNew { path: UnixPath },
    /// Makes a file empty, or makes an empty one.
    Truncate { path: UnixPath },
    /// Gives a file a second name, which must not have been there.
    HardLink { from: UnixPath, to: UnixPath },
    /// Writes behind what is in a file.
    Write { path: UnixPath, contents: Vec<u8> },
    /// Removes a file. It is no failure if that is not possible.
    Remove { path: UnixPath },
    /// Makes a directory that must not have been there.
    MakeDir { path: UnixPath },
    /// Removes a directory with all that is in it. It is no failure if that is
    /// not possible.
    RemoveDir { path: UnixPath },
}

/// One step on a file or a directory.
#[verifier::ext_equal]
pub enum StepView {
    CreateNew { path: Seq<u8> },
    Truncate { path: Seq<u8> },
    HardLink { from: Seq<u8>, to: Seq<u8> },
    Write { path: Seq<u8>, contents: Seq<u8> },
    Remove { path: Seq<u8> },
    MakeDir { path: Seq<u8> },
    RemoveDir { path: Seq<u8> },
}

impl View for FileStep {
    type V = StepView;

    open spec fn view(&self) -> StepView {
        match self {
            FileStep::CreateNew { path } => StepView::CreateNew { path: path@ },
            FileStep::Truncate { path } => StepView::Truncate { path: path@ },
            FileStep::HardLink { from, to } => StepView::HardLink { from: from@, to: to@ },
            FileStep::Write { path, contents } => StepView::Write {
                path: path@,
                contents: contents@,
            },
            FileStep::Remove { path } => StepView::Remove { path: path@ },
            FileStep::MakeDir { path } => StepView::MakeDir { path: path@ },
            FileStep::RemoveDir { path } => StepView::RemoveDir { path: path@ },
        }
    }
}

/// What each step of a list is.
pub open spec fn step_views(steps: Seq<FileStep>) -> Seq<StepView> {
    Seq::new(steps.len(), |i: int| steps[i]@)
}

// ---------------------------------------------------------------------------
// What steps come to
// ---------------------------------------------------------------------------
/// What is at a path.
#[verifier::ext_equal]
pub enum Node {
    File(Seq<u8>),
    Dir,
}

/// Whether a path is a directory or lies in it.
pub open spec fn within(dir: Seq<u8>, p: Seq<u8>) -> bool {
    p == dir || exists|name: Seq<u8>|
        name.len() > 0 && name[0] != path::slash() && p == #[trigger] path::joined(dir, name)
}

/// What is at which path after a step; none where the step fails and leaves
/// everything as it was. A second name of a file is taken to hold what the file
/// holds when it gets that name.
///
/// This is all that can be said of the files alone: the system may refuse a step
/// for reasons of its own.
pub open spec fn done(files: Map<Seq<u8>, Node>, step: StepView) -> Option<Map<Seq<u8>, Node>> {
    match step {
        StepView::CreateNew { path } => if files.contains_key(path) {
            None
        } else {
            Some(files.insert(path, Node::File(Seq::empty())))
        },
        StepView::Truncate { path } => if files.contains_key(path) && files[path] is Dir {
            None
        } else {
            Some(files.insert(path, Node::File(Seq::empty())))
        },
        StepView::HardLink { from, to } => if files.contains_key(from) && files[from] is File
            && !files.contains_key(to) {
            Some(files.insert(to, files[from]))
        } else {
            None
        },
        StepView::Write { path, contents } => if files.contains_key(path) && files[path] is File {
            Some(files.insert(path, Node::File(files[path]->0 + contents)))
        } else {
            None
        },
        StepView::Remove { path } => if files.contains_key(path) && files[path] is File {
            Some(files.remove(path))
        } else {
            Some(files)
        },
        StepView::MakeDir { path } => if files.contains_key(path) {
            None
        } else {
            Some(files.insert(path, Node::Dir))
        },
        StepView::RemoveDir { path } => Some(
            Map::new(
                |p: Seq<u8>| files.contains_key(p) && !within(path, p),
                |p: Seq<u8>| files[p],
            ),
        ),
    }
}

/// What is at which path after a list of steps that is given up at the first
/// one that fails, and whether all of them were made.
pub open spec fn performed(files: Map<Seq<u8>, Node>, steps: Seq<StepView>) -> (
    Map<Seq<u8>, Node>,
    bool,
)
    decreases steps.len(),
{
    if steps.len() == 0 {
        (files, true)
    } else {
        match done(files, steps[0]) {
            Some(next) => performed(next, steps.drop_first()),
            None => (files, false),
        }
    }
}

// ---------------------------------------------------------------------------
// Laws
// ---------------------------------------------------------------------------
/// Steps that are made one list after the other come to the steps of both lists
/// together.
pub proof fn law_performed_concat(
    files: Map<Seq<u8>, Node>,
    a: Seq<StepView>,
    b: Seq<StepView>,
)
    ensures
        performed(files, a + b) == (if performed(files, a).1 {
            performed(performed(files, a).0, b)
        } else {
            performed(files, a)
        }),
    decreases a.len(),
{
    if a.len() == 0 {
        assert(a + b =~= b);
    } else {
        assert((a + b).drop_first() =~= a.drop_first() + b);
        match done(files, a[0]) {
            Some(next) => {
                law_performed_concat(next, a.drop_first(), b);
            },
            None => {},
        }
    }
}

/// A directory lasts until it is removed, whatever else is done.
pub proof fn law_directory_lasts(
    files: Map<Seq<u8>, Node>,
    steps: Seq<StepView>,
    dir: Seq<u8>,
)
    requires
        files.contains_key(dir),
        files[dir] is Dir,
        forall|i: int| 0 <= i < steps.len() ==> !(#[trigger] steps[i] is RemoveDir),
    ensures
        performed(files, steps).0.contains_key(dir),
        performed(files, steps).0[dir] is Dir,
    decreases steps.len(),
{
    if steps.len() > 0 {
        assert(!(steps[0] is RemoveDir));
        match done(files, steps[0]) {
            Some(next) => {
                let rest = steps.drop_first();
                assert forall|i: int| 0 <= i < rest.len() implies !(#[trigger] rest[i] is RemoveDir)
                    by {
                    assert(rest[i] == steps[i + 1]);
                }
                law_directory_lasts(next, rest, dir);
            },
            None => {},
        }
    }
}

/// Nothing is left of a directory that was removed.
pub proof fn law_directory_goes(files: Map<Seq<u8>, Node>, dir: Seq<u8>, name: Seq<u8>)
    requires
        name.len() > 0,
        name[0] != path::slash(),
    ensures
        done(files, StepView::RemoveDir { path: dir }) matches Some(after) && !after.contains_key(
            dir,
        ) && !after.contains_key(path::joined(dir, name)),
{
    assert(within(dir, path::joined(dir, name)));
}

/// What a list of steps is is what each of them is, in order.
pub proof fn law_step_views(steps: Seq<FileStep>)
    ensures
        step_views(steps).len() == steps.len(),
        forall|i: int|
            0 <= i < steps.len() ==> match #[trigger] steps[i] {
                FileStep::CreateNew { path } => step_views(steps)[i] == (StepView::CreateNew {
                    path: path@,
                }),
                FileStep::Truncate { path } => step_views(steps)[i] == (StepView::Truncate {
                    path: path@,
                }),
                FileStep::HardLink { from, to } => step_views(steps)[i] == (StepView::HardLink {
                    from: from@,
                    to: to@,
                }),
                FileStep::Write { path, contents } => step_views(steps)[i] == (StepView::Write {
                    path: path@,
                    contents: contents@,
                }),
                FileStep::Remove { path } => step_views(steps)[i] == (StepView::Remove {
                    path: path@,
                }),
                FileStep::MakeDir { path } => step_views(steps)[i] == (StepView::MakeDir {
                    path: path@,
                }),
                FileStep::RemoveDir { path } => step_views(steps)[i] == (StepView::RemoveDir {
                    path: path@,
                }),
            },
{
}

/// Files are their owner's alone: others may neither read nor write them, and nobody
/// may execute them.
pub proof fn law_file_mode()
    ensures
        FILE_MODE % 64 == 0,
        FILE_MODE / 64 == 6,
{
}

} // verus!
