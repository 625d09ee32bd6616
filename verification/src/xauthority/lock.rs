//! The lock of an Xauthority file.
//!
//! A lock is two files beside the one it is for: a file that must not have
//! existed before, and a hard link to it.
use vstd::prelude::*;

use crate::files;
use crate::files::FileStep;
use crate::files::Node;
use crate::files::StepView;
use crate::path;
use crate::path::UnixPath;
use crate::text;

verus! {

/// Why a file cannot be locked.
#[derive(Clone, Copy, PartialEq, Eq, Structural, Debug)]
pub enum LockError {
    /// The path does not end with a file.
    NoFileName,
    /// The file name is not valid UTF-8.
    FileNameNotText,
}

/// The two files of a lock.
pub struct Lock {
    /// The file that is created.
    pub creat_path: UnixPath,
    /// The hard link to it.
    pub link_path: UnixPath,
}

/// The name of the file that is created: `-c` stands behind the file name.
pub open spec fn creat_name(name: Seq<u8>) -> Seq<u8> {
    name + seq![45u8, 99u8]
}

/// The name of the hard link: `-l` stands behind the file name.
pub open spec fn link_name(name: Seq<u8>) -> Seq<u8> {
    name + seq![45u8, 108u8]
}

/// Why a file at a path cannot be locked.
pub open spec fn lock_failure(xauth_path: Seq<u8>) -> Option<LockError> {
    match path::file_name_of(xauth_path) {
        None => Some(LockError::NoFileName),
        Some(name) => if text::decoded(name) is None {
            Some(LockError::FileNameNotText)
        } else {
            None
        },
    }
}

/// Whether a lock is the one for a path.
pub open spec fn is_lock_for(lock: Lock, xauth_path: Seq<u8>) -> bool {
    let name = path::file_name_of(xauth_path)->0;
    &&& lock.creat_path@ == path::with_file_name_of(xauth_path, creat_name(name))
    &&& lock.link_path@ == path::with_file_name_of(xauth_path, link_name(name))
}

impl Lock {
    /// The lock for the file at a path.
    pub fn aqquire(xauth_path: &UnixPath) -> (r: Result<Self, LockError>)
        ensures
            match r {
                Ok(lock) => lock_failure(xauth_path@) is None && is_lock_for(lock, xauth_path@),
                Err(e) => lock_failure(xauth_path@) == Some(e),
            },
    {
        let filename = match xauth_path.file_name() {
            Some(filename) => filename,
            None => {
                return Err(LockError::NoFileName);
            },
        };
        if text::from_utf8(text::copy(&filename)).is_none() {
            return Err(LockError::FileNameNotText);
        }
        let mut creat = text::copy(&filename);
        creat.push(45);
        creat.push(99);
        assert(creat@ =~= creat_name(filename@));
        let mut link = filename;
        link.push(45);
        link.push(108);
        assert(link@ =~= link_name(path::file_name_of(xauth_path@)->0));
        Ok(
            Lock {
                creat_path: xauth_path.with_file_name(&creat),
                link_path: xauth_path.with_file_name(&link),
            },
        )
    }
}

/// The steps that take a lock: one file is created, and gets a second name.
pub open spec fn taking(lock: Lock) -> Seq<StepView> {
    seq![
        StepView::CreateNew { path: lock.creat_path@ },
        StepView::HardLink { from: lock.creat_path@, to: lock.link_path@ },
    ]
}

/// The steps that release a lock: both names go.
pub open spec fn releasing(lock: Lock) -> Seq<StepView> {
    seq![
        StepView::Remove { path: lock.creat_path@ },
        StepView::Remove { path: lock.link_path@ },
    ]
}

impl Lock {
    /// The steps that take the lock.
    pub fn take(&self) -> (r: Vec<FileStep>)
        ensures
            files::step_views(r@) == taking(*self),
    {
        let mut r: Vec<FileStep> = Vec::new();
        r.push(FileStep::CreateNew { path: self.creat_path.clone() });
        r.push(
            FileStep::HardLink { from: self.creat_path.clone(), to: self.link_path.clone() },
        );
        assert(files::step_views(r@) =~= taking(*self));
        r
    }

    /// The steps that release the lock.
    pub fn release(&self) -> (r: Vec<FileStep>)
        ensures
            files::step_views(r@) == releasing(*self),
    {
        let mut r: Vec<FileStep> = Vec::new();
        r.push(FileStep::Remove { path: self.creat_path.clone() });
        r.push(FileStep::Remove { path: self.link_path.clone() });
        assert(files::step_views(r@) =~= releasing(*self));
        r
    }
}

/// Taking a lock makes its two files and changes nothing else; it fails where the
/// first of them is there.
pub proof fn lemma_taking(files: Map<Seq<u8>, Node>, xauth_path: Seq<u8>, lock: Lock)
    requires
        lock_failure(xauth_path) is None,
        is_lock_for(lock, xauth_path),
    ensures
        files.contains_key(lock.creat_path@) ==> files::performed(files, taking(lock)) == (
            files,
            false,
        ),
        files::performed(files, taking(lock)).1 == (!files.contains_key(lock.creat_path@)
            && !files.contains_key(lock.link_path@)),
        files::performed(files, taking(lock)).1 ==> files::performed(files, taking(lock)).0
            == files.insert(lock.creat_path@, Node::File(Seq::empty())).insert(
            lock.link_path@,
            Node::File(Seq::empty()),
        ),
{
    law_lock_files(xauth_path, lock);
    let steps = taking(lock);
    reveal_with_fuel(files::performed, 3);
    assert(steps.drop_first() =~= seq![steps[1]]);
    assert(steps.drop_first().drop_first() =~= Seq::<StepView>::empty());
}

/// Releasing a lock removes its two files, if they are files, and changes
/// nothing else.
pub proof fn lemma_releasing(files: Map<Seq<u8>, Node>, xauth_path: Seq<u8>, lock: Lock)
    requires
        lock_failure(xauth_path) is None,
        is_lock_for(lock, xauth_path),
        files.contains_key(lock.creat_path@),
        files[lock.creat_path@] is File,
        files.contains_key(lock.link_path@),
        files[lock.link_path@] is File,
    ensures
        files::performed(files, releasing(lock)) == (
            files.remove(lock.creat_path@).remove(lock.link_path@),
            true,
        ),
{
    law_lock_files(xauth_path, lock);
    let steps = releasing(lock);
    reveal_with_fuel(files::performed, 3);
    assert(steps.drop_first() =~= seq![steps[1]]);
    assert(steps.drop_first().drop_first() =~= Seq::<StepView>::empty());
}

/// A lock excludes others for as long as it is held. While its files are there,
/// whatever else has changed in the meantime (`later`), the file cannot be locked
/// again and the attempt leaves everything as it was. Releasing the lock puts
/// things back to what they were, and the file can be locked again. The locked
/// file itself is never touched.
pub proof fn law_lock_excludes(
    files: Map<Seq<u8>, Node>,
    later: Map<Seq<u8>, Node>,
    xauth_path: Seq<u8>,
    lock: Lock,
    other: Lock,
)
    requires
        lock_failure(xauth_path) is None,
        is_lock_for(lock, xauth_path),
        is_lock_for(other, xauth_path),
        files::performed(files, taking(lock)).1,
        later.contains_key(lock.creat_path@),
    ensures
        ({
            let held = files::performed(files, taking(lock)).0;
            let released = files::performed(held, releasing(lock)).0;
            &&& held.contains_key(lock.creat_path@)
            &&& held.contains_key(lock.link_path@)
            &&& held.contains_key(xauth_path) == files.contains_key(xauth_path)
            &&& held.contains_key(xauth_path) ==> held[xauth_path] == files[xauth_path]
            &&& files::performed(later, taking(other)) == (later, false)
            &&& files::performed(held, taking(other)) == (held, false)
            &&& !released.contains_key(lock.creat_path@)
            &&& !released.contains_key(lock.link_path@)
            &&& released == files
            &&& files::performed(released, taking(other)).1
        }),
{
    law_lock_files(xauth_path, lock);
    lemma_taking(files, xauth_path, lock);
    let held = files::performed(files, taking(lock)).0;
    lemma_taking(later, xauth_path, other);
    lemma_taking(held, xauth_path, other);
    lemma_releasing(held, xauth_path, lock);
    assert(files::performed(held, releasing(lock)).0 =~= files);
    lemma_taking(files, xauth_path, other);
}

/// The two files of a lock are different files beside the file that is locked,
/// and neither of them is that file.
pub proof fn law_lock_files(xauth_path: Seq<u8>, lock: Lock)
    requires
        lock_failure(xauth_path) is None,
        is_lock_for(lock, xauth_path),
    ensures
        lock.creat_path@ != lock.link_path@,
        lock.creat_path@ != xauth_path,
        lock.link_path@ != xauth_path,
        path::parent_of(lock.creat_path@) == path::parent_of(xauth_path),
        path::parent_of(lock.link_path@) == path::parent_of(xauth_path),
{
    let name = path::file_name_of(xauth_path)->0;
    path::lemma_file_name(xauth_path);
    let c = creat_name(name);
    let l = link_name(name);
    assert(!c.contains(path::slash())) by {
        if c.contains(path::slash()) {
            let i = choose|i: int| 0 <= i < c.len() && c[i] == path::slash();
            if i < name.len() {
                assert(name[i] == path::slash());
            }
        }
    }
    assert(!l.contains(path::slash())) by {
        if l.contains(path::slash()) {
            let i = choose|i: int| 0 <= i < l.len() && l[i] == path::slash();
            if i < name.len() {
                assert(name[i] == path::slash());
            }
        }
    }
    assert(c.last() == 99u8);
    assert(l.last() == 108u8);
    path::law_with_file_name(xauth_path, c);
    path::law_with_file_name(xauth_path, l);
    assert(c.len() == name.len() + 2);
    assert(l.len() == name.len() + 2);
}

/// The files of a lock are called like the file that is locked, with `-c` and `-l`
/// behind the name; a file can be locked exactly where it has a name that is text.
pub proof fn law_lock_names(xauth_path: Seq<u8>, lock: Lock)
    requires
        is_lock_for(lock, xauth_path),
    ensures
        lock_failure(xauth_path) is None <==> path::file_name_of(xauth_path) is Some
            && text::decoded(path::file_name_of(xauth_path)->0) is Some,
        lock_failure(xauth_path) == Some(LockError::NoFileName) <==> path::file_name_of(
            xauth_path,
        ) is None,
        lock_failure(xauth_path) is None ==> path::file_name_of(lock.creat_path@) == Some(
            path::file_name_of(xauth_path)->0.push(0x2du8).push(0x63u8),
        ) && path::file_name_of(lock.link_path@) == Some(
            path::file_name_of(xauth_path)->0.push(0x2du8).push(0x6cu8),
        ),
{
    if lock_failure(xauth_path) is None {
        let name = path::file_name_of(xauth_path)->0;
        path::lemma_file_name(xauth_path);
        let c = name.push(0x2du8).push(0x63u8);
        let l = name.push(0x2du8).push(0x6cu8);
        assert(c =~= creat_name(name));
        assert(l =~= link_name(name));
        assert(!c.contains(path::slash())) by {
            if c.contains(path::slash()) {
                let i = choose|i: int| 0 <= i < c.len() && c[i] == path::slash();
                assert(name[i] == path::slash());
            }
        }
        assert(!l.contains(path::slash())) by {
            if l.contains(path::slash()) {
                let i = choose|i: int| 0 <= i < l.len() && l[i] == path::slash();
                assert(name[i] == path::slash());
            }
        }
        path::law_with_file_name(xauth_path, c);
        path::law_with_file_name(xauth_path, l);
    }
}

} // verus!
