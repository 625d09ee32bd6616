//! Files that hold entries.
use vstd::prelude::*;

use crate::files;
use crate::files::FileStep;
use crate::files::Node;
use crate::files::StepView;
use crate::path::UnixPath;
use crate::text;
use crate::xauthority::encoding;
use crate::xauthority::encoding::EncodeError;
use crate::xauthority::encoding::Entry;
use crate::xauthority::lock;
use crate::xauthority::lock::Lock;
use crate::xauthority::lock::LockError;

verus! {

/// An Xauthority file that is to be written.
pub struct AuthorityFile {
    pub path: UnixPath,
    /// The lock to take before the file is written.
    pub lock: Option<Lock>,
    /// Whether the file must not have existed before.
    pub exclusive: bool,
    /// What is written to the file.
    pub contents: Vec<u8>,
}

/// Whether a file is locked as asked: by the lock for its path, or by none.
pub open spec fn is_locked(file: AuthorityFile, locked: bool) -> bool {
    match file.lock {
        Some(lock) => locked && lock::lock_failure(file.path@) is None && lock::is_lock_for(
            lock,
            file.path@,
        ),
        None => !locked,
    }
}

impl AuthorityFile {
    /// A new file, under its lock.
    pub fn create(path: &UnixPath) -> (r: Result<Self, LockError>)
        ensures
            match r {
                Ok(file) => {
                    &&& lock::lock_failure(path@) is None
                    &&& file.path@ == path@
                    &&& is_locked(file, true)
                    &&& file.exclusive
                    &&& file.contents@.len() == 0
                },
                Err(e) => lock::lock_failure(path@) == Some(e),
            },
    {
        match Lock::aqquire(path) {
            Ok(lock) => Ok(
                AuthorityFile {
                    path: path.clone(),
                    lock: Some(lock),
                    exclusive: true,
                    contents: Vec::new(),
                },
            ),
            Err(e) => Err(e),
        }
    }

    /// A new file without a lock. No other process may open the same path
    /// meanwhile.
    pub fn create_unlocked(path: &UnixPath) -> (r: Self)
        ensures
            r.path@ == path@,
            is_locked(r, false),
            r.exclusive,
            r.contents@.len() == 0,
    {
        AuthorityFile { path: path.clone(), lock: None, exclusive: true, contents: Vec::new() }
    }

    /// A file that may have existed before, under its lock.
    pub fn open_or_create(path: &UnixPath) -> (r: Result<Self, LockError>)
        ensures
            match r {
                Ok(file) => {
                    &&& lock::lock_failure(path@) is None
                    &&& file.path@ == path@
                    &&& is_locked(file, true)
                    &&& !file.exclusive
                    &&& file.contents@.len() == 0
                },
                Err(e) => lock::lock_failure(path@) == Some(e),
            },
    {
        match Lock::aqquire(path) {
            Ok(lock) => Ok(
                AuthorityFile {
                    path: path.clone(),
                    lock: Some(lock),
                    exclusive: false,
                    contents: Vec::new(),
                },
            ),
            Err(e) => Err(e),
        }
    }

    /// A file that may have existed before, without a lock. No other process
    /// may open the same path meanwhile.
    pub fn open_or_create_unlocked(path: &UnixPath) -> (r: Self)
        ensures
            r.path@ == path@,
            is_locked(r, false),
            !r.exclusive,
            r.contents@.len() == 0,
    {
        AuthorityFile { path: path.clone(), lock: None, exclusive: false, contents: Vec::new() }
    }

    /// Writes entries behind what has been written.
    pub fn set(&mut self, authority: &Vec<Entry>) -> (r: Result<(), EncodeError>)
        ensures
            final(self).path == old(self).path,
            final(self).lock == old(self).lock,
            final(self).exclusive == old(self).exclusive,
            match r {
                Ok(_) => {
                    &&& encoding::overlong_in(encoding::entry_views(authority@)) is None
                    &&& final(self).contents@ == old(self).contents@ + encoding::encoded_all(
                        encoding::entry_views(authority@),
                    )
                },
                Err(e) => {
                    &&& encoding::overlong_in(encoding::entry_views(authority@)) == Some(e.field)
                    &&& final(self).contents@ == old(self).contents@
                },
            },
    {
        match encoding::encode_all(authority) {
            Ok(mut bytes) => {
                self.contents.append(&mut bytes);
                Ok(())
            },
            Err(e) => Err(e),
        }
    }
}

// ---------------------------------------------------------------------------
// Writing a file
// ---------------------------------------------------------------------------
/// The steps that take the lock of a file, if it has one.
pub open spec fn locking(file: AuthorityFile) -> Seq<StepView> {
    match file.lock {
        Some(lock) => lock::taking(lock),
        None => Seq::empty(),
    }
}

/// The steps that release the lock of a file, if it has one.
pub open spec fn unlocking(file: AuthorityFile) -> Seq<StepView> {
    match file.lock {
        Some(lock) => lock::releasing(lock),
        None => Seq::empty(),
    }
}

/// What is done before a file is written. A new file is created and then
/// locked; one that may have been there is emptied only under its lock.
pub open spec fn opening(file: AuthorityFile) -> Seq<StepView> {
    if file.exclusive {
        seq![StepView::CreateNew { path: file.path@ }] + locking(file)
    } else {
        locking(file) + seq![StepView::Truncate { path: file.path@ }]
    }
}

/// The steps that write a file.
pub open spec fn writing(file: AuthorityFile) -> Seq<StepView> {
    opening(file) + seq![
        StepView::Write { path: file.path@, contents: file.contents@ },
    ] + unlocking(file)
}

/// How many steps have been made when the lock of a file is held.
pub open spec fn held_after(file: AuthorityFile) -> int {
    if file.exclusive {
        3
    } else {
        2
    }
}

impl AuthorityFile {
    /// The steps that write the file.
    pub fn write(&self) -> (r: Vec<FileStep>)
        ensures
            files::step_views(r@) == writing(*self),
    {
        let mut r: Vec<FileStep> = Vec::new();
        if self.exclusive {
            r.push(FileStep::CreateNew { path: self.path.clone() });
        }
        let ghost first = files::step_views(r@);
        match &self.lock {
            Some(lock) => {
                let mut take = lock.take();
                let ghost taken = files::step_views(take@);
                r.append(&mut take);
                assert(files::step_views(r@) =~= first + taken);
            },
            None => {},
        }
        if !self.exclusive {
            r.push(FileStep::Truncate { path: self.path.clone() });
        }
        assert(files::step_views(r@) =~= opening(*self));
        r.push(
            FileStep::Write { path: self.path.clone(), contents: text::copy(&self.contents) },
        );
        let ghost written = files::step_views(r@);
        assert(written =~= opening(*self) + seq![
            StepView::Write { path: self.path@, contents: self.contents@ },
        ]);
        match &self.lock {
            Some(lock) => {
                let mut release = lock.release();
                let ghost released = files::step_views(release@);
                r.append(&mut release);
                assert(files::step_views(r@) =~= written + released);
            },
            None => {},
        }
        assert(files::step_views(r@) =~= writing(*self));
        r
    }

    /// The steps that are left to be made where writing the file failed at one:
    /// the lock is released, if it was held by then.
    pub fn abandon(&self, failed_at: usize) -> (r: Vec<FileStep>)
        ensures
            files::step_views(r@) == (if failed_at >= held_after(*self) {
                unlocking(*self)
            } else {
                Seq::empty()
            }),
    {
        let held: usize = if self.exclusive {
            3
        } else {
            2
        };
        if failed_at >= held {
            match &self.lock {
                Some(lock) => {
                    return lock.release();
                },
                None => {},
            }
        }
        let r: Vec<FileStep> = Vec::new();
        assert(files::step_views(r@) =~= Seq::<StepView>::empty());
        r
    }
}

// ---------------------------------------------------------------------------
// Laws
// ---------------------------------------------------------------------------
/// A new file is written once. Where writing it succeeds, it holds what was to be
/// written, nothing else has changed, and no file of its lock is left. Writing
/// such a file again fails and leaves everything as it is.
pub proof fn law_written_once(
    files: Map<Seq<u8>, Node>,
    file: AuthorityFile,
    again: AuthorityFile,
    locked: bool,
)
    requires
        file.exclusive,
        again.exclusive,
        again.path@ == file.path@,
        is_locked(file, locked),
        files::performed(files, writing(file)).1,
    ensures
        ({
            let after = files::performed(files, writing(file)).0;
            &&& after == files.insert(file.path@, Node::File(file.contents@))
            &&& file.lock matches Some(lock) ==> !after.contains_key(lock.creat_path@)
                && !after.contains_key(lock.link_path@)
            &&& files::performed(after, writing(again)) == (after, false)
        }),
{
    let p = file.path@;
    let create = seq![StepView::CreateNew { path: p }];
    let write = seq![StepView::Write { path: p, contents: file.contents@ }];
    assert(writing(file) =~= create + (locking(file) + (write + unlocking(file))));
    files::law_performed_concat(files, create, locking(file) + (write + unlocking(file)));
    reveal_with_fuel(files::performed, 2);
    assert(create.drop_first() =~= Seq::<StepView>::empty());
    let made = files.insert(p, Node::File(Seq::empty()));
    assert(files::performed(files, create) == (made, true));
    files::law_performed_concat(made, locking(file), write + unlocking(file));
    let held = files::performed(made, locking(file)).0;
    assert(files::performed(made, locking(file)).1);
    match file.lock {
        Some(lock) => {
            lock::law_lock_files(p, lock);
            lock::lemma_taking(made, p, lock);
        },
        None => {},
    }
    files::law_performed_concat(held, write, unlocking(file));
    assert(write.drop_first() =~= Seq::<StepView>::empty());
    assert(Seq::<u8>::empty() + file.contents@ =~= file.contents@);
    let written = held.insert(p, Node::File(file.contents@));
    assert(files::performed(held, write) == (written, true));
    let after = files::performed(files, writing(file)).0;
    match file.lock {
        Some(lock) => {
            lock::lemma_releasing(written, p, lock);
            assert(after =~= files.insert(p, Node::File(file.contents@)));
        },
        None => {
            assert(after =~= files.insert(p, Node::File(file.contents@)));
        },
    }
    assert(writing(again)[0] == StepView::CreateNew { path: p });
}

/// A file that may have been there is replaced: where writing it succeeds, it
/// holds what was to be written and no more, and nothing else has changed.
pub proof fn law_replaced(files: Map<Seq<u8>, Node>, file: AuthorityFile, locked: bool)
    requires
        !file.exclusive,
        is_locked(file, locked),
        files::performed(files, writing(file)).1,
    ensures
        files::performed(files, writing(file)).0 == files.insert(
            file.path@,
            Node::File(file.contents@),
        ),
{
    let p = file.path@;
    let empty = seq![StepView::Truncate { path: p }];
    let write = seq![StepView::Write { path: p, contents: file.contents@ }];
    assert(writing(file) =~= locking(file) + (empty + (write + unlocking(file))));
    files::law_performed_concat(files, locking(file), empty + (write + unlocking(file)));
    reveal_with_fuel(files::performed, 2);
    let held = files::performed(files, locking(file)).0;
    match file.lock {
        Some(lock) => {
            lock::law_lock_files(p, lock);
            lock::lemma_taking(files, p, lock);
        },
        None => {},
    }
    files::law_performed_concat(held, empty, write + unlocking(file));
    assert(empty.drop_first() =~= Seq::<StepView>::empty());
    let emptied = held.insert(p, Node::File(Seq::empty()));
    assert(files::performed(held, empty) == (emptied, true));
    files::law_performed_concat(emptied, write, unlocking(file));
    assert(write.drop_first() =~= Seq::<StepView>::empty());
    assert(Seq::<u8>::empty() + file.contents@ =~= file.contents@);
    let written = emptied.insert(p, Node::File(file.contents@));
    assert(files::performed(emptied, write) == (written, true));
    let after = files::performed(files, writing(file)).0;
    match file.lock {
        Some(lock) => {
            lock::lemma_releasing(written, p, lock);
        },
        None => {},
    }
    assert(after =~= files.insert(p, Node::File(file.contents@)));
}

/// Where another process holds the lock of a file, writing the file fails before the
/// lock counts as held, so that giving up does not release it; the file is not
/// written either.
pub proof fn law_lock_of_others(
    files: Map<Seq<u8>, Node>,
    file: AuthorityFile,
    locked: bool,
    failed_at: int,
)
    requires
        is_locked(file, locked),
        file.lock is Some,
        files.contains_key(file.lock->0.creat_path@) || files.contains_key(
            file.lock->0.link_path@,
        ),
        0 <= failed_at < writing(file).len(),
        files::performed(files, writing(file).take(failed_at)).1,
    ensures
        failed_at < held_after(file),
        ({
            let state = files::performed(files, writing(file).take(failed_at)).0;
            files.contains_key(file.path@) ==> state.contains_key(file.path@)
                && state[file.path@] == files[file.path@]
        }),
{
    let lock = file.lock->0;
    let held = held_after(file);
    lock::law_lock_files(file.path@, lock);
    if failed_at >= held {
        let steps = writing(file).take(failed_at);
        let first = writing(file).take(held);
        assert(steps =~= first + steps.skip(held));
        files::law_performed_concat(files, first, steps.skip(held));
        if file.exclusive {
            let create = seq![StepView::CreateNew { path: file.path@ }];
            assert(first =~= create + lock::taking(lock));
            files::law_performed_concat(files, create, lock::taking(lock));
            reveal_with_fuel(files::performed, 2);
            assert(create.drop_first() =~= Seq::<StepView>::empty());
            lock::lemma_taking(files::performed(files, create).0, file.path@, lock);
        } else {
            assert(first =~= lock::taking(lock));
            lock::lemma_taking(files, file.path@, lock);
        }
    } else {
        let steps = writing(file).take(failed_at);
        reveal_with_fuel(files::performed, 4);
        if failed_at > 0 {
            assert(steps.drop_first().len() == failed_at - 1);
            if failed_at > 1 {
                assert(steps.drop_first().drop_first().len() == failed_at - 2);
            }
        }
    }
}

/// Where writing a file fails while its lock is held, giving up releases the lock:
/// neither of its files is left, and everything else stays as it is.
pub proof fn law_lock_is_given_up(
    files: Map<Seq<u8>, Node>,
    file: AuthorityFile,
    locked: bool,
    failed_at: int,
)
    requires
        is_locked(file, locked),
        file.lock is Some,
        !files.contains_key(file.lock->0.creat_path@),
        !files.contains_key(file.lock->0.link_path@),
        0 <= failed_at <= opening(file).len(),
        files::performed(files, writing(file).take(failed_at)).1,
        files::performed(files, writing(file).take(failed_at)).0.contains_key(
            file.lock->0.link_path@,
        ),
    ensures
        failed_at >= held_after(file),
        ({
            let state = files::performed(files, writing(file).take(failed_at)).0;
            let lock = file.lock->0;
            let left = files::performed(state, unlocking(file)).0;
            &&& !left.contains_key(lock.creat_path@)
            &&& !left.contains_key(lock.link_path@)
            &&& forall|p: Seq<u8>|
                p != lock.creat_path@ && p != lock.link_path@ ==> left.contains_key(p)
                    == state.contains_key(p) && (#[trigger] left.contains_key(p) ==> left[p]
                    == state[p])
        }),
{
    let lock = file.lock->0;
    lock::law_lock_files(file.path@, lock);
    let steps = writing(file).take(failed_at);
    let state = files::performed(files, steps).0;
    reveal_with_fuel(files::performed, 4);
    if failed_at > 0 {
        assert(steps.drop_first().len() == failed_at - 1);
        if failed_at > 1 {
            assert(steps.drop_first().drop_first().len() == failed_at - 2);
            if failed_at > 2 {
                assert(steps.drop_first().drop_first().drop_first().len() == failed_at - 3);
                assert(steps.drop_first().drop_first().drop_first() =~= Seq::<StepView>::empty());
            }
        }
    }
    let out = lock::releasing(lock);
    assert(out.drop_first().len() == 1);
    assert(out.drop_first().drop_first() =~= Seq::<StepView>::empty());
}

} // verus!
