use std::collections::BTreeMap;

use xshim::fd::keep;
use xshim::fd::range;
use xshim::fd::remap::{FdAction, FdContext, FdMapping, FdRange, SimpleFdContext};
use xshim::fd::{FdsExhausted, PassedFd};

#[test]
fn kept_descriptors() {
    let mut context = keep::FdContext::new();
    let passed = context.pass(7);
    assert_eq!(passed.as_raw_fd(), 7);
    assert_eq!(passed.path().bytes, b"/proc/self/fd/7");
    context.pass(9);
    assert_eq!(context.parent_fds, [7, 9]);
    context.inherit();
    assert_eq!(context.parent_fds, [7, 9]);
    assert!(context.is_current);
    assert!(context.into_closed().is_empty());
    let mut context = keep::FdContext::new();
    context.pass(5);
    assert_eq!(context.into_closed(), [5]);
    assert_eq!(PassedFd { fd: -1 }.path().bytes, b"/proc/self/fd/-1");
}

#[test]
fn numbers_from_a_range() {
    let mut context = range::FdContext::new(10, 12);
    assert_eq!(context.pass(3).map(|p| p.num()), Ok(10));
    assert_eq!(context.pass(4).map(|p| p.num()), Ok(11));
    assert_eq!(context.pass(5).map(|p| p.num()), Err(FdsExhausted));
    let mappings = context.into_mappings();
    assert_eq!(
        mappings,
        [FdMapping { parent_fd: 3, child_fd: 10 }, FdMapping { parent_fd: 4, child_fd: 11 }]
    );
    let mut context = range::FdContext::new(u32::MAX, u32::MAX);
    assert_eq!(context.pass(1).map(|p| p.num()), Err(FdsExhausted));
}

#[test]
fn numbers_start_behind_the_standard_ones() {
    let mut context = SimpleFdContext::new(2);
    assert_eq!(context.pass(20).map(|p| p.as_raw_fd()), Ok(3));
    assert_eq!(context.pass(21).map(|p| p.as_raw_fd()), Ok(4));
    let mut context = FdContext::manual(FdRange::new(8, 8));
    assert_eq!(context.pass(1).map(|p| p.as_raw_fd()), Ok(8));
    assert_eq!(context.pass(1).map(|p| p.as_raw_fd()), Err(FdsExhausted));
}

#[test]
fn as_many_numbers_as_there_are() {
    let mut context = SimpleFdContext::new(i32::MAX - 1);
    assert_eq!(context.pass(20).map(|p| p.as_raw_fd()), Ok(3));
    let mut context = SimpleFdContext::new(-6);
    assert_eq!(context.pass(20).map(|p| p.as_raw_fd()), Err(FdsExhausted));
    assert_eq!(context.temporary_fd(), None);
    let mut context = FdContext::manual(FdRange::new(8, 8));
    context.pass(1).unwrap_or_else(|_| panic!("there is room"));
    assert_eq!(context.temporary_fd(), None);
}

/// Plays the actions on a table of descriptors: number to file, and whether it
/// is closed on `exec`.
fn play(actions: &[FdAction], table: &mut BTreeMap<i32, (char, bool)>) {
    for action in actions {
        match action {
            FdAction::Move { from, to } => {
                let (file, _) = table.remove(from).unwrap();
                table.insert(*to, (file, true));
            }
            FdAction::Keep { fd } => {
                let file = table[fd].0;
                table.insert(*fd, (file, false));
            }
            FdAction::Duplicate { from, to } => {
                let file = table[from].0;
                table.insert(*to, (file, false));
            }
        }
    }
}

#[test]
fn descriptors_that_stand_in_each_others_way() {
    let mut context = SimpleFdContext::new(2);
    context.pass(4).unwrap_or_else(|_| panic!("there is room"));
    context.pass(3).unwrap_or_else(|_| panic!("there is room"));
    let mut conflicts = vec![9; 3];
    assert_eq!(context.conflicts(&mut conflicts), 2);
    assert_eq!(conflicts, [0, 1, 9]);
    assert_eq!(context.temporary_fd(), Some(5));
    let mut table = BTreeMap::from([(3, ('b', true)), (4, ('a', true))]);
    play(&[FdAction::Move { from: 4, to: 10 }, FdAction::Move { from: 3, to: 11 }], &mut table);
    let mut actions = vec![FdAction::Keep { fd: -1 }; 2];
    context.apply(&vec![10, 11, -1], &mut actions);
    play(&actions, &mut table);
    assert_eq!(table[&3], ('a', false));
    assert_eq!(table[&4], ('b', false));
}

#[test]
fn descriptors_that_stay_where_they_are() {
    let mut context = SimpleFdContext::new(2);
    context.pass(3).unwrap_or_else(|_| panic!("there is room"));
    context.pass(9).unwrap_or_else(|_| panic!("there is room"));
    let mut conflicts = vec![9; 2];
    assert_eq!(context.conflicts(&mut conflicts), 0);
    assert_eq!(conflicts, [9, 9]);
    let mut table = BTreeMap::from([(3, ('a', true)), (9, ('b', true))]);
    let mut actions = vec![FdAction::Keep { fd: -1 }; 2];
    context.apply(&Vec::new(), &mut actions);
    play(&actions, &mut table);
    assert_eq!(table[&3], ('a', false));
    assert_eq!(table[&4], ('b', false));
    assert_eq!(table[&9], ('b', true));
}
