use select_reactor::event::{Event, EventSet};
use select_reactor::fds::{Fds, FD_SETSIZE};

#[test]
fn empty_set_holds_nothing() {
    let set = EventSet::empty();
    assert!(!set.contains(Event::Read));
    assert!(!set.contains(Event::Write));
}

#[test]
fn insert_adds_one_event() {
    let mut set = EventSet::empty();
    set.insert(Event::Write);
    assert!(!set.contains(Event::Read));
    assert!(set.contains(Event::Write));
    set.insert(Event::Write);
    assert_eq!(set, EventSet { read: false, write: true });
    set.insert(Event::Read);
    assert_eq!(set, EventSet { read: true, write: true });
}

#[test]
fn remove_takes_one_event_out() {
    let mut set = EventSet { read: true, write: true };
    set.remove(Event::Read);
    assert_eq!(set, EventSet { read: false, write: true });
    set.remove(Event::Read);
    assert_eq!(set, EventSet { read: false, write: true });
    set.remove(Event::Write);
    assert_eq!(set, EventSet::empty());
}

#[test]
fn new_bitsets_mark_nothing() {
    let fds = Fds::new();
    for fd in 0..FD_SETSIZE as i32 {
        assert!(!fds.is_set(fd, Event::Read));
        assert!(!fds.is_set(fd, Event::Write));
    }
}

#[test]
fn set_marks_one_descriptor_for_one_event() {
    let mut fds = Fds::new();
    fds.set(70, Event::Read);
    for fd in 0..FD_SETSIZE as i32 {
        assert_eq!(fds.is_set(fd, Event::Read), fd == 70);
        assert!(!fds.is_set(fd, Event::Write));
    }
    fds.set(70, Event::Write);
    fds.set(71, Event::Write);
    assert!(fds.is_set(70, Event::Read));
    assert!(fds.is_set(70, Event::Write));
    assert!(fds.is_set(71, Event::Write));
    assert!(!fds.is_set(71, Event::Read));
}

#[test]
fn set_reaches_both_ends_of_the_bitsets() {
    let mut fds = Fds::new();
    fds.set(0, Event::Read);
    fds.set(63, Event::Read);
    fds.set(64, Event::Read);
    fds.set(1023, Event::Read);
    let marked: Vec<i32> = (0..FD_SETSIZE as i32).filter(|fd| fds.is_set(*fd, Event::Read)).collect();
    assert_eq!(marked, vec![0, 63, 64, 1023]);
}

#[test]
fn set_twice_is_set_once() {
    let mut fds = Fds::new();
    fds.set(5, Event::Write);
    fds.set(5, Event::Write);
    let marked: Vec<i32> = (0..FD_SETSIZE as i32).filter(|fd| fds.is_set(*fd, Event::Write)).collect();
    assert_eq!(marked, vec![5]);
}

#[test]
fn descriptors_outside_the_bitsets_are_not_marked() {
    let mut fds = Fds::new();
    fds.set(0, Event::Read);
    fds.set(1023, Event::Write);
    assert!(!fds.is_set(-1, Event::Read));
    assert!(!fds.is_set(1024, Event::Write));
    assert!(!fds.is_set(i32::MAX, Event::Read));
    assert!(!fds.is_set(i32::MIN, Event::Write));
}

#[test]
fn zero_clears_everything() {
    let mut fds = Fds::new();
    fds.set(1, Event::Read);
    fds.set(1000, Event::Write);
    fds.zero();
    for fd in 0..FD_SETSIZE as i32 {
        assert!(!fds.is_set(fd, Event::Read));
        assert!(!fds.is_set(fd, Event::Write));
    }
}
