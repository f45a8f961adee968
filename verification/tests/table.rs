use std::sync::atomic::{AtomicUsize, Ordering};
use std::sync::Arc;
use std::task::{Wake, Waker};

use select_reactor::error::Error;
use select_reactor::event::Event;
use select_reactor::fds::{Fds, FD_SETSIZE};
use select_reactor::registrations::Registrations;

struct Counter(AtomicUsize);

impl Wake for Counter {
    fn wake(self: Arc<Self>) {
        self.0.fetch_add(1, Ordering::SeqCst);
    }
}

fn counter() -> (Arc<Counter>, Waker) {
    let counter = Arc::new(Counter(AtomicUsize::new(0)));
    let waker = Waker::from(counter.clone());
    (counter, waker)
}

fn wakes(counter: &Arc<Counter>) -> usize {
    counter.0.load(Ordering::SeqCst)
}

fn marked(fds: &Fds, event: Event) -> Vec<i32> {
    (0..FD_SETSIZE as i32).filter(|fd| fds.is_set(*fd, event)).collect()
}

fn ready(fd: i32, event: Event) -> Fds {
    let mut fds = Fds::new();
    fds.set(fd, event);
    fds
}

#[test]
fn new_table_is_empty() {
    let table: Registrations<8> = Registrations::new();
    assert_eq!(table.len(), 0);
    assert_eq!(table.notification(), None);
    assert_eq!(table.pending(), 0);
}

#[test]
fn register_then_deregister_removes() {
    let mut table: Registrations<8> = Registrations::new();
    assert_eq!(table.register(5), Ok(()));
    assert_eq!(table.len(), 1);
    assert_eq!(table.fetch(5, Event::Read), Ok(false));
    assert_eq!(table.deregister(5), Ok(()));
    assert_eq!(table.len(), 0);
    assert_eq!(table.fetch(5, Event::Read), Err(Error::NotFound));
    assert_eq!(table.fetch(5, Event::Write), Err(Error::NotFound));
}

#[test]
fn registration_starts_with_nothing_seen_and_nobody_waiting() {
    let mut table: Registrations<8> = Registrations::new();
    table.register(9).unwrap();
    assert_eq!(table.has_waker(9, Event::Read), Ok(false));
    assert_eq!(table.has_waker(9, Event::Write), Ok(false));
    assert_eq!(table.fetch(9, Event::Read), Ok(false));
    assert_eq!(table.fetch(9, Event::Write), Ok(false));
}

#[test]
fn register_duplicate_is_refused_and_changes_nothing() {
    let mut table: Registrations<8> = Registrations::new();
    let (count, waker) = counter();
    table.register(4).unwrap();
    table.set(4, Event::Write, &waker).unwrap();
    table.update_events(&ready(4, Event::Read));
    assert_eq!(table.register(4), Err(Error::InvalidArgument));
    assert_eq!(table.len(), 1);
    assert_eq!(table.has_waker(4, Event::Write), Ok(true));
    assert_eq!(table.has_waker(4, Event::Read), Ok(false));
    assert_eq!(table.fetch(4, Event::Read), Ok(true));
    assert_eq!(wakes(&count), 0);
}

#[test]
fn register_beyond_capacity_is_refused() {
    let mut table: Registrations<3> = Registrations::new();
    assert_eq!(table.register(10), Ok(()));
    assert_eq!(table.register(11), Ok(()));
    assert_eq!(table.register(12), Ok(()));
    assert_eq!(table.register(13), Err(Error::ResourceExhausted));
    assert_eq!(table.len(), 3);
    assert_eq!(table.fetch(13, Event::Read), Err(Error::NotFound));
    assert_eq!(table.fetch(12, Event::Read), Ok(false));
    assert_eq!(table.deregister(11), Ok(()));
    assert_eq!(table.register(13), Ok(()));
    assert_eq!(table.len(), 3);
}

#[test]
fn table_without_room_takes_nothing() {
    let mut table: Registrations<0> = Registrations::new();
    assert_eq!(table.register(1), Err(Error::ResourceExhausted));
    assert_eq!(table.register(-1), Err(Error::InvalidArgument));
    assert_eq!(table.len(), 0);
}

#[test]
fn invalid_descriptor_is_reported_before_lack_of_room() {
    let mut table: Registrations<1> = Registrations::new();
    table.register(1).unwrap();
    assert_eq!(table.register(1), Err(Error::InvalidArgument));
    assert_eq!(table.register(-7), Err(Error::InvalidArgument));
    assert_eq!(table.register(2), Err(Error::ResourceExhausted));
}

#[test]
fn table_takes_every_descriptor_of_the_bitsets() {
    let mut table: Registrations<4096> = Registrations::new();
    for fd in 0..FD_SETSIZE as i32 {
        assert_eq!(table.register(fd), Ok(()));
    }
    assert_eq!(table.len(), FD_SETSIZE);
    assert_eq!(table.register(0), Err(Error::InvalidArgument));
    assert_eq!(table.register(FD_SETSIZE as i32), Err(Error::InvalidArgument));
    assert_eq!(table.deregister(0), Ok(()));
    assert_eq!(table.deregister(1023), Ok(()));
    assert_eq!(table.len(), FD_SETSIZE - 2);
    assert_eq!(table.fetch(1022, Event::Read), Ok(false));
    assert_eq!(table.fetch(1023, Event::Read), Err(Error::NotFound));
}

#[test]
fn register_refuses_descriptors_outside_the_bitsets() {
    let mut table: Registrations<8> = Registrations::new();
    assert_eq!(table.register(-1), Err(Error::InvalidArgument));
    assert_eq!(table.register(i32::MIN), Err(Error::InvalidArgument));
    assert_eq!(table.register(1024), Err(Error::InvalidArgument));
    assert_eq!(table.register(i32::MAX), Err(Error::InvalidArgument));
    assert_eq!(table.len(), 0);
    assert_eq!(table.register(0), Ok(()));
    assert_eq!(table.register(1023), Ok(()));
    assert_eq!(table.len(), 2);
}

#[test]
fn register_refuses_the_notification_channel() {
    let mut table: Registrations<8> = Registrations::new();
    assert_eq!(table.create_notification(6), Ok(true));
    assert_eq!(table.register(6), Err(Error::InvalidArgument));
    assert_eq!(table.len(), 0);
    assert_eq!(table.destroy_notification(), Some(6));
    assert_eq!(table.register(6), Ok(()));
}

#[test]
fn operations_on_an_unknown_descriptor_find_nothing() {
    let mut table: Registrations<8> = Registrations::new();
    let (count, waker) = counter();
    table.register(1).unwrap();
    assert_eq!(table.deregister(2), Err(Error::NotFound));
    assert_eq!(table.fetch(2, Event::Read), Err(Error::NotFound));
    assert_eq!(table.set(2, Event::Read, &waker), Err(Error::NotFound));
    assert_eq!(table.arm(2, Event::Read, &waker, waker.clone()), Err(Error::NotFound));
    assert_eq!(table.has_waker(2, Event::Read), Err(Error::NotFound));
    assert_eq!(table.len(), 1);
    assert_eq!(table.has_waker(1, Event::Read), Ok(false));
    assert_eq!(wakes(&count), 0);
}

#[test]
fn deregister_keeps_the_other_registrations() {
    let mut table: Registrations<8> = Registrations::new();
    let (first, first_waker) = counter();
    let (last, last_waker) = counter();
    table.register(1).unwrap();
    table.register(2).unwrap();
    table.register(3).unwrap();
    table.set(1, Event::Read, &first_waker).unwrap();
    table.set(3, Event::Write, &last_waker).unwrap();
    table.update_events(&ready(2, Event::Write));
    assert_eq!(table.deregister(1), Ok(()));
    assert_eq!(table.len(), 2);
    assert_eq!(table.has_waker(1, Event::Read), Err(Error::NotFound));
    assert_eq!(table.has_waker(3, Event::Write), Ok(true));
    assert_eq!(table.has_waker(3, Event::Read), Ok(false));
    assert_eq!(table.fetch(2, Event::Write), Ok(true));
    assert_eq!(table.deregister(3), Ok(()));
    assert_eq!(table.deregister(2), Ok(()));
    assert_eq!(table.len(), 0);
    assert_eq!(wakes(&first), 0);
    assert_eq!(wakes(&last), 0);
}

#[test]
fn deregister_of_the_last_registration() {
    let mut table: Registrations<8> = Registrations::new();
    table.register(1).unwrap();
    table.register(2).unwrap();
    assert_eq!(table.deregister(2), Ok(()));
    assert_eq!(table.len(), 1);
    assert_eq!(table.fetch(1, Event::Read), Ok(false));
    assert_eq!(table.fetch(2, Event::Read), Err(Error::NotFound));
}

#[test]
fn fetch_answers_once() {
    let mut table: Registrations<8> = Registrations::new();
    table.register(3).unwrap();
    let mut both = Fds::new();
    both.set(3, Event::Read);
    both.set(3, Event::Write);
    table.update_events(&both);
    assert_eq!(table.fetch(3, Event::Read), Ok(true));
    assert_eq!(table.fetch(3, Event::Read), Ok(false));
    assert_eq!(table.fetch(3, Event::Write), Ok(true));
    assert_eq!(table.fetch(3, Event::Write), Ok(false));
}

#[test]
fn set_stores_a_waker_without_waking_it() {
    let mut table: Registrations<8> = Registrations::new();
    let (count, waker) = counter();
    table.register(3).unwrap();
    assert_eq!(table.set(3, Event::Write, &waker), Ok(()));
    assert_eq!(table.has_waker(3, Event::Write), Ok(true));
    assert_eq!(table.has_waker(3, Event::Read), Ok(false));
    assert_eq!(wakes(&count), 0);
}

#[test]
fn set_starts_from_the_event_not_being_seen() {
    let mut table: Registrations<8> = Registrations::new();
    let (count, waker) = counter();
    table.register(3).unwrap();
    table.update_events(&ready(3, Event::Read));
    assert_eq!(table.set(3, Event::Read, &waker), Ok(()));
    assert_eq!(table.fetch(3, Event::Read), Ok(false));
    assert_eq!(table.has_waker(3, Event::Read), Ok(true));
    assert_eq!(wakes(&count), 0);
}

#[test]
fn set_over_another_task_wakes_it() {
    let mut table: Registrations<8> = Registrations::new();
    let (old, old_waker) = counter();
    let (new, new_waker) = counter();
    table.register(3).unwrap();
    table.set(3, Event::Read, &old_waker).unwrap();
    assert_eq!(table.set(3, Event::Read, &new_waker), Ok(()));
    assert_eq!(wakes(&old), 1);
    assert_eq!(wakes(&new), 0);
    assert_eq!(table.has_waker(3, Event::Read), Ok(true));
    table.update_events(&ready(3, Event::Read));
    assert_eq!(wakes(&old), 1);
    assert_eq!(wakes(&new), 1);
}

#[test]
fn set_over_the_same_task_wakes_nobody() {
    let mut table: Registrations<8> = Registrations::new();
    let (count, waker) = counter();
    let again = waker.clone();
    assert!(waker.will_wake(&again));
    table.register(3).unwrap();
    table.set(3, Event::Read, &waker).unwrap();
    assert_eq!(table.set(3, Event::Read, &again), Ok(()));
    assert_eq!(wakes(&count), 0);
    assert_eq!(table.has_waker(3, Event::Read), Ok(true));
    table.update_events(&ready(3, Event::Read));
    assert_eq!(wakes(&count), 1);
}

#[test]
fn set_for_one_event_leaves_the_other_waiting() {
    let mut table: Registrations<8> = Registrations::new();
    let (reader, read_waker) = counter();
    let (writer, write_waker) = counter();
    table.register(3).unwrap();
    table.set(3, Event::Read, &read_waker).unwrap();
    table.set(3, Event::Write, &write_waker).unwrap();
    assert_eq!(wakes(&reader), 0);
    assert_eq!(wakes(&writer), 0);
    assert_eq!(table.has_waker(3, Event::Read), Ok(true));
    assert_eq!(table.has_waker(3, Event::Write), Ok(true));
}

#[test]
fn arm_compares_with_the_given_waker_and_stores_the_other() {
    let mut table: Registrations<8> = Registrations::new();
    let (old, old_waker) = counter();
    let (new, new_waker) = counter();
    table.register(3).unwrap();
    table.set(3, Event::Read, &old_waker).unwrap();
    assert_eq!(table.arm(3, Event::Read, &old_waker, new_waker.clone()), Ok(()));
    assert_eq!(wakes(&old), 0);
    table.update_events(&ready(3, Event::Read));
    assert_eq!(wakes(&old), 0);
    assert_eq!(wakes(&new), 1);
}

#[test]
fn waker_is_woken_once_by_a_poll() {
    let mut table: Registrations<8> = Registrations::new();
    let (count, waker) = counter();
    table.register(3).unwrap();
    assert_eq!(table.set(3, Event::Read, &waker), Ok(()));
    assert_eq!(table.has_waker(3, Event::Read), Ok(true));
    table.update_events(&ready(3, Event::Read));
    assert_eq!(wakes(&count), 1);
    assert_eq!(table.has_waker(3, Event::Read), Ok(false));
    table.update_events(&ready(3, Event::Read));
    assert_eq!(wakes(&count), 1);
    assert_eq!(table.fetch(3, Event::Read), Ok(true));
    assert_eq!(table.fetch(3, Event::Read), Ok(false));
}

#[test]
fn poll_wakes_only_who_waits_for_what_it_found() {
    let mut table: Registrations<8> = Registrations::new();
    let (reader, read_waker) = counter();
    let (writer, write_waker) = counter();
    let (other, other_waker) = counter();
    table.register(3).unwrap();
    table.register(4).unwrap();
    table.set(3, Event::Read, &read_waker).unwrap();
    table.set(3, Event::Write, &write_waker).unwrap();
    table.set(4, Event::Write, &other_waker).unwrap();
    let mut found = Fds::new();
    found.set(3, Event::Write);
    found.set(4, Event::Read);
    found.set(5, Event::Write);
    table.update_events(&found);
    assert_eq!(wakes(&reader), 0);
    assert_eq!(wakes(&writer), 1);
    assert_eq!(wakes(&other), 0);
    assert_eq!(table.has_waker(3, Event::Read), Ok(true));
    assert_eq!(table.has_waker(3, Event::Write), Ok(false));
    assert_eq!(table.has_waker(4, Event::Write), Ok(true));
    assert_eq!(table.fetch(3, Event::Read), Ok(false));
    assert_eq!(table.fetch(3, Event::Write), Ok(true));
    assert_eq!(table.fetch(4, Event::Read), Ok(true));
    assert_eq!(table.fetch(4, Event::Write), Ok(false));
}

#[test]
fn poll_that_found_nothing_changes_nothing() {
    let mut table: Registrations<8> = Registrations::new();
    let (count, waker) = counter();
    table.register(3).unwrap();
    table.set(3, Event::Read, &waker).unwrap();
    table.update_events(&Fds::new());
    assert_eq!(wakes(&count), 0);
    assert_eq!(table.has_waker(3, Event::Read), Ok(true));
    assert_eq!(table.fetch(3, Event::Read), Ok(false));
}

#[test]
fn bitsets_of_an_empty_table_are_empty() {
    let table: Registrations<8> = Registrations::new();
    let mut fds = ready(9, Event::Write);
    assert_eq!(table.set_fds(&mut fds), Ok(None));
    assert_eq!(marked(&fds, Event::Read), Vec::<i32>::new());
    assert_eq!(marked(&fds, Event::Write), Vec::<i32>::new());
}

#[test]
fn bitsets_hold_the_channel_and_who_is_waited_for() {
    let mut table: Registrations<8> = Registrations::new();
    let (_count, waker) = counter();
    table.create_notification(7).unwrap();
    table.register(3).unwrap();
    table.register(20).unwrap();
    table.register(12).unwrap();
    table.set(3, Event::Read, &waker).unwrap();
    table.set(12, Event::Write, &waker).unwrap();
    table.set(12, Event::Read, &waker).unwrap();
    let mut fds = ready(500, Event::Read);
    assert_eq!(table.set_fds(&mut fds), Ok(Some(20)));
    assert_eq!(marked(&fds, Event::Read), vec![3, 7, 12]);
    assert_eq!(marked(&fds, Event::Write), vec![12]);
}

#[test]
fn largest_descriptor_may_be_the_channel() {
    let mut table: Registrations<8> = Registrations::new();
    table.create_notification(900).unwrap();
    table.register(3).unwrap();
    let mut fds = Fds::new();
    assert_eq!(table.set_fds(&mut fds), Ok(Some(900)));
    assert_eq!(marked(&fds, Event::Read), vec![900]);
    assert_eq!(marked(&fds, Event::Write), Vec::<i32>::new());
}

#[test]
fn largest_descriptor_counts_registrations_that_nobody_waits_for() {
    let mut table: Registrations<8> = Registrations::new();
    table.register(0).unwrap();
    let mut fds = Fds::new();
    assert_eq!(table.set_fds(&mut fds), Ok(Some(0)));
    table.register(41).unwrap();
    table.register(17).unwrap();
    assert_eq!(table.set_fds(&mut fds), Ok(Some(41)));
    assert_eq!(marked(&fds, Event::Read), Vec::<i32>::new());
    assert_eq!(marked(&fds, Event::Write), Vec::<i32>::new());
}

#[test]
fn woken_waker_is_no_longer_looked_out_for() {
    let mut table: Registrations<8> = Registrations::new();
    let (_count, waker) = counter();
    table.register(3).unwrap();
    table.set(3, Event::Read, &waker).unwrap();
    let mut fds = Fds::new();
    table.set_fds(&mut fds).unwrap();
    assert_eq!(marked(&fds, Event::Read), vec![3]);
    table.update_events(&fds);
    table.set_fds(&mut fds).unwrap();
    assert_eq!(marked(&fds, Event::Read), Vec::<i32>::new());
}

#[test]
fn notification_channel_is_created_once() {
    let mut table: Registrations<8> = Registrations::new();
    assert_eq!(table.notification(), None);
    assert_eq!(table.create_notification(7), Ok(true));
    assert_eq!(table.notification(), Some(7));
    assert_eq!(table.create_notification(8), Ok(false));
    assert_eq!(table.create_notification(-1), Ok(false));
    assert_eq!(table.notification(), Some(7));
}

#[test]
fn notification_channel_has_to_fit_and_to_be_free() {
    let mut table: Registrations<8> = Registrations::new();
    table.register(5).unwrap();
    assert_eq!(table.create_notification(-1), Err(Error::InvalidArgument));
    assert_eq!(table.create_notification(1024), Err(Error::InvalidArgument));
    assert_eq!(table.create_notification(5), Err(Error::InvalidArgument));
    assert_eq!(table.notification(), None);
    assert_eq!(table.create_notification(1023), Ok(true));
    assert_eq!(table.notification(), Some(1023));
}

#[test]
fn notification_channel_is_destroyed_once() {
    let mut table: Registrations<8> = Registrations::new();
    assert_eq!(table.destroy_notification(), None);
    table.create_notification(7).unwrap();
    assert_eq!(table.destroy_notification(), Some(7));
    assert_eq!(table.notification(), None);
    assert_eq!(table.destroy_notification(), None);
    assert_eq!(table.create_notification(9), Ok(true));
}

#[test]
fn requests_are_counted_until_released() {
    let mut table: Registrations<8> = Registrations::new();
    table.enter();
    table.enter();
    assert_eq!(table.pending(), 2);
    table.release();
    assert_eq!(table.pending(), 0);
    table.release();
    assert_eq!(table.pending(), 0);
    table.enter();
    assert_eq!(table.pending(), 1);
}
