use adnl::counter::{CountedObject, Counter};
use adnl::error::AdnlError;
use adnl::map::{
    add_counted_object_to_map, add_counted_object_to_map_with_update, add_unbound_object_to_map,
    add_unbound_object_to_map_with_update, decide, insertion_result, Decision, Insertion,
};
use adnl::timeouts::{Timeouts, UpdatedAt, Version, DEFAULT_TIMEOUT_SECS};
use adnl::wait::{Wait, WaitStep};
use std::sync::atomic::{AtomicU64, Ordering};
use std::sync::Arc;
use std::time::Duration;

struct Session {
    value: u32,
    counter: Counter,
}

impl CountedObject for Session {
    fn counter(&self) -> &Counter {
        &self.counter
    }
}

#[test]
fn counter_follows_the_live_handles() {
    let shared = Arc::new(AtomicU64::new(0));
    assert_eq!(shared.load(Ordering::Relaxed), 0);
    let first = Counter::from(shared.clone());
    assert_eq!(shared.load(Ordering::Relaxed), 1);
    {
        let _second = Counter::from(shared.clone());
        let _third: Counter = shared.clone().into();
        assert_eq!(shared.load(Ordering::Relaxed), 3);
    }
    assert_eq!(shared.load(Ordering::Relaxed), 1);
    drop(first);
    assert_eq!(shared.load(Ordering::Relaxed), 0);
}

#[test]
fn counter_counts_many_handles_made_and_dropped_out_of_order() {
    let shared = Arc::new(AtomicU64::new(0));
    let mut handles: Vec<Option<Counter>> = (0..100).map(|_| Some(Counter::from(shared.clone()))).collect();
    assert_eq!(shared.load(Ordering::Relaxed), 100);
    let mut live = 100;
    for i in (0..100).step_by(3) {
        handles[i] = None;
        live -= 1;
        assert_eq!(shared.load(Ordering::Relaxed), live);
    }
    handles.push(Some(Counter::from(shared.clone())));
    assert_eq!(shared.load(Ordering::Relaxed), live + 1);
    handles.clear();
    assert_eq!(shared.load(Ordering::Relaxed), 0);
}

#[test]
fn counted_object_is_reached_through_a_shared_handle() {
    let shared = Arc::new(AtomicU64::new(0));
    let object = Arc::new(Session { value: 5, counter: Counter::from(shared.clone()) });
    let inner: &Counter = object.as_ref().counter();
    let outer: &Counter = CountedObject::counter(&object);
    assert!(std::ptr::eq(inner, outer));
    assert_eq!(shared.load(Ordering::Relaxed), 1);
    assert_eq!(object.value, 5);
    drop(object);
    assert_eq!(shared.load(Ordering::Relaxed), 0);
}

#[test]
fn default_timeouts_are_twenty_seconds() {
    let timeouts = Timeouts::default();
    assert_eq!(DEFAULT_TIMEOUT_SECS, 20);
    assert_eq!(timeouts.read(), Duration::from_secs(20));
    assert_eq!(timeouts.write(), Duration::from_secs(20));
    assert_eq!(Timeouts::default_timeout(), Duration::from_secs(20));
}

#[test]
fn timeouts_keep_each_direction() {
    let timeouts = Timeouts::with_durations(Duration::from_millis(1500), Duration::from_secs(7));
    assert_eq!(timeouts.read(), Duration::from_millis(1500));
    assert_eq!(timeouts.write(), Duration::from_secs(7));
    let copy = timeouts.clone();
    assert_eq!(copy.read(), Duration::from_millis(1500));
}

#[test]
fn version_is_the_second_truncated_to_32_bits() {
    assert_eq!(Version::at(0), 0);
    assert_eq!(Version::at(1_700_000_000), 1_700_000_000);
    assert_eq!(Version::at(0x7fff_ffff), i32::MAX);
    assert_eq!(Version::at(0x8000_0000), i32::MIN);
    assert_eq!(Version::at(0xffff_ffff), -1);
    assert_eq!(Version::at(0x1_0000_0005), 5);
    assert_eq!(Version::at(u64::MAX), -1);
}

#[test]
fn version_of_now_is_after_2020() {
    assert!(Version::get() > 1_577_836_800);
}

#[test]
fn expiry_compares_the_age_with_the_timeout() {
    assert!(UpdatedAt::is_expired_at(10, 4, 6));
    assert!(!UpdatedAt::is_expired_at(10, 4, 7));
    assert!(UpdatedAt::is_expired_at(10, 10, 0));
    assert!(!UpdatedAt::is_expired_at(10, 10, 1));
    assert!(!UpdatedAt::is_expired_at(3, 10, 1));
    assert!(UpdatedAt::is_expired_at(u64::MAX, 0, u64::MAX));
}

#[test]
fn a_fresh_timestamp_is_not_expired() {
    let stamp = UpdatedAt::new();
    stamp.refresh();
    assert!(stamp.is_expired(0));
    assert!(!stamp.is_expired(3600));
}

#[test]
fn wait_counts_requests() {
    let (wait, _reader) = Wait::<u8>::new();
    assert_eq!(wait.count(), 0);
    assert_eq!(wait.request(), 0);
    assert_eq!(wait.request(), 1);
    assert_eq!(wait.request_immediate(), 3);
    assert_eq!(wait.count(), 3);
}

#[test]
fn wait_begins_by_draining_when_nothing_is_expected() {
    let (wait, _reader) = Wait::<u8>::new();
    assert_eq!(wait.begin(), WaitStep::Drain);
    wait.request();
    assert_eq!(wait.begin(), WaitStep::Receive);
    assert_eq!(Wait::<u8>::first_step(0), WaitStep::Drain);
    assert_eq!(Wait::<u8>::first_step(1), WaitStep::Receive);
}

#[test]
fn wait_takes_responses_in_the_order_posted() {
    let (wait, mut reader) = Wait::<u8>::new();
    wait.request();
    wait.request();
    wait.request();
    wait.respond(Some(1));
    wait.respond(None);
    wait.respond(Some(3));

    let item = reader.try_recv().ok();
    assert_eq!(item, Some(Some(1)));
    assert_eq!(wait.received(&item, false), WaitStep::Done);
    assert_eq!(wait.count(), 2);

    let item = reader.try_recv().ok();
    assert_eq!(item, Some(None));
    // an empty result does not end a wait for one
    assert_eq!(wait.received(&item, true), WaitStep::Done);
    assert_eq!(wait.count(), 1);

    let item = reader.try_recv().ok();
    assert_eq!(item, Some(Some(3)));
    assert_eq!(wait.received(&item, true), WaitStep::Drain);
    assert_eq!(wait.count(), 0);
}

#[test]
fn wait_drains_when_the_queue_has_ended() {
    let (wait, _reader) = Wait::<u8>::new();
    wait.request();
    assert_eq!(wait.received(&None, false), WaitStep::Drain);
    assert_eq!(wait.count(), 1);
    assert_eq!(Wait::<u8>::next_step(&None, true), WaitStep::Drain);
    assert_eq!(Wait::<u8>::next_step(&Some(Some(1)), false), WaitStep::Done);
    assert_eq!(Wait::<u8>::next_step(&Some(Some(1)), true), WaitStep::Drain);
    assert_eq!(Wait::<u8>::next_step(&Some(None), true), WaitStep::Done);
}

#[test]
fn respond_tolerates_a_closed_receiver() {
    let (wait, reader) = Wait::<u8>::new();
    drop(reader);
    wait.respond(Some(1));
    wait.respond(None);
}

#[test]
fn insertion_result_reports_change_no_change_or_failure() {
    assert_eq!(insertion_result(Insertion::Created, None), Ok(true));
    assert_eq!(insertion_result(Insertion::Updated, None), Ok(true));
    assert_eq!(insertion_result(Insertion::Failed, None), Ok(false));
    assert_eq!(insertion_result(Insertion::Failed, Some(AdnlError::UnknownClient)), Err(AdnlError::UnknownClient));
    assert_eq!(insertion_result(Insertion::Created, Some(AdnlError::UnknownClient)), Ok(true));
}

#[test]
fn decide_keeps_a_generated_value_when_nothing_is_found() {
    let mut asked = 0;
    let mut factory = |_found: Option<&u8>| -> Result<Option<u8>, AdnlError> {
        asked += 1;
        Ok(Some(1))
    };
    let mut error = None;
    assert!(matches!(decide(true, None, &mut factory, &mut error), Decision::Keep));
    assert!(error.is_none());
    assert_eq!(asked, 0);
}

#[test]
fn decide_asks_the_factory_otherwise() {
    let mut error = None;
    let mut make = |found: Option<&u8>| -> Result<Option<u8>, AdnlError> { Ok(Some(found.copied().unwrap_or(0) + 1)) };
    assert!(matches!(decide(false, None, &mut make, &mut error), Decision::New(1)));
    assert!(matches!(decide(false, Some(&4), &mut make, &mut error), Decision::New(5)));
    assert!(matches!(decide(true, Some(&4), &mut make, &mut error), Decision::New(5)));
    let mut leave = |_: Option<&u8>| -> Result<Option<u8>, AdnlError> { Ok(None) };
    assert!(matches!(decide(false, Some(&4), &mut leave, &mut error), Decision::Discard));
    assert!(error.is_none());
    let mut fail = |_: Option<&u8>| -> Result<Option<u8>, AdnlError> { Err(AdnlError::UnknownClient) };
    assert!(matches!(decide(false, None, &mut fail, &mut error), Decision::Discard));
    assert_eq!(error, Some(AdnlError::UnknownClient));
}

#[test]
fn add_unbound_object_inserts_once() {
    let map: lockfree::map::Map<u32, String> = lockfree::map::Map::new();
    assert_eq!(add_unbound_object_to_map(&map, 1, || Ok("one".to_string())), Ok(true));
    assert_eq!(map.get(&1).unwrap().val(), "one");
    // the entry that is there stays, and the factory is not asked for another
    assert_eq!(add_unbound_object_to_map(&map, 1, || Ok("uno".to_string())), Ok(false));
    assert_eq!(map.get(&1).unwrap().val(), "one");
    assert_eq!(add_unbound_object_to_map(&map, 1, || Err(AdnlError::UnknownClient)), Ok(false));
    assert_eq!(add_unbound_object_to_map(&map, 2, || Err(AdnlError::UnknownClient)), Err(AdnlError::UnknownClient));
    assert!(map.get(&2).is_none());
}

#[test]
fn add_unbound_object_with_update_replaces_or_leaves() {
    let map: lockfree::map::Map<u32, u32> = lockfree::map::Map::new();
    let bump = |found: Option<&u32>| -> Result<Option<u32>, AdnlError> { Ok(Some(found.copied().unwrap_or(0) + 10)) };
    assert_eq!(add_unbound_object_to_map_with_update(&map, 7, bump), Ok(true));
    assert_eq!(*map.get(&7).unwrap().val(), 10);
    assert_eq!(add_unbound_object_to_map_with_update(&map, 7, bump), Ok(true));
    assert_eq!(*map.get(&7).unwrap().val(), 20);
    let leave = |_: Option<&u32>| -> Result<Option<u32>, AdnlError> { Ok(None) };
    assert_eq!(add_unbound_object_to_map_with_update(&map, 7, leave), Ok(false));
    assert_eq!(add_unbound_object_to_map_with_update(&map, 8, leave), Ok(false));
    assert_eq!(*map.get(&7).unwrap().val(), 20);
    assert!(map.get(&8).is_none());
    let fail = |_: Option<&u32>| -> Result<Option<u32>, AdnlError> { Err(AdnlError::TransportClosed) };
    assert_eq!(add_unbound_object_to_map_with_update(&map, 7, fail), Err(AdnlError::TransportClosed));
    assert_eq!(*map.get(&7).unwrap().val(), 20);
}

#[test]
fn add_counted_object_counts_what_is_in_the_map() {
    let shared = Arc::new(AtomicU64::new(0));
    let map: lockfree::map::Map<u32, Session> = lockfree::map::Map::new();
    let make = || Ok(Session { value: 1, counter: Counter::from(shared.clone()) });
    assert_eq!(add_counted_object_to_map(&map, 1, make), Ok(true));
    assert_eq!(add_counted_object_to_map(&map, 1, make), Ok(false));
    assert_eq!(shared.load(Ordering::Relaxed), 1);
    let update = |found: Option<&Session>| -> Result<Option<Session>, AdnlError> {
        Ok(Some(Session { value: found.map(|t| t.value).unwrap_or(0) + 1, counter: Counter::from(shared.clone()) }))
    };
    assert_eq!(add_counted_object_to_map_with_update(&map, 2, update), Ok(true));
    assert_eq!(map.get(&2).unwrap().val().value, 1);
    assert_eq!(shared.load(Ordering::Relaxed), 2);
}
