use frappe::futures::{FutureValue, PollOutcome};
use frappe::stream::{split_step, SplitSide};
use frappe::types::callbacks::{call_owned, call_ref, CallbackBox, Callbacks, FnCell, ListTag};
use maybe_owned::MaybeOwned;
use std::sync::{Arc, Mutex};

type Cb = Box<dyn Fn(MaybeOwned<'_, i32>, &ListTag<i32>) -> bool + Send + Sync>;

fn tag() -> Arc<ListTag<i32>> {
    Callbacks::<i32>::new().tag()
}

fn recording(log: &Arc<Mutex<Vec<(bool, i32)>>>, keep: bool) -> FnCell<i32, Cb> {
    let log = log.clone();
    let cb: Cb = Box::new(move |arg: MaybeOwned<'_, i32>, _from: &ListTag<i32>| {
        log.lock().unwrap().push((arg.is_owned(), *arg));
        keep
    });
    FnCell::new(cb)
}

#[test]
fn fn_cell_dies_after_false() {
    let log = Arc::new(Mutex::new(Vec::new()));
    let cell = recording(&log, false);
    assert!(cell.is_alive());
    assert!(!cell.call(MaybeOwned::Owned(1), &tag()));
    assert!(!cell.is_alive());
    assert!(!cell.call(MaybeOwned::Owned(2), &tag()));
    assert_eq!(*log.lock().unwrap(), [(true, 1)]);
}

#[test]
fn call_owned_gives_value_to_last() {
    let log = Arc::new(Mutex::new(Vec::new()));
    let fs = vec![recording(&log, true), recording(&log, true), recording(&log, true)];
    assert_eq!(call_owned(&fs, 7, &tag()), (true, vec![true, true, true]));
    assert_eq!(*log.lock().unwrap(), [(false, 7), (false, 7), (true, 7)]);
}

#[test]
fn call_owned_reports_dead_callbacks() {
    let log = Arc::new(Mutex::new(Vec::new()));
    let fs = vec![recording(&log, false), recording(&log, true)];
    assert_eq!(call_owned(&fs, 3, &tag()), (false, vec![false, true]));
    assert!(!fs[0].is_alive());
    assert!(fs[1].is_alive());
    assert_eq!(call_owned(&Vec::<FnCell<i32, Cb>>::new(), 3, &tag()), (true, vec![]));
}

#[test]
fn call_ref_borrows_for_all() {
    let log = Arc::new(Mutex::new(Vec::new()));
    let fs = vec![recording(&log, true), recording(&log, true)];
    assert_eq!(call_ref(&fs, &4, &tag()), (true, vec![true, true]));
    assert_eq!(*log.lock().unwrap(), [(false, 4), (false, 4)]);
}

#[test]
fn call_ref_does_not_stop_at_dead_cell() {
    let log = Arc::new(Mutex::new(Vec::new()));
    let fs = vec![recording(&log, false), recording(&log, true), recording(&log, false)];
    assert_eq!(call_ref(&fs, &5, &tag()), (false, vec![false, true, false]));
    assert_eq!(*log.lock().unwrap(), [(false, 5), (false, 5), (false, 5)]);
    assert_eq!(call_ref(&fs, &6, &tag()), (false, vec![false, true, false]));
    assert_eq!(*log.lock().unwrap(), [(false, 5), (false, 5), (false, 5), (false, 6)]);
}

#[test]
fn future_value_transitions() {
    let mut fv = FutureValue::new();
    assert!(matches!(fv.poll(), PollOutcome::Pending));
    fv.deliver(42);
    fv.deliver(13);
    assert!(matches!(fv.poll(), PollOutcome::Ready(13)));
    assert!(matches!(fv, FutureValue::Finished));
    assert!(fv.reload());
    assert!(matches!(fv, FutureValue::Pending));
    assert!(!fv.reload());
    fv.deliver(7);
    assert!(!fv.reload());
    assert!(matches!(fv.poll(), PollOutcome::Ready(7)));
}

#[test]
fn split_routes_by_variant() {
    let s = split_step(true, true, false);
    assert!(matches!(s.deliver, Some(SplitSide::First)));
    assert!(s.keep);
    let s = split_step(false, true, false);
    assert!(s.deliver.is_none());
    assert!(s.keep);
    let s = split_step(false, false, true);
    assert!(matches!(s.deliver, Some(SplitSide::Second)));
    let s = split_step(true, false, false);
    assert!(s.deliver.is_none());
    assert!(!s.keep);
}

#[test]
fn list_methods_report_outcomes() {
    let list: Callbacks<i32> = Callbacks::new();
    let log = Arc::new(Mutex::new(Vec::new()));
    list.push(CallbackBox::new(Box::new(recording(&log, true))));
    list.push(CallbackBox::new(Box::new(recording(&log, false))));
    assert_eq!(list.call_owned(1), (false, vec![true, false]));
    assert_eq!(list.call_ref(&2), (false, vec![true, false]));
    assert_eq!(*log.lock().unwrap(), [(false, 1), (true, 1), (false, 2)]);
}
