use frappe::signal::{fold_values, last_value, Signal};
use frappe::types::Storage;
use std::sync::atomic::{AtomicI32, AtomicUsize, Ordering};
use std::sync::{Arc, RwLock};
use std::time::Instant;

#[test]
fn signal_signal_basic() {
    let signal = Signal::constant(42);
    let double = signal.map(|a| a * 2);
    let plusone = double.map(|a| a + 1);
    assert_eq!(signal.sample(), 42);
    assert_eq!(double.sample(), 84);
    assert_eq!(plusone.sample(), 85);
}

#[test]
fn signal_fold() {
    let sig1 = Signal::constant(1).fold(0, |a, n| a + n);
    let sig2 = Signal::from_fn(|| 1).fold(0, |a, n| a + n);

    assert_eq!(sig1.sample(), 1);
    assert_eq!(sig2.sample(), 1);

    assert_eq!(sig1.sample(), 2);
    assert_eq!(sig2.sample(), 2);
}

#[test]
fn signal_const() {
    let the_answer: Signal<i32> = Signal::constant(42);

    assert_eq!(the_answer.sample(), 42);
}

#[test]
fn signal_dynamic() {
    let t = Instant::now();
    let signal = Signal::from_fn(move || t);
    assert_eq!(signal.sample(), t);

    let n = Arc::new(RwLock::new(1));
    let cloned = n.clone();
    let signal = Signal::from_fn(move || *cloned.read().unwrap());
    let double = signal.map(|a| a * 2);
    let plusone = double.map(|a| a + 1);
    assert_eq!(signal.sample(), 1);
    assert_eq!(double.sample(), 2);
    assert_eq!(plusone.sample(), 3);
    *n.write().unwrap() = 13;
    assert_eq!(signal.sample(), 13);
    assert_eq!(double.sample(), 26);
    assert_eq!(plusone.sample(), 27);
}

#[test]
fn constant_map_is_applied_once() {

    let calls = Arc::new(AtomicUsize::new(0));
    let counted = calls.clone();
    let signal = Signal::constant(5).map(move |a| {
        counted.fetch_add(1, Ordering::SeqCst);
        a + 1
    });
    assert_eq!(calls.load(Ordering::SeqCst), 1);
    assert_eq!(signal.sample(), 6);
    assert_eq!(signal.sample(), 6);
    assert_eq!(calls.load(Ordering::SeqCst), 1);
}

#[test]
fn dynamic_map_is_applied_on_every_sample() {

    let calls = Arc::new(AtomicUsize::new(0));
    let counted = calls.clone();
    let signal = Signal::from_fn(|| 5).map(move |a| {
        counted.fetch_add(1, Ordering::SeqCst);
        a + 1
    });
    assert_eq!(calls.load(Ordering::SeqCst), 0);
    assert_eq!(signal.sample(), 6);
    assert_eq!(signal.sample(), 6);
    assert_eq!(calls.load(Ordering::SeqCst), 2);
}

#[test]
fn map_twice_composes() {
    let signal = Signal::from_fn(|| 7).map(|a| a * 3).map(|a| a - 1);
    assert_eq!(signal.sample(), 20);
}

#[test]
fn fold_folds_every_sample() {

    let counter = Arc::new(AtomicI32::new(0));
    let source = counter.clone();
    let sig = Signal::from_fn(move || source.fetch_add(1, Ordering::SeqCst))
        .fold(Vec::new(), |mut acc: Vec<i32>, n| {
            acc.push(n);
            acc
        });
    assert_eq!(sig.sample(), vec![0]);
    assert_eq!(sig.sample(), vec![0, 1]);
    assert_eq!(sig.sample(), vec![0, 1, 2]);
}

#[test]
fn fold_of_mapped_constant() {
    let sig = Signal::constant(2).map(|a| a * 10).fold(1, |acc, n| acc * n);
    assert_eq!(sig.sample(), 20);
    assert_eq!(sig.sample(), 400);
}

#[test]
fn switch_of_constant_signal() {
    let nested = Signal::constant(Signal::constant(3));
    let switched = nested.switch();
    assert_eq!(switched.sample(), 3);

    let nested = Signal::constant(Signal::from_fn(|| 9));
    assert_eq!(nested.switch().sample(), 9);
}

#[test]
fn switch_of_dynamic_signal() {

    let which = Arc::new(AtomicI32::new(1));
    let read = which.clone();
    let nested = Signal::from_fn(move || Signal::constant(read.load(Ordering::SeqCst) * 100));
    let switched = nested.switch();
    let double = switched.map(|a| a * 2);
    assert_eq!(switched.sample(), 100);
    assert_eq!(double.sample(), 200);
    which.store(12, Ordering::SeqCst);
    assert_eq!(switched.sample(), 1200);
    assert_eq!(double.sample(), 2400);
}

#[test]
fn from_channel_keeps_last_value() {
    let (tx, rx) = std::sync::mpsc::channel();
    let sig = Signal::from_channel(0, rx);
    assert_eq!(sig.sample(), 0);
    tx.send(4).unwrap();
    tx.send(7).unwrap();
    assert_eq!(sig.sample(), 7);
    assert_eq!(sig.sample(), 7);
    drop(tx);
    assert_eq!(sig.sample(), 7);
}

#[test]
fn fold_channel_sums_values() {
    let (tx, rx) = std::sync::mpsc::channel();
    let sig = Signal::fold_channel(0, rx, |a, n: i32| a + n);
    assert_eq!(sig.sample(), 0);
    for n in 1..100 {
        tx.send(n).unwrap();
    }
    assert_eq!(sig.sample(), 4950);
    tx.send(50).unwrap();
    assert_eq!(sig.sample(), 5000);
}

#[test]
fn from_storage_reads_current_value() {

    let storage = Arc::new(Storage::new(1));
    let sig = Signal::from_storage(storage.clone(), ());
    assert_eq!(sig.sample(), 1);
    storage.set(5);
    assert_eq!(sig.sample(), 5);
}

#[test]
fn default_and_clone() {
    let sig: Signal<i32> = Default::default();
    assert_eq!(sig.sample(), 0);
    let copy = sig.clone();
    assert_eq!(copy.sample(), 0);

    let dynamic = Signal::from_fn(|| String::from("x"));
    let again = dynamic.clone();
    assert_eq!(again.sample(), "x");
}

#[test]
fn fold_channel_folds_pending_in_order() {
    let (tx, rx) = std::sync::mpsc::channel();
    tx.send(1).unwrap();
    tx.send(2).unwrap();
    tx.send(3).unwrap();
    let s = Signal::fold_channel(10, rx, |a, n| a + n);
    assert_eq!(s.sample(), 16);
    assert_eq!(s.sample(), 16);
    let (tx, rx) = std::sync::mpsc::channel();
    let order = Signal::fold_channel(String::new(), rx, |mut a: String, c: char| {
        a.push(c);
        a
    });
    tx.send('a').unwrap();
    tx.send('b').unwrap();
    drop(tx);
    assert_eq!(order.sample(), "ab");
}

#[test]
fn fold_values_and_last_value() {
    assert_eq!(fold_values(&|a: i32, n: i32| a * 10 + n, 1, vec![2, 3, 4]), 1234);
    assert_eq!(fold_values(&|a: i32, n: i32| a + n, 7, Vec::new()), 7);
    assert_eq!(last_value(0, vec![4, 7]), 7);
    assert_eq!(last_value(5, Vec::new()), 5);
}

#[test]
fn signal_from_value() {
    let s: Signal<i32> = Signal::from(8);
    assert_eq!(s.sample(), 8);
}
