use frappe::sync::Mutex;
use frappe::types::shared_impl::{SharedImpl, SharedSignal};
use frappe::types::Storage;
use std::sync::mpsc::channel;

#[test]
fn shared_storage_only() {
    let s = SharedImpl::new(3, "source");
    assert_eq!(s.source, "source");
    assert_eq!(s.get_storage().get(), 3);
    assert_eq!(s.sample().get(), 3);
    s.storage.set(4);
    assert_eq!(s.get(), 4);
    let shared = s.wrap();
    assert_eq!(shared.sample().get(), 4);
}

#[test]
fn shared_map_of_parent() {
    let parent = SharedImpl::new(5, ()).wrap();
    let child = SharedImpl { storage: Storage::new(0), source: parent.clone(), f: |p: i32| p * 3 };
    assert_eq!(child.get_storage().get(), 0);
    assert_eq!(child.sample().get(), 15);
    parent.set(7);
    assert_eq!(child.get(), 15);
    assert_eq!(child.sample().get(), 21);
}

#[test]
fn shared_fold_of_channel() {
    let (tx, rx) = channel();
    let sig = SharedImpl { storage: Storage::new(1), source: Mutex::new(rx), f: |a: i32, n: i32| a * n };
    assert_eq!(sig.sample().get(), 1);
    tx.send(2).unwrap();
    tx.send(3).unwrap();
    tx.send(4).unwrap();
    assert_eq!(sig.sample().get(), 24);
    assert_eq!(sig.sample().get(), 24);
}
