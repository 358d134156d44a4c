use frappe::sync::{Mutex, RwLock};

#[test]
fn mutex_lock_and_unlock() {
    let m = Mutex::new(5);
    let (v, guard) = m.lock();
    assert_eq!(v, 5);
    guard.unlock(v + 1);
    let (v, guard) = m.lock();
    assert_eq!(v, 6);
    guard.unlock(v);
}

#[test]
fn rwlock_read_and_write() {
    let l = RwLock::new(vec![1, 2]);
    let r1 = l.read();
    let r2 = l.read();
    assert_eq!(*r1.get(), vec![1, 2]);
    assert_eq!(r1.get(), r2.get());
    r1.release();
    r2.release();
    let (mut v, w) = l.write();
    v.push(3);
    w.unlock(v);
    let r = l.read();
    assert_eq!(*r.get(), vec![1, 2, 3]);
    r.release();
}
