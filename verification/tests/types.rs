use frappe::types::Either;
use frappe::types::{ObserveResult, Storage, SumType2};

struct NoClone(Vec<i32>);

impl Clone for NoClone {
    fn clone(&self) -> Self {
        panic!("storage cloned")
    }
}

#[test]
fn option_sum_type() {
    let a: Option<i32> = SumType2::from_type1(3);
    assert!(a.is_type1());
    assert!(!a.is_type2());
    assert_eq!(a.into_type1(), Some(3));
    assert_eq!(a.into_type2(), None);
    let b: Option<i32> = SumType2::from_type2(());
    assert!(b.is_type2());
    assert_eq!(b.into_type1(), None);
    assert_eq!(b.into_type2(), Some(()));
}

#[test]
fn result_sum_type() {
    let a: Result<i32, String> = SumType2::from_type1(3);
    assert!(a.is_type1());
    assert_eq!(a.clone().into_type1(), Some(3));
    assert_eq!(a.into_type2(), None);
    let b: Result<i32, String> = SumType2::from_type2("no".to_string());
    assert!(b.is_type2());
    assert_eq!(b.clone().into_type1(), None);
    assert_eq!(b.into_type2(), Some("no".to_string()));
}

#[test]
fn either_sum_type() {
    let a: Either<i32, char> = SumType2::from_type1(3);
    assert!(a.is_type1());
    assert_eq!(a.into_type1(), Some(3));
    assert_eq!(a.into_type2(), None);
    let b: Either<i32, char> = SumType2::from_type2('z');
    assert!(b.is_type2() && !b.is_type1());
    assert_eq!(b.into_type2(), Some('z'));
    assert_eq!(b.into_type1(), None);
}

#[test]
fn observe_results() {
    assert!(().is_callback_alive());
    assert!(true.is_callback_alive());
    assert!(!false.is_callback_alive());
    assert!(Some(1).is_callback_alive());
    assert!(!None::<i32>.is_callback_alive());
    assert!(Ok::<i32, ()>(1).is_callback_alive());
    assert!(!Err::<i32, ()>(()).is_callback_alive());
}

#[test]
fn storage_operations() {
    let st = Storage::new(10);
    assert_eq!(st.get(), 10);
    st.set(11);
    assert_eq!(st.get(), 11);
    st.replace(|v| v * 2);
    assert_eq!(st.get(), 22);
    assert_eq!(st.replace_fetch(|v| v + 1), 23);
    st.replace_clone(|v| v - 3);
    assert_eq!(st.get(), 20);
}

#[test]
fn storage_replace_does_not_clone() {
    let st = Storage::new(NoClone(Vec::new()));
    for n in 0..5 {
        st.replace(|mut v| {
            v.0.push(n);
            v
        });
    }
    st.replace(|v| {
        assert_eq!(v.0, [0, 1, 2, 3, 4]);
        v
    });
}
