use frappe::signal::Signal;
use frappe::stream::{Sink, Stream};
use maybe_owned::MaybeOwned;
use std::sync::{Arc, Mutex};

fn vec_cons<T: Clone>(mut v: Vec<T>, x: MaybeOwned<'_, T>) -> Vec<T> {
    v.push(x.into_owned());
    v
}

#[test]
fn stream_basic() {
    let sink = Sink::new();
    let stream = sink.stream();
    let rx = stream.channel();
    let signal = stream.hold(0);

    sink.send(42);
    sink.send(33);
    sink.feed(vec![0, 1, 2, 3, 4]);

    let result: Vec<i32> = rx.try_iter().collect();
    assert_eq!(result, [42, 33, 0, 1, 2, 3, 4]);
    assert_eq!(signal.sample(), 4);
}

#[test]
fn tests_signal_basic() {
    let signal = Signal::constant(42);
    assert_eq!(signal.sample(), 42);

    let val = 33;
    let signal = Signal::from_fn(move || val);
    assert_eq!(signal.sample(), val);

    let sink = Sink::new();
    let signal = sink.stream().hold(0).map(|a| a * 2);
    sink.send(2);
    sink.send(4);
    assert_eq!(signal.sample(), 8);
}

#[test]
fn tests_stream_operations() {
    let sink: Sink<i32> = Sink::new();
    let stream = sink.stream();

    let s_string = stream.map(|a| a.to_string()).fold(vec![], vec_cons);
    let s_odd = stream.filter(|a| *a % 2 != 0).fold(vec![], vec_cons);
    let s_even_half = stream
        .filter_map(|a| if *a % 2 == 0 { Some(*a / 2) } else { None })
        .fold(vec![], vec_cons);
    let (pos, neg) = stream.map(|a| if *a > 0 { Ok(*a) } else { Err(*a) }).split();
    let s_pos = pos.fold(vec![], vec_cons);
    let s_neg = neg.fold(vec![], vec_cons);
    let s_merged = pos.merge(&neg.map(|a| -*a)).fold(vec![], vec_cons);
    let s_accum = stream
        .fold(vec![], vec_cons)
        .snapshot(&stream, |s, _| s)
        .fold(vec![], vec_cons);

    sink.feed(vec![5, 8, 13, -2, 42, -33]);

    assert_eq!(s_string.sample(), ["5", "8", "13", "-2", "42", "-33"]);
    assert_eq!(s_odd.sample(), [5, 13, -33]);
    assert_eq!(s_even_half.sample(), [4, -1, 21]);
    assert_eq!(s_pos.sample(), [5, 8, 13, 42]);
    assert_eq!(s_neg.sample(), [-2, -33]);
    assert_eq!(s_merged.sample(), [5, 8, 13, 2, 42, 33]);
    assert_eq!(
        s_accum.sample(),
        [
            vec![5],
            vec![5, 8],
            vec![5, 8, 13],
            vec![5, 8, 13, -2],
            vec![5, 8, 13, -2, 42],
            vec![5, 8, 13, -2, 42, -33]
        ]
    );
}

#[test]
fn tests_merge_with() {
    let sink1: Sink<i32> = Sink::new();
    let sink2: Sink<f32> = Sink::new();
    let stream: Stream<Result<i32, f32>> =
        sink1.stream().merge_with(&sink2.stream(), |e| e.either(|l| Ok(*l), |r| Err(*r)));
    let result = stream.fold(vec![], vec_cons);

    sink1.send(1);
    sink2.send(2.0);
    sink1.send(3);
    sink1.send(4);
    sink2.send(5.0);

    assert_eq!(result.sample(), [Ok(1), Err(2.0), Ok(3), Ok(4), Err(5.0)]);
}

#[test]
fn integration_stream_operations() {
    let sink: Sink<i32> = Sink::new();
    let stream = sink.stream();

    let s_string = stream.map(|a| a.to_string()).fold(vec![], vec_cons);
    let s_odd = stream.filter(|a| a % 2 != 0).fold(vec![], vec_cons);
    let s_even_half = stream
        .filter_map(|a| if *a % 2 == 0 { Some(*a / 2) } else { None })
        .fold(vec![], vec_cons);
    let (pos, neg) = stream.map(|a| if *a > 0 { Ok(*a) } else { Err(*a) }).split();
    let s_pos = pos.fold(vec![], vec_cons);
    let s_neg = neg.fold(vec![], vec_cons);
    let s_merged = pos.merge(&neg.map(|a| -*a)).fold(vec![], vec_cons);
    let s_accum = stream
        .fold(vec![], vec_cons)
        .snapshot(&stream, |s, _| s)
        .fold(vec![], vec_cons);
    let s_cloned = stream.fold_clone(vec![], |mut a, v| {
        a.push(v.into_owned());
        a
    });
    let s_last_pos = stream.hold_if(0, |a| *a > 0);

    sink.feed(vec![5, 8, 13, -2, 42, -33]);

    assert_eq!(s_string.sample(), ["5", "8", "13", "-2", "42", "-33"]);
    assert_eq!(s_odd.sample(), [5, 13, -33]);
    assert_eq!(s_even_half.sample(), [4, -1, 21]);
    assert_eq!(s_pos.sample(), [5, 8, 13, 42]);
    assert_eq!(s_neg.sample(), [-2, -33]);
    assert_eq!(s_merged.sample(), [5, 8, 13, 2, 42, 33]);
    assert_eq!(
        s_accum.sample(),
        [
            vec![5],
            vec![5, 8],
            vec![5, 8, 13],
            vec![5, 8, 13, -2],
            vec![5, 8, 13, -2, 42],
            vec![5, 8, 13, -2, 42, -33]
        ]
    );
    assert_eq!(s_cloned.sample(), [5, 8, 13, -2, 42, -33]);
    assert_eq!(s_last_pos.sample(), 42);
}

#[test]
fn integration_merge_with() {
    let sink1: Sink<i32> = Sink::new();
    let sink2: Sink<f32> = Sink::new();
    let stream = sink1.stream().merge_with(&sink2.stream(), |e| e.either(|l| Ok(*l), |r| Err(*r)));
    let result = stream.fold(vec![], vec_cons);

    sink1.send(1);
    sink2.send(2.0);
    sink1.send(3);
    sink1.send(4);
    sink2.send(5.0);

    assert_eq!(result.sample(), [Ok(1), Err(2.0), Ok(3), Ok(4), Err(5.0)]);
}

#[test]
fn filter_extra() {
    let sink = Sink::new();
    let stream = sink.stream();
    let sign_res = stream.map(|a| if *a >= 0 { Ok(*a) } else { Err(*a) });
    let even_opt = stream.map(|a| if *a % 2 == 0 { Some(*a) } else { None });
    let s_even = even_opt.filter_some().fold(vec![], vec_cons);
    let s_pos = sign_res.filter_first().fold(vec![], vec_cons);
    let s_neg = sign_res.filter_second().fold(vec![], vec_cons);

    sink.feed(vec![1, 8, -3, 42, -66]);

    assert_eq!(s_even.sample(), [8, 42, -66]);
    assert_eq!(s_pos.sample(), [1, 8, 42]);
    assert_eq!(s_neg.sample(), [-3, -66]);
}

#[test]
fn reentrant() {
    let sink = Sink::new();
    let cloned = sink.clone();
    let sig = sink
        .stream()
        .filter_map(move |n| {
            if *n < 10 {
                cloned.send(*n + 1);
                None
            } else {
                Some(*n)
            }
        })
        .hold(0);

    sink.send(1);
    assert_eq!(sig.sample(), 10);
}

fn stream_cell(src: &Stream<i32>, i: i32) -> (Stream<i32>, Arc<Mutex<i32>>) {
    let cell = Arc::new(Mutex::new(0));
    let cloned = cell.clone();
    let stream = src.map(move |n| *n + i).inspect(move |n| *cloned.lock().unwrap() = *n);
    (stream, cell)
}

#[allow(unused_variables)]
#[test]
fn deletion() {
    let sink = Sink::new();
    let stream = sink.stream();
    let (s1, c1) = stream_cell(&stream, 1);
    let (s2, c2) = stream_cell(&stream, 2);
    let (s3, c3) = stream_cell(&stream, 3);

    sink.send(10);
    assert_eq!(*c1.lock().unwrap(), 11);
    assert_eq!(*c2.lock().unwrap(), 12);
    assert_eq!(*c3.lock().unwrap(), 13);

    drop(s2);
    sink.send(20);
    assert_eq!(*c1.lock().unwrap(), 21);
    assert_eq!(*c2.lock().unwrap(), 12);
    assert_eq!(*c3.lock().unwrap(), 23);
}

#[test]
fn map_n() {
    let sink = Sink::new();
    let s_out = sink
        .stream()
        .map_n(|a, sink| {
            for _ in 0..*a {
                sink.send(*a)
            }
        })
        .fold(vec![], vec_cons);

    sink.feed(vec![0, 1, 2, 3]);

    assert_eq!(s_out.sample(), [1, 2, 2, 3, 3, 3]);
}

#[test]
fn switch_follows_last_stream() {
    let outer: Sink<Stream<i32>> = Sink::new();
    let switched = outer.stream().switch();
    let seen = switched.fold(vec![], vec_cons);
    let first: Sink<i32> = Sink::new();
    let second: Sink<i32> = Sink::new();

    outer.send(first.stream());
    first.send(1);
    outer.send(second.stream());
    first.send(2);
    second.send(3);

    assert_eq!(seen.sample(), [1, 3]);
}

#[test]
fn split_drops_values_of_dead_side() {
    let sink: Sink<Result<i32, i32>> = Sink::new();
    let (ok, err) = sink.stream().split();
    let s_ok = ok.fold(vec![], vec_cons);
    drop(err);

    sink.feed(vec![Ok(1), Err(2), Ok(3)]);

    assert_eq!(s_ok.sample(), [1, 3]);
}

#[test]
fn hold_keeps_initial_until_send() {
    let sink: Sink<i32> = Sink::new();
    let held = sink.stream().hold_if(7, |a| *a > 100);
    assert_eq!(held.sample(), 7);
    sink.send(5);
    assert_eq!(held.sample(), 7);
    sink.send(500);
    assert_eq!(held.sample(), 500);
}

#[test]
fn observe_drops_after_false() {
    let sink: Sink<i32> = Sink::new();
    let log = Arc::new(Mutex::new(Vec::new()));
    let l = log.clone();
    sink.stream().observe(move |a| {
        l.lock().unwrap().push(*a);
        *a < 2
    });
    sink.feed(vec![1, 2, 3]);
    assert_eq!(*log.lock().unwrap(), [1, 2]);
}

#[test]
fn map_identity_keeps_samples() {
    let sink: Sink<i32> = Sink::new();
    let held = sink.stream().hold(3);
    let same = held.map(|x| x);
    assert_eq!(same.sample(), held.sample());
    sink.send(9);
    assert_eq!(same.sample(), 9);
    assert_eq!(held.sample(), 9);
}

#[test]
fn folds_start_at_initial() {
    let sink: Sink<i32> = Sink::new();
    let total = sink.stream().fold(10, |a, x| a + *x);
    let cloned_total = sink.stream().fold_clone(10, |a, x| a + *x);
    assert_eq!(total.sample(), 10);
    assert_eq!(cloned_total.sample(), 10);
    sink.feed(vec![1, 2, 3]);
    assert_eq!(total.sample(), 16);
    assert_eq!(cloned_total.sample(), 16);
}

#[test]
fn signal_switch() {
    let signal_sink = Sink::new();
    let switched = signal_sink.stream().hold(Default::default()).switch();
    let double = switched.map(|a| a * 2);

    signal_sink.send(Signal::constant(1));
    assert_eq!(switched.sample(), 1);
    assert_eq!(double.sample(), 2);

    signal_sink.send(Signal::from_fn(|| 12));
    assert_eq!(switched.sample(), 12);
    assert_eq!(double.sample(), 24);
}
