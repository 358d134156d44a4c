# frappe

A functional reactive programming library: signals are values that change over time,
streams are events sent over time.

## Layout

- `src/` is the verified library.
  - `signal.rs`: signals and their sources (closures, storage cells, channels, and other
    signals mapped, folded or switched). A dynamic signal holds its source as a trait
    object (`Box<dyn Source<T>>`), so signals of one value type can be mixed freely. Every
    source states which values reading it can give; `map`, `fold`, `switch` and the
    constructors state how those values relate.
  - `types.rs`: the `SumType2` and `ObserveResult` traits and their implementations;
    `types/storage.rs`, the shared storage cell; `types/callbacks.rs`, callback cells and
    the loops that hand a value to a list of them.
  - `sync.rs`: mutex and reader-writer lock built on the verified lock of `vstd`; each lock
    keeps an invariant over the values it holds.
  - `futures.rs`: the state machine of a future that waits for a stream value.
  - `stream.rs`: sinks and streams. A stream holds a list of callbacks (library trait
    objects, `Box<dyn Callback<T>>`) and the values it may fire, as a predicate: a sink
    may fire anything, and each combinator states what its output may fire in terms of
    what its inputs may fire (the values a filter accepted, what a map gives, the
    first-variant parts for a split, `f(sample, event)` for a snapshot). The combinators
    that give signals (`fold`, `fold_clone`, `hold`, `hold_if`) state which values
    sampling them can give, over the values the stream may fire. A callback is handed
    each value with the tag of the list that sends it, and checks that tag against the
    list it was registered on before forwarding.
  - `helpers.rs`: weak references to shared values, used by a callback to reach the
    stream or storage it feeds without keeping it alive.
- `app/` holds what needs threads, a `Waker` or a macro: the future that waits for the
  next value of a stream, sending a value to a callback list on several threads, and the
  `signal_lift` macro.
- `tests/` runs the library.
