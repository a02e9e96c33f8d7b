use sval::error::{Error, ErrorKind};
use sval::owned::OwnedValue;
use sval::stream::{Arguments, Stream};
use sval::value::Value;

#[derive(Debug, PartialEq)]
enum Call {
    SeqBegin(Option<usize>),
    SeqElem,
    SeqEnd,
    MapBegin(Option<usize>),
    MapKey,
    MapValue,
    MapEnd,
    U64(u64),
    Str(String),
    End,
}

struct Recorder {
    calls: Vec<Call>,
}

impl Stream for Recorder {
    fn u64(&mut self, v: u64) -> Result<(), Error> {
        self.calls.push(Call::U64(v));
        Ok(())
    }

    fn str(&mut self, v: &str) -> Result<(), Error> {
        self.calls.push(Call::Str(v.to_string()));
        Ok(())
    }

    fn seq_begin(&mut self, hint: Option<usize>) -> Result<(), Error> {
        self.calls.push(Call::SeqBegin(hint));
        Ok(())
    }

    fn seq_elem(&mut self) -> Result<(), Error> {
        self.calls.push(Call::SeqElem);
        Ok(())
    }

    fn seq_end(&mut self) -> Result<(), Error> {
        self.calls.push(Call::SeqEnd);
        Ok(())
    }

    fn map_begin(&mut self, hint: Option<usize>) -> Result<(), Error> {
        self.calls.push(Call::MapBegin(hint));
        Ok(())
    }

    fn map_key(&mut self) -> Result<(), Error> {
        self.calls.push(Call::MapKey);
        Ok(())
    }

    fn map_value(&mut self) -> Result<(), Error> {
        self.calls.push(Call::MapValue);
        Ok(())
    }

    fn map_end(&mut self) -> Result<(), Error> {
        self.calls.push(Call::MapEnd);
        Ok(())
    }

    fn end(&mut self) -> Result<(), Error> {
        self.calls.push(Call::End);
        Ok(())
    }
}

/// Streams `{1: {2: 42}}` with a size hint of one entry on each map.
struct NestedMap;

impl Value for NestedMap {
    fn stream<S: Stream>(&self, stream: &mut S) -> Result<(), Error> {
        stream.map_begin(Some(1))?;
        stream.map_key()?;
        stream.u64(1)?;
        stream.map_value()?;
        stream.map_begin(Some(1))?;
        stream.map_key()?;
        stream.u64(2)?;
        stream.map_value()?;
        stream.u64(42)?;
        stream.map_end()?;
        stream.map_end()
    }
}

struct NothingProducer;

impl Value for NothingProducer {
    fn stream<S: Stream>(&self, _stream: &mut S) -> Result<(), Error> {
        Ok(())
    }
}

struct TwoRoots;

impl Value for TwoRoots {
    fn stream<S: Stream>(&self, stream: &mut S) -> Result<(), Error> {
        stream.u64(1)?;
        stream.u64(2)
    }
}

struct DanglingValue;

impl Value for DanglingValue {
    fn stream<S: Stream>(&self, stream: &mut S) -> Result<(), Error> {
        stream.map_begin(Some(1))?;
        stream.map_key()?;
        stream.u64(1)?;
        stream.map_value()?;
        stream.map_end()?;
        stream.map_end()
    }
}

struct EmptyComposites;

impl Value for EmptyComposites {
    fn stream<S: Stream>(&self, stream: &mut S) -> Result<(), Error> {
        stream.seq_begin(Some(2))?;
        stream.seq_elem()?;
        stream.seq_begin(Some(0))?;
        stream.seq_end()?;
        stream.seq_elem()?;
        stream.map_begin(Some(0))?;
        stream.map_end()?;
        stream.seq_end()
    }
}

fn nested_map_snapshot() -> OwnedValue {
    OwnedValue::Mapping(vec![(
        OwnedValue::U64(1),
        OwnedValue::Mapping(vec![(OwnedValue::U64(2), OwnedValue::U64(42))]),
    )])
}

fn deep(levels: usize) -> OwnedValue {
    let mut v = OwnedValue::Sequence(Vec::new());
    for _ in 1..levels {
        v = OwnedValue::Sequence(vec![v]);
    }
    v
}

fn mixed() -> OwnedValue {
    OwnedValue::Mapping(vec![
        (
            OwnedValue::Str(String::from("k")),
            OwnedValue::Sequence(vec![
                OwnedValue::U64(1),
                OwnedValue::I64(-5),
                OwnedValue::Bool(false),
                OwnedValue::Char('x'),
                OwnedValue::Unit,
            ]),
        ),
        (OwnedValue::U64(9), OwnedValue::Str(String::from("v"))),
    ])
}

#[test]
fn nested_map_call_order() {
    let recorder = Recorder { calls: Vec::new() };
    let recorder = sval::stream(NestedMap, recorder).expect("the producer is well-formed");
    assert_eq!(
        recorder.calls,
        vec![
            Call::MapBegin(Some(1)),
            Call::MapKey,
            Call::U64(1),
            Call::MapValue,
            Call::MapBegin(Some(1)),
            Call::MapKey,
            Call::U64(2),
            Call::MapValue,
            Call::U64(42),
            Call::MapEnd,
            Call::MapEnd,
            Call::End,
        ]
    );
}

#[test]
fn nested_map_capture() {
    let got = OwnedValue::from_value(NestedMap).expect("the producer is well-formed");
    assert_eq!(got, nested_map_snapshot());
}

#[test]
fn round_trip_nested_map() {
    let first = OwnedValue::from_value(NestedMap).expect("the first capture succeeds");
    let second = first.snapshot().expect("the snapshot is shallow enough");
    assert_eq!(first, second);
    let third = OwnedValue::from_value(second).expect("a snapshot is a producer again");
    assert_eq!(third, nested_map_snapshot());
}

#[test]
fn round_trip_mixed_value() {
    let first = OwnedValue::from_value(mixed()).expect("the value is well-formed");
    assert_eq!(first, mixed());
    let second = first.snapshot().expect("the snapshot is shallow enough");
    assert_eq!(second, mixed());
}

#[test]
fn capture_primitives() {
    assert_eq!(OwnedValue::from_value(42u64).unwrap(), OwnedValue::U64(42));
    assert_eq!(OwnedValue::from_value(-3i64).unwrap(), OwnedValue::I64(-3));
    assert_eq!(OwnedValue::from_value(true).unwrap(), OwnedValue::Bool(true));
    assert_eq!(OwnedValue::from_value('q').unwrap(), OwnedValue::Char('q'));
    assert_eq!(
        OwnedValue::from_value("A string").unwrap(),
        OwnedValue::Str(String::from("A string"))
    );
    assert_eq!(
        OwnedValue::from_value(String::from("owned")).unwrap(),
        OwnedValue::Str(String::from("owned"))
    );
}

#[test]
fn capture_empty_composites() {
    let got = OwnedValue::from_value(EmptyComposites).expect("empty composites are fine");
    assert_eq!(
        got,
        OwnedValue::Sequence(vec![
            OwnedValue::Sequence(Vec::new()),
            OwnedValue::Mapping(Vec::new()),
        ])
    );
}

#[test]
fn snapshot_at_max_depth_succeeds() {
    let v = deep(16);
    let w = v.snapshot().expect("the depth limit is not crossed");
    assert_eq!(v, w);
    let recaptured = OwnedValue::from_value(w).expect("the capture path agrees");
    assert_eq!(recaptured, deep(16));
}

#[test]
fn snapshot_past_max_depth_is_rejected() {
    let e = deep(17).snapshot().expect_err("one level too deep");
    assert_eq!(e.kind(), ErrorKind::DepthExceeded);
    let e = OwnedValue::from_value(deep(17)).expect_err("the capture path agrees");
    assert_eq!(e.kind(), ErrorKind::DepthExceeded);
}

struct TokenProducer;

impl Value for TokenProducer {
    fn stream<S: Stream>(&self, stream: &mut S) -> Result<(), Error> {
        stream.seq_begin(Some(2))?;
        stream.seq_elem()?;
        stream.fmt(Arguments::Unsigned(5))?;
        stream.seq_elem()?;
        stream.fmt(Arguments::Text("token"))?;
        stream.seq_end()
    }
}

#[test]
fn fallback_tokens_become_leaves() {
    let got = OwnedValue::from_value(TokenProducer).expect("tokens are accepted");
    assert_eq!(
        got,
        OwnedValue::Sequence(vec![
            OwnedValue::U64(5),
            OwnedValue::Str(String::from("token")),
        ])
    );
}

#[test]
fn producer_streaming_nothing_is_rejected() {
    let e = OwnedValue::from_value(NothingProducer).expect_err("no root value arrived");
    assert_eq!(e.kind(), ErrorKind::InvalidState);
}

#[test]
fn producer_streaming_two_roots_is_rejected() {
    let e = OwnedValue::from_value(TwoRoots).expect_err("a second root value is refused");
    assert_eq!(e.kind(), ErrorKind::InvalidState);
}

#[test]
fn dangling_value_announcement_is_rejected() {
    let e = OwnedValue::from_value(DanglingValue).expect_err("a value was announced, not given");
    assert_eq!(e.kind(), ErrorKind::InvalidState);
}
