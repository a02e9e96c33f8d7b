use sval::error::{Error, ErrorKind};
use sval::stack::{Stack, MAX_DEPTH};
use sval::stream::{Arguments, Stream};
use sval::value::Value;

#[derive(Debug)]
struct Noop;

impl Stream for Noop {}

#[derive(Debug)]
struct IsU64 {
    seen: Option<u64>,
    u64_calls: usize,
    fmt_calls: usize,
}

impl Stream for IsU64 {
    fn u64(&mut self, v: u64) -> Result<(), Error> {
        self.seen = Some(v);
        self.u64_calls += 1;
        Ok(())
    }

    fn fmt(&mut self, _args: Arguments<'_>) -> Result<(), Error> {
        self.fmt_calls += 1;
        Err(Error::msg("not a u64"))
    }
}

struct FmtOnly {
    bools: Vec<bool>,
    unsigneds: Vec<u64>,
}

impl Stream for FmtOnly {
    fn fmt(&mut self, args: Arguments<'_>) -> Result<(), Error> {
        match args {
            Arguments::Boolean(b) => self.bools.push(b),
            Arguments::Unsigned(v) => self.unsigneds.push(v),
            _ => return Err(Error::msg("unexpected token")),
        }
        Ok(())
    }
}

struct BadMapOrder;

impl Value for BadMapOrder {
    fn stream<S: Stream>(&self, stream: &mut S) -> Result<(), Error> {
        stream.map_begin(Some(1))?;
        stream.map_value()?;
        stream.u64(42)?;
        stream.map_end()
    }
}

struct Unterminated;

impl Value for Unterminated {
    fn stream<S: Stream>(&self, stream: &mut S) -> Result<(), Error> {
        stream.seq_begin(None)
    }
}

struct DeepSeq(usize);

impl Value for DeepSeq {
    fn stream<S: Stream>(&self, stream: &mut S) -> Result<(), Error> {
        for level in 0..self.0 {
            stream.seq_begin(None)?;
            if level + 1 < self.0 {
                stream.seq_elem()?;
            }
        }
        for _ in 0..self.0 {
            stream.seq_end()?;
        }
        Ok(())
    }
}

#[test]
fn primitive_passthrough_u64() {
    let consumer = IsU64 { seen: None, u64_calls: 0, fmt_calls: 0 };
    let consumer = sval::stream(42u64, consumer).expect("a bare u64 streams cleanly");
    assert_eq!(consumer.seen, Some(42));
    assert_eq!(consumer.u64_calls, 1);
    assert_eq!(consumer.fmt_calls, 0);
}

#[test]
fn primitive_passthrough_rejects_other_kinds() {
    let consumer = IsU64 { seen: None, u64_calls: 0, fmt_calls: 0 };
    let e = sval::stream("text", consumer).expect_err("a string is not a u64 here");
    assert_eq!(e.kind(), ErrorKind::Custom);
    assert_eq!(e.message(), "not a u64");
}

#[test]
fn default_methods_fall_back_to_fmt() {
    let consumer = FmtOnly { bools: Vec::new(), unsigneds: Vec::new() };
    let consumer = sval::stream(true, consumer).expect("the fallback accepts a bool");
    assert_eq!(consumer.bools, vec![true]);
    let consumer = sval::stream(7u64, consumer).expect("the fallback accepts a u64");
    assert_eq!(consumer.unsigneds, vec![7]);
}

#[test]
fn consumer_without_overrides_rejects_primitives() {
    let e = sval::stream(42u64, Noop).expect_err("every primitive reaches the declining fallback");
    assert_eq!(e.kind(), ErrorKind::Unsupported);
}

#[test]
fn map_value_after_map_begin_is_invalid() {
    let e = sval::stream(BadMapOrder, Noop).expect_err("a value before any key is rejected");
    assert_eq!(e.kind(), ErrorKind::InvalidState);
}

#[test]
fn stack_rejects_value_announcement_without_key() {
    let mut stack = Stack::new();
    assert!(stack.map_begin().is_ok());
    let e = stack.map_value().expect_err("no key was announced");
    assert_eq!(e.kind(), ErrorKind::InvalidState);
}

#[test]
fn end_with_open_frames_is_unterminated() {
    let e = sval::stream(Unterminated, Noop).expect_err("an open sequence forbids end");
    assert_eq!(e.kind(), ErrorKind::UnterminatedStructure);
}

#[test]
fn balanced_end_succeeds() {
    assert!(sval::stream(DeepSeq(1), Noop).is_ok());
}

#[test]
fn nesting_to_max_depth_succeeds() {
    assert!(sval::stream(DeepSeq(MAX_DEPTH), Noop).is_ok());
}

#[test]
fn nesting_past_max_depth_is_rejected() {
    let e = sval::stream(DeepSeq(MAX_DEPTH + 1), Noop).expect_err("one level too deep");
    assert_eq!(e.kind(), ErrorKind::DepthExceeded);
}

#[test]
fn stack_reports_positions() {
    let mut stack = Stack::new();
    let pos = stack.primitive().expect("a root primitive is allowed");
    assert!(pos.is_root());

    let mut stack = Stack::new();
    assert!(stack.seq_begin().is_ok());
    assert!(stack.seq_elem().is_ok());
    let pos = stack.primitive().expect("an announced element is allowed");
    assert!(pos.is_elem());
    let pos = stack.seq_end().expect("the sequence closes");
    assert!(pos.is_root());

    let mut stack = Stack::new();
    assert!(stack.map_begin().is_ok());
    assert!(stack.map_key().is_ok());
    let pos = stack.primitive().expect("an announced key is allowed");
    assert!(pos.is_key());
    assert!(stack.map_value().is_ok());
    let pos = stack.primitive().expect("an announced value is allowed");
    assert!(pos.is_value());
    let pos = stack.map_end().expect("the map closes");
    assert!(pos.is_root());
    assert!(stack.end().is_ok());
}

#[test]
fn stack_rejects_unannounced_primitives() {
    let mut stack = Stack::new();
    assert!(stack.seq_begin().is_ok());
    let e = stack.primitive().expect_err("no element was announced");
    assert_eq!(e.kind(), ErrorKind::InvalidState);

    let mut stack = Stack::new();
    assert!(stack.map_begin().is_ok());
    let e = stack.primitive().expect_err("no key was announced");
    assert_eq!(e.kind(), ErrorKind::InvalidState);
}

#[test]
fn stack_rejects_mismatched_ends() {
    let mut stack = Stack::new();
    assert!(stack.seq_begin().is_ok());
    let e = stack.map_end().expect_err("the innermost frame is a sequence");
    assert_eq!(e.kind(), ErrorKind::InvalidState);

    let mut stack = Stack::new();
    assert!(stack.map_begin().is_ok());
    assert!(stack.map_key().is_ok());
    let e = stack.map_end().expect_err("a key is dangling");
    assert_eq!(e.kind(), ErrorKind::InvalidState);

    let mut stack = Stack::new();
    let e = stack.seq_end().expect_err("nothing is open");
    assert_eq!(e.kind(), ErrorKind::InvalidState);
}

#[derive(Debug, PartialEq)]
enum Seen {
    MapBegin(Option<usize>),
    MapKey,
    MapValue,
    U64(u64),
}

#[derive(Debug)]
struct SeenLog {
    calls: Vec<Seen>,
}

impl Stream for SeenLog {
    fn u64(&mut self, v: u64) -> Result<(), Error> {
        self.calls.push(Seen::U64(v));
        Ok(())
    }

    fn map_begin(&mut self, hint: Option<usize>) -> Result<(), Error> {
        self.calls.push(Seen::MapBegin(hint));
        Ok(())
    }

    fn map_key(&mut self) -> Result<(), Error> {
        self.calls.push(Seen::MapKey);
        Ok(())
    }

    fn map_value(&mut self) -> Result<(), Error> {
        self.calls.push(Seen::MapValue);
        Ok(())
    }
}

#[test]
fn invalid_call_is_never_forwarded() {
    let mut driver = sval::collect::Collect::new(SeenLog { calls: Vec::new() });
    assert!(driver.drive_map_begin(Some(1)).is_ok());
    let e = driver.drive_map_value().expect_err("no key was announced");
    assert_eq!(e.kind(), ErrorKind::InvalidState);
    let log = driver.into_inner();
    assert_eq!(log.calls, vec![Seen::MapBegin(Some(1))]);
}

#[test]
fn driver_forwards_validated_calls_verbatim() {
    let mut driver = sval::collect::Collect::new(SeenLog { calls: Vec::new() });
    assert!(driver.drive_map_begin(Some(1)).is_ok());
    assert!(driver.drive_map_key().is_ok());
    assert!(driver.drive_u64(7).is_ok());
    assert!(driver.drive_map_value().is_ok());
    let log = driver.into_inner();
    assert_eq!(
        log.calls,
        vec![Seen::MapBegin(Some(1)), Seen::MapKey, Seen::U64(7), Seen::MapValue]
    );
}

#[test]
fn stack_tracks_depth() {
    let mut stack = Stack::new();
    assert_eq!(stack.depth(), 0);
    assert!(stack.seq_begin().is_ok());
    assert!(stack.seq_elem().is_ok());
    assert!(stack.map_begin().is_ok());
    assert_eq!(stack.depth(), 2);
    assert!(stack.map_end().is_ok());
    assert!(stack.seq_end().is_ok());
    assert_eq!(stack.depth(), 0);
}

#[test]
fn error_carries_message_and_cause() {
    let inner = Error::msg("device gone");
    let outer = Error::caused_by("write failed", inner);
    assert_eq!(outer.kind(), ErrorKind::Custom);
    assert_eq!(outer.message(), "write failed");
    let cause = outer.cause().as_ref().expect("the cause is kept");
    assert_eq!(cause.message(), "device gone");
    assert!(cause.cause().is_none());

    let plain = Error::msg("just text");
    assert!(plain.cause().is_none());
    assert_eq!(plain.message(), "just text");
}
