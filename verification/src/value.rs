use vstd::prelude::*;

use crate::error::Error;
use crate::stream::Stream;

verus! {

/// The interface a producer implements: a single method that issues a
/// self-consistent sequence of consumer calls describing exactly one
/// value. A producer is free to present a shape different from its own
/// representation; the interface describes output shape only.
pub trait Value {
    /// Streams the structure of this value into the given consumer.
    fn stream<S: Stream>(&self, stream: &mut S) -> Result<(), Error>;
}

impl Value for u64 {
    fn stream<S: Stream>(&self, stream: &mut S) -> Result<(), Error> {
        stream.u64(*self)
    }
}

impl Value for i64 {
    fn stream<S: Stream>(&self, stream: &mut S) -> Result<(), Error> {
        stream.i64(*self)
    }
}

impl Value for bool {
    fn stream<S: Stream>(&self, stream: &mut S) -> Result<(), Error> {
        stream.bool(*self)
    }
}

impl Value for char {
    fn stream<S: Stream>(&self, stream: &mut S) -> Result<(), Error> {
        stream.char(*self)
    }
}

impl<'a> Value for &'a str {
    fn stream<S: Stream>(&self, stream: &mut S) -> Result<(), Error> {
        stream.str(*self)
    }
}

impl Value for String {
    fn stream<S: Stream>(&self, stream: &mut S) -> Result<(), Error> {
        stream.str(self.as_str())
    }
}

} // verus!
