use vstd::prelude::*;

use crate::error::Error;

verus! {

/// An opaque displayable token: the generic representation of a primitive
/// handed to a consumer's formatted fallback when the consumer did not opt
/// into that primitive's own method.
#[derive(Clone, Copy, PartialEq, Debug)]
pub enum Arguments<'a> {
    Signed(i64),
    Unsigned(u64),
    Boolean(bool),
    Character(char),
    Text(&'a str),
    Empty,
}

/// The object-safe visitor surface a consumer implements: one method per
/// primitive kind plus begin/end pairs for sequences and maps.
///
/// Every primitive method falls back to [`Stream::fmt`] by default, so a
/// minimal consumer may implement only that fallback; every structural
/// method defaults to a successful no-op; the fallback itself defaults to
/// declining the value, so a consumer opts into exactly the calls it
/// understands. Consumers receive these calls already validated: the
/// protocol driver never forwards a call that violates the nesting rules.
pub trait Stream {
    /// The formatted fallback, reached by every primitive a consumer did
    /// not opt into.
    fn fmt(&mut self, args: Arguments<'_>) -> Result<(), Error> {
        let _unused = args;
        Err(Error::unsupported("this consumer does not accept the value"))
    }

    /// A signed 64-bit integer.
    fn i64(&mut self, v: i64) -> Result<(), Error> {
        self.fmt(Arguments::Signed(v))
    }

    /// An unsigned 64-bit integer.
    fn u64(&mut self, v: u64) -> Result<(), Error> {
        self.fmt(Arguments::Unsigned(v))
    }

    /// A boolean.
    fn bool(&mut self, v: bool) -> Result<(), Error> {
        self.fmt(Arguments::Boolean(v))
    }

    /// A single character.
    fn char(&mut self, v: char) -> Result<(), Error> {
        self.fmt(Arguments::Character(v))
    }

    /// A string slice.
    fn str(&mut self, v: &str) -> Result<(), Error> {
        self.fmt(Arguments::Text(v))
    }

    /// An empty value.
    fn none(&mut self) -> Result<(), Error> {
        self.fmt(Arguments::Empty)
    }

    /// A sequence is beginning; the hint, when given, is its length.
    fn seq_begin(&mut self, hint: Option<usize>) -> Result<(), Error> {
        let _unused = hint;
        Ok(())
    }

    /// The next call describes one sequence element.
    fn seq_elem(&mut self) -> Result<(), Error> {
        Ok(())
    }

    /// The innermost open sequence is complete.
    fn seq_end(&mut self) -> Result<(), Error> {
        Ok(())
    }

    /// A map is beginning; the hint, when given, is its entry count.
    fn map_begin(&mut self, hint: Option<usize>) -> Result<(), Error> {
        let _unused = hint;
        Ok(())
    }

    /// The next call describes one map key.
    fn map_key(&mut self) -> Result<(), Error> {
        Ok(())
    }

    /// The next call describes the value of the announced key.
    fn map_value(&mut self) -> Result<(), Error> {
        Ok(())
    }

    /// The innermost open map is complete.
    fn map_end(&mut self) -> Result<(), Error> {
        Ok(())
    }

    /// The root value is fully reported; fires once, letting the consumer
    /// finalize buffered output.
    fn end(&mut self) -> Result<(), Error> {
        Ok(())
    }
}

} // verus!
