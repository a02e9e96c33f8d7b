use vstd::prelude::*;

use crate::error::{Error, ErrorKind};
use crate::stack::{
    can_push, current_pos, item_delivered, map_end_allowed, map_key_allowed, map_value_allowed,
    primitive_allowed, seq_elem_allowed, seq_end_allowed, Frame, Stack,
};
use crate::stream::{Arguments, Stream};

verus! {

/// The protocol driver: an internal consumer wrapper that owns the
/// nesting tracker, validates every call against it, and forwards each
/// validated call verbatim to the wrapped consumer. A call that fails
/// validation is never delivered: the wrapped consumer is left untouched
/// and the whole streaming operation aborts with that error.
pub struct Collect<S: Stream> {
    stack: Stack,
    inner: S,
}

impl<S: Stream> Collect<S> {
    /// The open frames of the owned nesting tracker.
    pub closed spec fn frames(&self) -> Seq<Frame> {
        self.stack@
    }

    /// The wrapped consumer.
    pub closed spec fn consumer(&self) -> S {
        self.inner
    }

    /// Wraps a consumer; no frame is open yet.
    pub fn new(inner: S) -> (c: Collect<S>)
        ensures
            c.frames() == Seq::<Frame>::empty(),
            c.consumer() == inner,
    {
        Collect { stack: Stack::new(), inner }
    }

    /// Hands the wrapped consumer back.
    pub fn into_inner(self) -> (s: S)
        ensures
            s == self.consumer(),
    {
        self.inner
    }

    /// Validates one primitive slot against the tracker; shared by every
    /// primitive-forwarding call.
    fn check_primitive(&mut self) -> (r: Result<(), Error>)
        ensures
            final(self).consumer() == old(self).consumer(),
            primitive_allowed(old(self).frames()) ==> r is Ok && final(self).frames()
                == item_delivered(old(self).frames()),
            !primitive_allowed(old(self).frames()) ==> {
                &&& r matches Err(e) && e.spec_kind() == ErrorKind::InvalidState
                &&& final(self).frames() == old(self).frames()
            },
    {
        match self.stack.primitive() {
            Ok(_) => Ok(()),
            Err(e) => Err(e),
        }
    }

    /// Validates and forwards a formatted-fallback call.
    pub fn drive_fmt(&mut self, args: Arguments<'_>) -> (r: Result<(), Error>)
        ensures
            primitive_allowed(old(self).frames()) ==> final(self).frames() == item_delivered(
                old(self).frames(),
            ),
            !primitive_allowed(old(self).frames()) ==> {
                &&& r matches Err(e) && e.spec_kind() == ErrorKind::InvalidState
                &&& final(self).frames() == old(self).frames()
                &&& final(self).consumer() == old(self).consumer()
            },
    {
        self.check_primitive()?;
        self.inner.fmt(args)
    }

    /// Validates and forwards a signed integer.
    pub fn drive_i64(&mut self, v: i64) -> (r: Result<(), Error>)
        ensures
            primitive_allowed(old(self).frames()) ==> final(self).frames() == item_delivered(
                old(self).frames(),
            ),
            !primitive_allowed(old(self).frames()) ==> {
                &&& r matches Err(e) && e.spec_kind() == ErrorKind::InvalidState
                &&& final(self).frames() == old(self).frames()
                &&& final(self).consumer() == old(self).consumer()
            },
    {
        self.check_primitive()?;
        self.inner.i64(v)
    }

    /// Validates and forwards an unsigned integer.
    pub fn drive_u64(&mut self, v: u64) -> (r: Result<(), Error>)
        ensures
            primitive_allowed(old(self).frames()) ==> final(self).frames() == item_delivered(
                old(self).frames(),
            ),
            !primitive_allowed(old(self).frames()) ==> {
                &&& r matches Err(e) && e.spec_kind() == ErrorKind::InvalidState
                &&& final(self).frames() == old(self).frames()
                &&& final(self).consumer() == old(self).consumer()
            },
    {
        self.check_primitive()?;
        self.inner.u64(v)
    }

    /// Validates and forwards a boolean.
    pub fn drive_bool(&mut self, v: bool) -> (r: Result<(), Error>)
        ensures
            primitive_allowed(old(self).frames()) ==> final(self).frames() == item_delivered(
                old(self).frames(),
            ),
            !primitive_allowed(old(self).frames()) ==> {
                &&& r matches Err(e) && e.spec_kind() == ErrorKind::InvalidState
                &&& final(self).frames() == old(self).frames()
                &&& final(self).consumer() == old(self).consumer()
            },
    {
        self.check_primitive()?;
        self.inner.bool(v)
    }

    /// Validates and forwards a character.
    pub fn drive_char(&mut self, v: char) -> (r: Result<(), Error>)
        ensures
            primitive_allowed(old(self).frames()) ==> final(self).frames() == item_delivered(
                old(self).frames(),
            ),
            !primitive_allowed(old(self).frames()) ==> {
                &&& r matches Err(e) && e.spec_kind() == ErrorKind::InvalidState
                &&& final(self).frames() == old(self).frames()
                &&& final(self).consumer() == old(self).consumer()
            },
    {
        self.check_primitive()?;
        self.inner.char(v)
    }

    /// Validates and forwards a string slice.
    pub fn drive_str(&mut self, v: &str) -> (r: Result<(), Error>)
        ensures
            primitive_allowed(old(self).frames()) ==> final(self).frames() == item_delivered(
                old(self).frames(),
            ),
            !primitive_allowed(old(self).frames()) ==> {
                &&& r matches Err(e) && e.spec_kind() == ErrorKind::InvalidState
                &&& final(self).frames() == old(self).frames()
                &&& final(self).consumer() == old(self).consumer()
            },
    {
        self.check_primitive()?;
        self.inner.str(v)
    }

    /// Validates and forwards an empty value.
    pub fn drive_none(&mut self) -> (r: Result<(), Error>)
        ensures
            primitive_allowed(old(self).frames()) ==> final(self).frames() == item_delivered(
                old(self).frames(),
            ),
            !primitive_allowed(old(self).frames()) ==> {
                &&& r matches Err(e) && e.spec_kind() == ErrorKind::InvalidState
                &&& final(self).frames() == old(self).frames()
                &&& final(self).consumer() == old(self).consumer()
            },
    {
        self.check_primitive()?;
        self.inner.none()
    }

    /// Validates and forwards a sequence begin.
    pub fn drive_seq_begin(&mut self, hint: Option<usize>) -> (r: Result<(), Error>)
        ensures
            can_push(old(self).frames()) ==> final(self).frames() == old(self).frames().push(
                (Frame::InSeq { elem_pending: false }),
            ),
            !can_push(old(self).frames()) ==> {
                &&& r matches Err(e) && e.spec_kind() == ErrorKind::DepthExceeded
                &&& final(self).frames() == old(self).frames()
                &&& final(self).consumer() == old(self).consumer()
            },
    {
        self.stack.seq_begin()?;
        self.inner.seq_begin(hint)
    }

    /// Validates and forwards an element announcement.
    pub fn drive_seq_elem(&mut self) -> (r: Result<(), Error>)
        ensures
            seq_elem_allowed(old(self).frames()) ==> final(self).frames() == old(
                self,
            ).frames().update(
                old(self).frames().len() - 1,
                (Frame::InSeq { elem_pending: true }),
            ),
            !seq_elem_allowed(old(self).frames()) ==> {
                &&& r matches Err(e) && e.spec_kind() == ErrorKind::InvalidState
                &&& final(self).frames() == old(self).frames()
                &&& final(self).consumer() == old(self).consumer()
            },
    {
        self.stack.seq_elem()?;
        self.inner.seq_elem()
    }

    /// Validates and forwards a sequence end.
    pub fn drive_seq_end(&mut self) -> (r: Result<(), Error>)
        ensures
            seq_end_allowed(old(self).frames()) ==> final(self).frames() == item_delivered(
                old(self).frames().drop_last(),
            ),
            !seq_end_allowed(old(self).frames()) ==> {
                &&& r matches Err(e) && e.spec_kind() == ErrorKind::InvalidState
                &&& final(self).frames() == old(self).frames()
                &&& final(self).consumer() == old(self).consumer()
            },
    {
        match self.stack.seq_end() {
            Ok(_) => self.inner.seq_end(),
            Err(e) => Err(e),
        }
    }

    /// Validates and forwards a map begin.
    pub fn drive_map_begin(&mut self, hint: Option<usize>) -> (r: Result<(), Error>)
        ensures
            can_push(old(self).frames()) ==> final(self).frames() == old(self).frames().push(
                (Frame::InMap { awaiting_value: false, item_pending: false }),
            ),
            !can_push(old(self).frames()) ==> {
                &&& r matches Err(e) && e.spec_kind() == ErrorKind::DepthExceeded
                &&& final(self).frames() == old(self).frames()
                &&& final(self).consumer() == old(self).consumer()
            },
    {
        self.stack.map_begin()?;
        self.inner.map_begin(hint)
    }

    /// Validates and forwards a key announcement.
    pub fn drive_map_key(&mut self) -> (r: Result<(), Error>)
        ensures
            map_key_allowed(old(self).frames()) ==> final(self).frames() == old(
                self,
            ).frames().update(
                old(self).frames().len() - 1,
                (Frame::InMap { awaiting_value: true, item_pending: true }),
            ),
            !map_key_allowed(old(self).frames()) ==> {
                &&& r matches Err(e) && e.spec_kind() == ErrorKind::InvalidState
                &&& final(self).frames() == old(self).frames()
                &&& final(self).consumer() == old(self).consumer()
            },
    {
        self.stack.map_key()?;
        self.inner.map_key()
    }

    /// Validates and forwards a value announcement.
    pub fn drive_map_value(&mut self) -> (r: Result<(), Error>)
        ensures
            map_value_allowed(old(self).frames()) ==> final(self).frames() == old(
                self,
            ).frames().update(
                old(self).frames().len() - 1,
                (Frame::InMap { awaiting_value: false, item_pending: true }),
            ),
            !map_value_allowed(old(self).frames()) ==> {
                &&& r matches Err(e) && e.spec_kind() == ErrorKind::InvalidState
                &&& final(self).frames() == old(self).frames()
                &&& final(self).consumer() == old(self).consumer()
            },
    {
        self.stack.map_value()?;
        self.inner.map_value()
    }

    /// Validates and forwards a map end.
    pub fn drive_map_end(&mut self) -> (r: Result<(), Error>)
        ensures
            map_end_allowed(old(self).frames()) ==> final(self).frames() == item_delivered(
                old(self).frames().drop_last(),
            ),
            !map_end_allowed(old(self).frames()) ==> {
                &&& r matches Err(e) && e.spec_kind() == ErrorKind::InvalidState
                &&& final(self).frames() == old(self).frames()
                &&& final(self).consumer() == old(self).consumer()
            },
    {
        match self.stack.map_end() {
            Ok(_) => self.inner.map_end(),
            Err(e) => Err(e),
        }
    }

    /// Validates the final end call, then fires the consumer's completion
    /// hook.
    pub fn drive_end(&mut self) -> (r: Result<(), Error>)
        ensures
            final(self).frames() == old(self).frames(),
            old(self).frames().len() > 0 ==> {
                &&& r matches Err(e) && e.spec_kind() == ErrorKind::UnterminatedStructure
                &&& final(self).consumer() == old(self).consumer()
            },
    {
        self.stack.end()?;
        self.inner.end()
    }
}

impl<S: Stream> Stream for Collect<S> {
    fn fmt(&mut self, args: Arguments<'_>) -> Result<(), Error> {
        self.drive_fmt(args)
    }

    fn i64(&mut self, v: i64) -> Result<(), Error> {
        self.drive_i64(v)
    }

    fn u64(&mut self, v: u64) -> Result<(), Error> {
        self.drive_u64(v)
    }

    fn bool(&mut self, v: bool) -> Result<(), Error> {
        self.drive_bool(v)
    }

    fn char(&mut self, v: char) -> Result<(), Error> {
        self.drive_char(v)
    }

    fn str(&mut self, v: &str) -> Result<(), Error> {
        self.drive_str(v)
    }

    fn none(&mut self) -> Result<(), Error> {
        self.drive_none()
    }

    fn seq_begin(&mut self, hint: Option<usize>) -> Result<(), Error> {
        self.drive_seq_begin(hint)
    }

    fn seq_elem(&mut self) -> Result<(), Error> {
        self.drive_seq_elem()
    }

    fn seq_end(&mut self) -> Result<(), Error> {
        self.drive_seq_end()
    }

    fn map_begin(&mut self, hint: Option<usize>) -> Result<(), Error> {
        self.drive_map_begin(hint)
    }

    fn map_key(&mut self) -> Result<(), Error> {
        self.drive_map_key()
    }

    fn map_value(&mut self) -> Result<(), Error> {
        self.drive_map_value()
    }

    fn map_end(&mut self) -> Result<(), Error> {
        self.drive_map_end()
    }

    fn end(&mut self) -> Result<(), Error> {
        self.drive_end()
    }
}

} // verus!
