use vstd::prelude::*;

use crate::error::{Error, ErrorKind};

verus! {

/// The maximum number of nesting levels a streamed value may open at once.
/// A producer that nests deeper is rejected with
/// [`ErrorKind::DepthExceeded`] rather than allowed to grow the tracker.
pub const MAX_DEPTH: usize = 16;

/// One open nesting level: either a sequence, or a map together with its
/// key/value sub-state.
///
/// `elem_pending` and `item_pending` record that the next element, key or
/// value has been announced but its one describing call has not arrived
/// yet; `awaiting_value` records that a key was announced, so the map is
/// mid-entry until the matching value announcement.
#[derive(Clone, Copy, PartialEq, Eq, Structural, Debug)]
pub enum Frame {
    InSeq { elem_pending: bool },
    InMap { awaiting_value: bool, item_pending: bool },
}

/// Where the most recently completed primitive or nested value sat
/// relative to its parent.
#[derive(Clone, Copy, PartialEq, Eq, Structural, Debug)]
pub enum Pos {
    Root,
    Elem,
    Key,
    Value,
}

impl Pos {
    /// True when the completed item was the root value.
    pub fn is_root(&self) -> (r: bool)
        ensures
            r == (*self is Root),
    {
        matches!(self, Pos::Root)
    }

    /// True when the completed item was a sequence element.
    pub fn is_elem(&self) -> (r: bool)
        ensures
            r == (*self is Elem),
    {
        matches!(self, Pos::Elem)
    }

    /// True when the completed item was a map key.
    pub fn is_key(&self) -> (r: bool)
        ensures
            r == (*self is Key),
    {
        matches!(self, Pos::Key)
    }

    /// True when the completed item was a map value.
    pub fn is_value(&self) -> (r: bool)
        ensures
            r == (*self is Value),
    {
        matches!(self, Pos::Value)
    }
}

/// A begin call is accepted whenever a frame can still be pushed.
pub open spec fn can_push(s: Seq<Frame>) -> bool {
    s.len() < MAX_DEPTH
}

/// An element announcement is accepted when the innermost frame is a
/// sequence.
pub open spec fn seq_elem_allowed(s: Seq<Frame>) -> bool {
    s.len() > 0 && s.last() is InSeq
}

/// A sequence end is accepted when the innermost frame is a sequence.
pub open spec fn seq_end_allowed(s: Seq<Frame>) -> bool {
    s.len() > 0 && s.last() is InSeq
}

/// A key announcement is accepted when the innermost frame is a map that
/// is not already mid-entry.
pub open spec fn map_key_allowed(s: Seq<Frame>) -> bool {
    s.len() > 0 && (s.last() matches Frame::InMap { awaiting_value: false, .. })
}

/// A value announcement is accepted when the innermost frame is a map
/// whose key was announced.
pub open spec fn map_value_allowed(s: Seq<Frame>) -> bool {
    s.len() > 0 && (s.last() matches Frame::InMap { awaiting_value: true, .. })
}

/// A map end is accepted when the innermost frame is a map with no
/// dangling key awaiting its value.
pub open spec fn map_end_allowed(s: Seq<Frame>) -> bool {
    s.len() > 0 && (s.last() matches Frame::InMap { awaiting_value: false, .. })
}

/// A primitive is accepted at the root, as an announced sequence element,
/// or as an announced map key or value.
pub open spec fn primitive_allowed(s: Seq<Frame>) -> bool {
    ||| s.len() == 0
    ||| (s.last() matches Frame::InSeq { elem_pending: true })
    ||| (s.last() matches Frame::InMap { item_pending: true, .. })
}

/// The position a value completed now reports, relative to the innermost
/// open frame.
pub open spec fn current_pos(s: Seq<Frame>) -> Pos {
    if s.len() == 0 {
        Pos::Root
    } else {
        match s.last() {
            Frame::InSeq { .. } => Pos::Elem,
            Frame::InMap { awaiting_value, .. } => if awaiting_value {
                Pos::Key
            } else {
                Pos::Value
            },
        }
    }
}

/// A frame whose announced element, key or value has now been delivered.
pub open spec fn clear_pending(f: Frame) -> Frame {
    match f {
        Frame::InSeq { .. } => Frame::InSeq { elem_pending: false },
        Frame::InMap { awaiting_value, .. } => Frame::InMap {
            awaiting_value,
            item_pending: false,
        },
    }
}

/// The stack after one value has been delivered into the innermost frame:
/// its pending announcement, if any, is now satisfied.
pub open spec fn item_delivered(s: Seq<Frame>) -> Seq<Frame> {
    if s.len() == 0 {
        s
    } else {
        s.update(s.len() - 1, clear_pending(s.last()))
    }
}

/// A fixed-capacity nesting tracker. It records, for each open nesting
/// level, whether it is a sequence or a map and whether a map entry is in
/// progress, and validates every begin, announcement, primitive and end
/// call against that state. Its view is the sequence of open frames,
/// outermost first; it is empty before the first call and empty again
/// exactly when every opened frame was closed.
pub struct Stack {
    frames: [Frame; 16],
    len: usize,
}

impl View for Stack {
    type V = Seq<Frame>;

    closed spec fn view(&self) -> Seq<Frame> {
        self.frames@.take(self.len as int)
    }
}

impl Stack {
    #[verifier::type_invariant]
    spec fn inv(&self) -> bool {
        self.len <= MAX_DEPTH
    }

    /// An empty tracker: no frame is open.
    pub fn new() -> (s: Stack)
        ensures
            s@ == Seq::<Frame>::empty(),
    {
        let s = Stack { frames: [Frame::InSeq { elem_pending: false }; 16], len: 0 };
        proof {
            assert(s@ =~= Seq::<Frame>::empty());
        }
        s
    }

    /// The number of open frames.
    pub fn depth(&self) -> (n: usize)
        ensures
            n == self@.len(),
    {
        proof {
            use_type_invariant(self);
        }
        self.len
    }

    /// Pushes the given frame; shared body of the two begin calls.
    fn push(&mut self, f: Frame, message: &'static str) -> (r: Result<(), Error>)
        ensures
            old(self)@.len() <= MAX_DEPTH,
            can_push(old(self)@) ==> r is Ok && final(self)@ == old(self)@.push(f),
            !can_push(old(self)@) ==> {
                &&& r matches Err(e) && e.spec_kind() == ErrorKind::DepthExceeded
                &&& final(self)@ == old(self)@
            },
    {
        proof {
            use_type_invariant(&*self);
        }
        if self.len < MAX_DEPTH {
            self.frames[self.len] = f;
            self.len = self.len + 1;
            proof {
                assert(final(self)@ =~= old(self)@.push(f));
            }
            Ok(())
        } else {
            Err(Error::depth_exceeded(message))
        }
    }

    /// Replaces the innermost frame; shared body of the announcements.
    fn set_top(&mut self, f: Frame)
        requires
            old(self)@.len() > 0,
        ensures
            final(self)@ == old(self)@.update(old(self)@.len() - 1, f),
    {
        proof {
            use_type_invariant(&*self);
        }
        let top: usize = self.len - 1;
        self.frames[top] = f;
        proof {
            assert(final(self)@ =~= old(self)@.update(old(self)@.len() - 1, f));
        }
    }

    /// Validates one primitive call and reports its position.
    pub fn primitive(&mut self) -> (r: Result<Pos, Error>)
        ensures
            old(self)@.len() <= MAX_DEPTH,
            primitive_allowed(old(self)@) ==> {
                &&& r matches Ok(p) && p == current_pos(old(self)@)
                &&& final(self)@ == item_delivered(old(self)@)
            },
            !primitive_allowed(old(self)@) ==> {
                &&& r matches Err(e) && e.spec_kind() == ErrorKind::InvalidState
                &&& final(self)@ == old(self)@
            },
    {
        proof {
            use_type_invariant(&*self);
        }
        if self.len == 0 {
            return Ok(Pos::Root);
        }
        let top = self.frames[self.len - 1];
        match top {
            Frame::InSeq { elem_pending: true } => {
                self.set_top(Frame::InSeq { elem_pending: false });
                Ok(Pos::Elem)
            },
            Frame::InMap { awaiting_value, item_pending: true } => {
                self.set_top(Frame::InMap { awaiting_value, item_pending: false });
                Ok(if awaiting_value {
                    Pos::Key
                } else {
                    Pos::Value
                })
            },
            _ => Err(Error::invalid_state("a primitive needs an announced slot")),
        }
    }

    /// Validates a sequence begin: opens a sequence frame.
    pub fn seq_begin(&mut self) -> (r: Result<(), Error>)
        ensures
            old(self)@.len() <= MAX_DEPTH,
            can_push(old(self)@) ==> r is Ok && final(self)@ == old(self)@.push(
                Frame::InSeq { elem_pending: false },
            ),
            !can_push(old(self)@) ==> {
                &&& r matches Err(e) && e.spec_kind() == ErrorKind::DepthExceeded
                &&& final(self)@ == old(self)@
            },
    {
        self.push(Frame::InSeq { elem_pending: false }, "sequence nested too deeply")
    }

    /// Validates an element announcement inside a sequence.
    pub fn seq_elem(&mut self) -> (r: Result<(), Error>)
        ensures
            seq_elem_allowed(old(self)@) ==> r is Ok && final(self)@ == old(self)@.update(
                old(self)@.len() - 1,
                (Frame::InSeq { elem_pending: true }),
            ),
            !seq_elem_allowed(old(self)@) ==> {
                &&& r matches Err(e) && e.spec_kind() == ErrorKind::InvalidState
                &&& final(self)@ == old(self)@
            },
    {
        proof {
            use_type_invariant(&*self);
        }
        if self.len == 0 {
            return Err(Error::invalid_state("no sequence is open"));
        }
        match self.frames[self.len - 1] {
            Frame::InSeq { .. } => {
                self.set_top(Frame::InSeq { elem_pending: true });
                Ok(())
            },
            _ => Err(Error::invalid_state("an element needs an open sequence")),
        }
    }

    /// Validates a sequence end: closes the innermost frame and reports
    /// where the completed sequence sat.
    pub fn seq_end(&mut self) -> (r: Result<Pos, Error>)
        ensures
            seq_end_allowed(old(self)@) ==> {
                &&& r matches Ok(p) && p == current_pos(old(self)@.drop_last())
                &&& final(self)@ == item_delivered(old(self)@.drop_last())
            },
            !seq_end_allowed(old(self)@) ==> {
                &&& r matches Err(e) && e.spec_kind() == ErrorKind::InvalidState
                &&& final(self)@ == old(self)@
            },
    {
        proof {
            use_type_invariant(&*self);
        }
        if self.len == 0 {
            return Err(Error::invalid_state("no sequence is open"));
        }
        match self.frames[self.len - 1] {
            Frame::InSeq { .. } => {
                self.len = self.len - 1;
                proof {
                    assert(self@ =~= old(self)@.drop_last());
                }
                self.pop_delivered();
                Ok(self.report_pos())
            },
            _ => Err(Error::invalid_state("the innermost frame is not a sequence")),
        }
    }

    /// Validates a map begin: opens a map frame awaiting its first key.
    pub fn map_begin(&mut self) -> (r: Result<(), Error>)
        ensures
            old(self)@.len() <= MAX_DEPTH,
            can_push(old(self)@) ==> r is Ok && final(self)@ == old(self)@.push(
                (Frame::InMap { awaiting_value: false, item_pending: false }),
            ),
            !can_push(old(self)@) ==> {
                &&& r matches Err(e) && e.spec_kind() == ErrorKind::DepthExceeded
                &&& final(self)@ == old(self)@
            },
    {
        self.push(
            Frame::InMap { awaiting_value: false, item_pending: false },
            "map nested too deeply",
        )
    }

    /// Validates a key announcement inside a map.
    pub fn map_key(&mut self) -> (r: Result<(), Error>)
        ensures
            map_key_allowed(old(self)@) ==> r is Ok && final(self)@ == old(self)@.update(
                old(self)@.len() - 1,
                (Frame::InMap { awaiting_value: true, item_pending: true }),
            ),
            !map_key_allowed(old(self)@) ==> {
                &&& r matches Err(e) && e.spec_kind() == ErrorKind::InvalidState
                &&& final(self)@ == old(self)@
            },
    {
        proof {
            use_type_invariant(&*self);
        }
        if self.len == 0 {
            return Err(Error::invalid_state("no map is open"));
        }
        match self.frames[self.len - 1] {
            Frame::InMap { awaiting_value: false, .. } => {
                self.set_top(Frame::InMap { awaiting_value: true, item_pending: true });
                Ok(())
            },
            _ => Err(Error::invalid_state("a key needs a map that is not mid-entry")),
        }
    }

    /// Validates a value announcement inside a map.
    pub fn map_value(&mut self) -> (r: Result<(), Error>)
        ensures
            map_value_allowed(old(self)@) ==> r is Ok && final(self)@ == old(self)@.update(
                old(self)@.len() - 1,
                (Frame::InMap { awaiting_value: false, item_pending: true }),
            ),
            !map_value_allowed(old(self)@) ==> {
                &&& r matches Err(e) && e.spec_kind() == ErrorKind::InvalidState
                &&& final(self)@ == old(self)@
            },
    {
        proof {
            use_type_invariant(&*self);
        }
        if self.len == 0 {
            return Err(Error::invalid_state("no map is open"));
        }
        match self.frames[self.len - 1] {
            Frame::InMap { awaiting_value: true, .. } => {
                self.set_top(Frame::InMap { awaiting_value: false, item_pending: true });
                Ok(())
            },
            _ => Err(Error::invalid_state("a value needs an announced key before it")),
        }
    }

    /// Validates a map end: closes the innermost frame and reports where
    /// the completed map sat.
    pub fn map_end(&mut self) -> (r: Result<Pos, Error>)
        ensures
            map_end_allowed(old(self)@) ==> {
                &&& r matches Ok(p) && p == current_pos(old(self)@.drop_last())
                &&& final(self)@ == item_delivered(old(self)@.drop_last())
            },
            !map_end_allowed(old(self)@) ==> {
                &&& r matches Err(e) && e.spec_kind() == ErrorKind::InvalidState
                &&& final(self)@ == old(self)@
            },
    {
        proof {
            use_type_invariant(&*self);
        }
        if self.len == 0 {
            return Err(Error::invalid_state("no map is open"));
        }
        match self.frames[self.len - 1] {
            Frame::InMap { awaiting_value: false, .. } => {
                self.len = self.len - 1;
                proof {
                    assert(self@ =~= old(self)@.drop_last());
                }
                self.pop_delivered();
                Ok(self.report_pos())
            },
            Frame::InMap { awaiting_value: true, .. } => Err(
                Error::invalid_state("a key is still awaiting its value"),
            ),
            _ => Err(Error::invalid_state("the innermost frame is not a map")),
        }
    }

    /// Validates the final end call: every opened frame must be closed.
    pub fn end(&mut self) -> (r: Result<(), Error>)
        ensures
            final(self)@ == old(self)@,
            old(self)@.len() == 0 ==> r is Ok,
            old(self)@.len() > 0 ==> (r matches Err(e) && e.spec_kind()
                == ErrorKind::UnterminatedStructure),
    {
        proof {
            use_type_invariant(&*self);
        }
        if self.len == 0 {
            Ok(())
        } else {
            Err(Error::unterminated("a sequence or map is still open"))
        }
    }

    /// Marks the announced slot of the innermost frame, if any, as
    /// satisfied by the value just completed.
    fn pop_delivered(&mut self)
        ensures
            final(self)@ == item_delivered(old(self)@),
    {
        proof {
            use_type_invariant(&*self);
        }
        if self.len > 0 {
            let top = self.frames[self.len - 1];
            match top {
                Frame::InSeq { .. } => self.set_top(Frame::InSeq { elem_pending: false }),
                Frame::InMap { awaiting_value, .. } => self.set_top(
                    Frame::InMap { awaiting_value, item_pending: false },
                ),
            }
        }
    }

    /// The position the value just completed reports.
    fn report_pos(&self) -> (p: Pos)
        ensures
            p == current_pos(self@),
    {
        proof {
            use_type_invariant(self);
        }
        if self.len == 0 {
            return Pos::Root;
        }
        match self.frames[self.len - 1] {
            Frame::InSeq { .. } => Pos::Elem,
            Frame::InMap { awaiting_value, .. } => if awaiting_value {
                Pos::Key
            } else {
                Pos::Value
            },
        }
    }
}

} // verus!
