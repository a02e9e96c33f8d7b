use vstd::prelude::*;

use crate::error::{Error, ErrorKind};
use crate::stack::{item_delivered, primitive_allowed, Frame, Stack, MAX_DEPTH};
use crate::stream::{Arguments, Stream};
use crate::value::Value;

verus! {

broadcast use vstd::std_specs::vec::group_vec_axioms, vstd::seq::group_seq_axioms;

/// A fully owned, self-contained snapshot of a streamed value: one
/// variant per primitive the consumer interface exposes, plus ordered
/// sequences and ordered key/value mappings. No borrowed data from the
/// original producer survives its construction, and the snapshot itself
/// is a producer again, so it can be re-streamed later.
#[derive(Debug, PartialEq)]
pub enum OwnedValue {
    I64(i64),
    U64(u64),
    Bool(bool),
    Char(char),
    Str(String),
    Unit,
    Sequence(Vec<OwnedValue>),
    Mapping(Vec<(OwnedValue, OwnedValue)>),
}

/// The mathematical shape of an owned snapshot: the same tree with every
/// container replaced by its abstract sequence.
#[verifier::ext_equal]
pub enum Model {
    I64(i64),
    U64(u64),
    Bool(bool),
    Char(char),
    Str(Seq<char>),
    Unit,
    Sequence(Seq<Model>),
    Mapping(Seq<(Model, Model)>),
}

/// The shape an owned snapshot describes.
pub open spec fn model_of(v: OwnedValue) -> Model
    decreases v,
{
    match v {
        OwnedValue::I64(n) => Model::I64(n),
        OwnedValue::U64(n) => Model::U64(n),
        OwnedValue::Bool(b) => Model::Bool(b),
        OwnedValue::Char(c) => Model::Char(c),
        OwnedValue::Str(s) => Model::Str(s@),
        OwnedValue::Unit => Model::Unit,
        OwnedValue::Sequence(vs) => Model::Sequence(model_list(vs@)),
        OwnedValue::Mapping(ps) => Model::Mapping(model_pairs(ps@)),
    }
}

/// The shapes of a sequence of owned snapshots, in order.
pub open spec fn model_list(s: Seq<OwnedValue>) -> Seq<Model>
    decreases s,
{
    if s.len() == 0 {
        Seq::empty()
    } else {
        model_list(s.drop_last()).push(model_of(s.last()))
    }
}

/// The shapes of a sequence of owned key/value pairs, in order.
pub open spec fn model_pairs(s: Seq<(OwnedValue, OwnedValue)>) -> Seq<(Model, Model)>
    decreases s,
{
    if s.len() == 0 {
        Seq::empty()
    } else {
        model_pairs(s.drop_last()).push(
            (model_of(s.last().0), model_of(s.last().1)),
        )
    }
}

impl View for OwnedValue {
    type V = Model;

    open spec fn view(&self) -> Model {
        model_of(*self)
    }
}

pub broadcast proof fn lemma_model_list(s: Seq<OwnedValue>)
    ensures
        (#[trigger] model_list(s)).len() == s.len(),
        forall|i: int| 0 <= i < s.len() ==> #[trigger] model_list(s)[i] == model_of(s[i]),
    decreases s,
{
    if s.len() > 0 {
        lemma_model_list(s.drop_last());
    }
}

pub broadcast proof fn lemma_model_pairs(s: Seq<(OwnedValue, OwnedValue)>)
    ensures
        (#[trigger] model_pairs(s)).len() == s.len(),
        forall|i: int| 0 <= i < s.len() ==> #[trigger] model_pairs(s)[i] == (model_of(s[i].0), model_of(
            s[i].1,
        )),
    decreases s,
{
    if s.len() > 0 {
        lemma_model_pairs(s.drop_last());
    }
}

/// How deep a shape nests: a primitive opens no frame, a sequence or
/// mapping opens one around the deepest of its children.
pub open spec fn depth(m: Model) -> nat
    decreases m,
{
    match m {
        Model::Sequence(es) => 1 + depth_list(es),
        Model::Mapping(ps) => 1 + depth_pairs(ps),
        _ => 0,
    }
}

/// The deepest nesting among a sequence's elements.
pub open spec fn depth_list(es: Seq<Model>) -> nat
    decreases es,
{
    if es.len() == 0 {
        0
    } else {
        let rest = depth_list(es.drop_last());
        let last = depth(es.last());
        if last > rest {
            last
        } else {
            rest
        }
    }
}

/// The deepest nesting among a mapping's keys and values.
pub open spec fn depth_pairs(ps: Seq<(Model, Model)>) -> nat
    decreases ps,
{
    if ps.len() == 0 {
        0
    } else {
        let rest = depth_pairs(ps.drop_last());
        let key = depth(ps.last().0);
        let val = depth(ps.last().1);
        let entry = if key > val {
            key
        } else {
            val
        };
        if entry > rest {
            entry
        } else {
            rest
        }
    }
}

pub broadcast proof fn lemma_depth_list_bound(es: Seq<Model>, i: int)
    requires
        0 <= i < es.len(),
    ensures
        #[trigger] depth(es[i]) <= depth_list(es),
    decreases es,
{
    if i < es.len() - 1 {
        lemma_depth_list_bound(es.drop_last(), i);
    }
}

pub broadcast proof fn lemma_depth_pairs_bound(ps: Seq<(Model, Model)>, i: int)
    requires
        0 <= i < ps.len(),
    ensures
        #[trigger] depth(ps[i].0) <= depth_pairs(ps),
        #[trigger] depth(ps[i].1) <= depth_pairs(ps),
    decreases ps,
{
    if i < ps.len() - 1 {
        lemma_depth_pairs_bound(ps.drop_last(), i);
    }
}

/// The key/value pairing of a flat, alternating key-value item list.
pub open spec fn pairs_of(items: Seq<Model>) -> Seq<(Model, Model)>
    decreases items.len(),
{
    if items.len() < 2 {
        Seq::empty()
    } else {
        seq![(items[0], items[1])] + pairs_of(items.skip(2))
    }
}

/// The flat, alternating key-value item list a mapping's pairs produce
/// when they are streamed one by one.
pub open spec fn flat_pairs(q: Seq<(Model, Model)>) -> Seq<Model>
    decreases q,
{
    if q.len() == 0 {
        Seq::empty()
    } else {
        flat_pairs(q.drop_last()) + seq![q.last().0, q.last().1]
    }
}

pub broadcast proof fn lemma_flat_pairs_len(q: Seq<(Model, Model)>)
    ensures
        (#[trigger] flat_pairs(q)).len() == 2 * q.len(),
    decreases q,
{
    if q.len() > 0 {
        lemma_flat_pairs_len(q.drop_last());
    }
}

/// Splitting a flat key-value list at its front recovers the first pair.
proof fn lemma_flat_pairs_front(q: Seq<(Model, Model)>)
    requires
        q.len() > 0,
    ensures
        flat_pairs(q) =~= seq![q[0].0, q[0].1] + flat_pairs(q.skip(1)),
    decreases q,
{
    lemma_flat_pairs_len(q);
    if q.len() == 1 {
        assert(flat_pairs(q.skip(1)) =~= Seq::<Model>::empty());
    } else {
        lemma_flat_pairs_front(q.drop_last());
        lemma_flat_pairs_len(q.drop_last());
        assert(q.drop_last()[0] == q[0]);
        assert(q.drop_last().skip(1) =~= q.skip(1).drop_last());
        assert(q.skip(1).last() == q.last());
        assert(flat_pairs(q.skip(1)) == flat_pairs(q.skip(1).drop_last()) + seq![
            q.last().0,
            q.last().1,
        ]);
    }
}

/// Pairing a flat key-value list recovers exactly the pairs it came
/// from.
pub proof fn lemma_pairs_of_flat(q: Seq<(Model, Model)>)
    ensures
        pairs_of(flat_pairs(q)) =~= q,
    decreases q.len(),
{
    lemma_flat_pairs_len(q);
    if q.len() > 0 {
        lemma_flat_pairs_front(q);
        lemma_pairs_of_flat(q.skip(1));
        let f = flat_pairs(q);
        assert(f[0] == q[0].0);
        assert(f[1] == q[0].1);
        assert(f.skip(2) =~= flat_pairs(q.skip(1)));
        assert(pairs_of(f) =~= seq![(q[0].0, q[0].1)] + pairs_of(f.skip(2)));
        assert(pairs_of(f) =~= q);
    }
}

/// One in-progress composite: a sequence or mapping whose children are
/// still being collected. A mapping collects its keys and values
/// alternately and pairs them when it closes.
struct Composite {
    is_map: bool,
    items: Vec<OwnedValue>,
}

/// Whether a completed value can be accepted: it becomes a child of the
/// innermost in-progress composite, or the root if none is open — but a
/// second root cannot follow a completed one.
pub open spec fn can_attach(nodes: Seq<(bool, Seq<Model>)>, root: Option<Model>) -> bool {
    nodes.len() > 0 || root is None
}

/// The in-progress composites after a completed shape is accepted.
pub open spec fn attach_nodes(nodes: Seq<(bool, Seq<Model>)>, m: Model) -> Seq<
    (bool, Seq<Model>),
> {
    if nodes.len() > 0 {
        nodes.update(nodes.len() - 1, (nodes.last().0, nodes.last().1.push(m)))
    } else {
        nodes
    }
}

/// The completed root after a completed shape is accepted.
pub open spec fn attach_root(
    nodes: Seq<(bool, Seq<Model>)>,
    root: Option<Model>,
    m: Model,
) -> Option<Model> {
    if nodes.len() > 0 {
        root
    } else {
        Some(m)
    }
}

/// The owned-snapshot builder: a consumer that materializes every
/// streamed call into an [`OwnedValue`] tree, bottom-up. Primitive calls
/// become leaves at once; begin calls open an in-progress composite; end
/// calls close the innermost one and attach it to its parent, or make it
/// the root.
pub struct OwnedCollector {
    nodes: Vec<Composite>,
    root: Option<OwnedValue>,
}

impl OwnedCollector {
    /// The in-progress composites, outermost first: whether each is a
    /// mapping, and the shapes collected into it so far.
    pub closed spec fn nodes_model(&self) -> Seq<(bool, Seq<Model>)> {
        self.nodes@.map(|i: int, c: Composite| (c.is_map, model_list(c.items@)))
    }

    /// The completed root shape, once one has been collected.
    pub closed spec fn root_model(&self) -> Option<Model> {
        match self.root {
            Some(v) => Some(model_of(v)),
            None => None,
        }
    }

    /// An empty builder: nothing collected yet.
    pub fn new() -> (c: OwnedCollector)
        ensures
            c.nodes_model() == Seq::<(bool, Seq<Model>)>::empty(),
            c.root_model() is None,
    {
        let c = OwnedCollector { nodes: Vec::new(), root: None };
        proof {
            assert(c.nodes_model() =~= Seq::<(bool, Seq<Model>)>::empty());
        }
        c
    }

    /// Accepts one completed value: a primitive leaf or a closed
    /// composite.
    fn attach(&mut self, v: OwnedValue) -> (r: Result<(), Error>)
        ensures
            can_attach(old(self).nodes_model(), old(self).root_model()) ==> {
                &&& r is Ok
                &&& final(self).nodes_model() == attach_nodes(old(self).nodes_model(), model_of(v))
                &&& final(self).root_model() == attach_root(
                    old(self).nodes_model(),
                    old(self).root_model(),
                    model_of(v),
                )
            },
            !can_attach(old(self).nodes_model(), old(self).root_model()) ==> {
                &&& r matches Err(e) && e.spec_kind() == ErrorKind::InvalidState
                &&& final(self).nodes_model() == old(self).nodes_model()
                &&& final(self).root_model() == old(self).root_model()
            },
    {
        if self.nodes.len() > 0 {
            let mut top = match self.nodes.pop() {
                Some(c) => c,
                None => {
                    return Err(Error::invalid_state("no composite is open"));
                },
            };
            top.items.push(v);
            self.nodes.push(top);
            proof {
                let c0 = old(self).nodes@.last();
                assert(top.items@.drop_last() =~= c0.items@);
                assert(model_list(top.items@) == model_list(c0.items@).push(model_of(v)));
                assert(final(self).nodes_model() =~~= attach_nodes(
                    old(self).nodes_model(),
                    model_of(v),
                ));
            }
            Ok(())
        } else if self.root.is_none() {
            self.root = Some(v);
            proof {
                assert(final(self).nodes_model() =~~= old(self).nodes_model());
            }
            Ok(())
        } else {
            Err(Error::invalid_state("a root value was already completed"))
        }
    }

    /// Opens a new in-progress composite.
    fn begin(&mut self, is_map: bool)
        ensures
            final(self).nodes_model() == old(self).nodes_model().push(
                (is_map, Seq::<Model>::empty()),
            ),
            final(self).root_model() == old(self).root_model(),
    {
        self.nodes.push(Composite { is_map, items: Vec::new() });
        proof {
            assert(final(self).nodes_model() =~~= old(self).nodes_model().push(
                (is_map, Seq::<Model>::empty()),
            ));
        }
    }

    /// Closes the innermost composite as a sequence and attaches it.
    fn end_seq(&mut self) -> (r: Result<(), Error>)
        ensures
            ({
                &&& old(self).nodes_model().len() > 0
                &&& old(self).nodes_model().last().0 == false
                &&& can_attach(old(self).nodes_model().drop_last(), old(self).root_model())
            }) ==> {
                &&& r is Ok
                &&& final(self).nodes_model() == attach_nodes(
                    old(self).nodes_model().drop_last(),
                    Model::Sequence(old(self).nodes_model().last().1),
                )
                &&& final(self).root_model() == attach_root(
                    old(self).nodes_model().drop_last(),
                    old(self).root_model(),
                    Model::Sequence(old(self).nodes_model().last().1),
                )
            },
            !({
                &&& old(self).nodes_model().len() > 0
                &&& old(self).nodes_model().last().0 == false
                &&& can_attach(old(self).nodes_model().drop_last(), old(self).root_model())
            }) ==> {
                &&& r matches Err(e) && e.spec_kind() == ErrorKind::InvalidState
                &&& final(self).nodes_model() == old(self).nodes_model()
                &&& final(self).root_model() == old(self).root_model()
            },
    {
        if self.nodes.len() == 0 {
            return Err(Error::invalid_state("no sequence is being collected"));
        }
        let top_index = self.nodes.len() - 1;
        if self.nodes[top_index].is_map {
            return Err(Error::invalid_state("the innermost composite is a mapping"));
        }
        if top_index == 0 && self.root.is_some() {
            return Err(Error::invalid_state("a root value was already completed"));
        }
        let top = match self.nodes.pop() {
            Some(c) => c,
            None => {
                return Err(Error::invalid_state("no composite is open"));
            },
        };
        proof {
            assert(self.nodes_model() =~~= old(self).nodes_model().drop_last());
        }
        self.attach(OwnedValue::Sequence(top.items))
    }

    /// Closes the innermost composite as a mapping, pairing the collected
    /// keys and values in encounter order, and attaches it.
    fn end_map(&mut self) -> (r: Result<(), Error>)
        ensures
            ({
                &&& old(self).nodes_model().len() > 0
                &&& old(self).nodes_model().last().0 == true
                &&& old(self).nodes_model().last().1.len() % 2 == 0
                &&& can_attach(old(self).nodes_model().drop_last(), old(self).root_model())
            }) ==> {
                &&& r is Ok
                &&& final(self).nodes_model() == attach_nodes(
                    old(self).nodes_model().drop_last(),
                    Model::Mapping(pairs_of(old(self).nodes_model().last().1)),
                )
                &&& final(self).root_model() == attach_root(
                    old(self).nodes_model().drop_last(),
                    old(self).root_model(),
                    Model::Mapping(pairs_of(old(self).nodes_model().last().1)),
                )
            },
            !({
                &&& old(self).nodes_model().len() > 0
                &&& old(self).nodes_model().last().0 == true
                &&& old(self).nodes_model().last().1.len() % 2 == 0
                &&& can_attach(old(self).nodes_model().drop_last(), old(self).root_model())
            }) ==> {
                &&& r matches Err(e) && e.spec_kind() == ErrorKind::InvalidState
                &&& final(self).nodes_model() == old(self).nodes_model()
                &&& final(self).root_model() == old(self).root_model()
            },
    {
        if self.nodes.len() == 0 {
            return Err(Error::invalid_state("no mapping is being collected"));
        }
        let top_index = self.nodes.len() - 1;
        proof {
            lemma_model_list(self.nodes@[top_index as int].items@);
        }
        if !self.nodes[top_index].is_map {
            return Err(Error::invalid_state("the innermost composite is a sequence"));
        }
        if self.nodes[top_index].items.len() % 2 != 0 {
            return Err(Error::invalid_state("a collected key has no value"));
        }
        if top_index == 0 && self.root.is_some() {
            return Err(Error::invalid_state("a root value was already completed"));
        }
        let mut top = match self.nodes.pop() {
            Some(c) => c,
            None => {
                return Err(Error::invalid_state("no composite is open"));
            },
        };
        proof {
            assert(self.nodes_model() =~~= old(self).nodes_model().drop_last());
        }
        let ghost flat = model_list(top.items@);
        let mut pairs: Vec<(OwnedValue, OwnedValue)> = Vec::new();
        while top.items.len() >= 2
            invariant
                top.items.len() % 2 == 0,
                model_pairs(pairs@) + pairs_of(model_list(top.items@)) =~= pairs_of(flat),
            decreases top.items.len(),
        {
            proof {
                broadcast use lemma_model_list, lemma_model_pairs;
            }
            let ghost items_before = top.items@;
            let ghost pairs_before = pairs@;
            let key = top.items.remove(0);
            let value = top.items.remove(0);
            pairs.push((key, value));
            proof {
                assert(model_list(items_before) =~= seq![
                    model_of(key),
                    model_of(value),
                ] + model_list(top.items@));
                assert(model_list(items_before).skip(2) =~= model_list(top.items@));
                assert(model_pairs(pairs@) =~= model_pairs(pairs_before).push(
                    (model_of(key), model_of(value)),
                ));
                assert(model_pairs(pairs@) + pairs_of(model_list(top.items@)) =~= pairs_of(flat));
            }
        }
        proof {
            assert(model_pairs(pairs@) =~= pairs_of(flat));
        }
        self.attach(OwnedValue::Mapping(pairs))
    }

    /// Hands the completed root snapshot out, once every opened composite
    /// was closed and a root value was collected.
    pub fn finish(self) -> (r: Result<OwnedValue, Error>)
        ensures
            (self.nodes_model().len() == 0 && self.root_model() is Some) ==> (r matches Ok(w)
                && w@ == self.root_model()->0),
            !(self.nodes_model().len() == 0 && self.root_model() is Some) ==> (r matches Err(e)
                && e.spec_kind() == ErrorKind::InvalidState),
    {
        if self.nodes.len() > 0 {
            return Err(Error::invalid_state("a sequence or map is still open"));
        }
        match self.root {
            Some(v) => Ok(v),
            None => Err(Error::invalid_state("no value was streamed")),
        }
    }
}

/// What shape a formatted-fallback token describes.
pub open spec fn model_of_args(a: Arguments<'_>) -> Model {
    match a {
        Arguments::Signed(v) => Model::I64(v),
        Arguments::Unsigned(v) => Model::U64(v),
        Arguments::Boolean(v) => Model::Bool(v),
        Arguments::Character(v) => Model::Char(v),
        Arguments::Text(v) => Model::Str(v@),
        Arguments::Empty => Model::Unit,
    }
}

/// The owned leaf a formatted-fallback token turns into.
fn leaf_of_args(args: Arguments<'_>) -> (v: OwnedValue)
    ensures
        model_of(v) == model_of_args(args),
{
    match args {
        Arguments::Signed(v) => OwnedValue::I64(v),
        Arguments::Unsigned(v) => OwnedValue::U64(v),
        Arguments::Boolean(v) => OwnedValue::Bool(v),
        Arguments::Character(v) => OwnedValue::Char(v),
        Arguments::Text(v) => OwnedValue::Str(v.to_owned()),
        Arguments::Empty => OwnedValue::Unit,
    }
}

impl Stream for OwnedCollector {
    fn fmt(&mut self, args: Arguments<'_>) -> Result<(), Error> {
        let leaf = leaf_of_args(args);
        self.attach(leaf)
    }

    fn i64(&mut self, v: i64) -> Result<(), Error> {
        self.attach(OwnedValue::I64(v))
    }

    fn u64(&mut self, v: u64) -> Result<(), Error> {
        self.attach(OwnedValue::U64(v))
    }

    fn bool(&mut self, v: bool) -> Result<(), Error> {
        self.attach(OwnedValue::Bool(v))
    }

    fn char(&mut self, v: char) -> Result<(), Error> {
        self.attach(OwnedValue::Char(v))
    }

    fn str(&mut self, v: &str) -> Result<(), Error> {
        self.attach(OwnedValue::Str(v.to_owned()))
    }

    fn none(&mut self) -> Result<(), Error> {
        self.attach(OwnedValue::Unit)
    }

    fn seq_begin(&mut self, hint: Option<usize>) -> Result<(), Error> {
        let _unused = hint;
        self.begin(false);
        Ok(())
    }

    fn seq_end(&mut self) -> Result<(), Error> {
        self.end_seq()
    }

    fn map_begin(&mut self, hint: Option<usize>) -> Result<(), Error> {
        let _unused = hint;
        self.begin(true);
        Ok(())
    }

    fn map_end(&mut self) -> Result<(), Error> {
        self.end_map()
    }
}

impl OwnedValue {
    /// Captures the value a producer describes as a fully owned snapshot,
    /// detached from the producer's own storage: the producer is driven
    /// through the protocol driver into the owned-snapshot builder.
    ///
    /// The producer decides success: its first protocol violation or
    /// failing consumer call is returned verbatim, and a producer that
    /// completes without describing exactly one root value is rejected.
    pub fn from_value<V: Value>(value: V) -> Result<OwnedValue, Error> {
        let collector = crate::stream(value, OwnedCollector::new())?;
        collector.finish()
    }

    /// Streams this snapshot's structure into any consumer: primitives as
    /// one call each, composites as begin/announce/end call groups.
    #[verifier::loop_isolation(false)]
    fn stream_all<S: Stream>(&self, stream: &mut S) -> Result<(), Error>
        decreases self,
    {
        match self {
            OwnedValue::I64(v) => stream.i64(*v),
            OwnedValue::U64(v) => stream.u64(*v),
            OwnedValue::Bool(v) => stream.bool(*v),
            OwnedValue::Char(v) => stream.char(*v),
            OwnedValue::Str(v) => stream.str(v.as_str()),
            OwnedValue::Unit => stream.none(),
            OwnedValue::Sequence(vs) => {
                stream.seq_begin(Some(vs.len()))?;
                let mut i: usize = 0;
                while i < vs.len()
                    invariant
                        i <= vs.len(),
                    decreases vs.len() - i,
                {
                    stream.seq_elem()?;
                    vs[i].stream_all(stream)?;
                    i = i + 1;
                }
                stream.seq_end()
            },
            OwnedValue::Mapping(ps) => {
                stream.map_begin(Some(ps.len()))?;
                let mut i: usize = 0;
                while i < ps.len()
                    invariant
                        i <= ps.len(),
                    decreases ps.len() - i,
                {
                    stream.map_key()?;
                    ps[i].0.stream_all(stream)?;
                    stream.map_value()?;
                    ps[i].1.stream_all(stream)?;
                    i = i + 1;
                }
                stream.map_end()
            },
        }
    }
}

/// Delivers one primitive leaf: validates the slot, then stores the
/// leaf.
fn deliver(stack: &mut Stack, out: &mut OwnedCollector, leaf: OwnedValue) -> (r: Result<
    (),
    Error,
>)
    requires
        primitive_allowed(old(stack)@),
        can_attach(old(out).nodes_model(), old(out).root_model()),
    ensures
        r is Ok,
        old(stack)@.len() <= MAX_DEPTH,
        final(stack)@ == item_delivered(old(stack)@),
        final(out).nodes_model() == attach_nodes(old(out).nodes_model(), model_of(leaf)),
        final(out).root_model() == attach_root(
            old(out).nodes_model(),
            old(out).root_model(),
            model_of(leaf),
        ),
{
    match stack.primitive() {
        Ok(_) => {},
        Err(e) => {
            return Err(e);
        },
    }
    match out.attach(leaf) {
        Ok(_) => Ok(()),
        Err(e) => Err(e),
    }
}

impl OwnedValue {
    /// Streams this snapshot as the next announced value into the given
    /// nesting tracker and snapshot builder: the concrete composition of
    /// protocol validation and owned capture that [`OwnedValue::snapshot`]
    /// runs from an empty state.
    ///
    /// It succeeds exactly when the remaining capacity of the tracker
    /// admits this value's nesting; it then delivers the value's shape,
    /// unchanged, into the builder. The only possible failure is running
    /// out of depth.
    #[verifier::loop_isolation(false)]
    pub fn replay(&self, stack: &mut Stack, out: &mut OwnedCollector) -> (r: Result<(), Error>)
        requires
            primitive_allowed(old(stack)@),
            can_attach(old(out).nodes_model(), old(out).root_model()),
        ensures
            r is Ok <==> old(stack)@.len() + depth(self@) <= MAX_DEPTH,
            r is Ok ==> final(stack)@ == item_delivered(old(stack)@),
            r is Ok ==> final(out).nodes_model() == attach_nodes(
                old(out).nodes_model(),
                self@,
            ),
            r is Ok ==> final(out).root_model() == attach_root(
                old(out).nodes_model(),
                old(out).root_model(),
                self@,
            ),
            r matches Err(e) ==> e.spec_kind() == ErrorKind::DepthExceeded,
        decreases self,
    {
        match self {
            OwnedValue::I64(v) => deliver(stack, out, OwnedValue::I64(*v)),
            OwnedValue::U64(v) => deliver(stack, out, OwnedValue::U64(*v)),
            OwnedValue::Bool(v) => deliver(stack, out, OwnedValue::Bool(*v)),
            OwnedValue::Char(v) => deliver(stack, out, OwnedValue::Char(*v)),
            OwnedValue::Str(s) => deliver(stack, out, OwnedValue::Str(s.as_str().to_owned())),
            OwnedValue::Unit => deliver(stack, out, OwnedValue::Unit),
            OwnedValue::Sequence(vs) => {
                let ghost stack0 = old(stack)@;
                let ghost nodes0 = old(out).nodes_model();
                let ghost root0 = old(out).root_model();
                let ghost m = model_list(vs@);
                proof {
                    lemma_model_list(vs@);
                }
                match stack.seq_begin() {
                    Ok(_) => {},
                    Err(e) => {
                        return Err(e);
                    },
                }
                out.begin(false);
                proof {
                    assert(m.take(0) =~= Seq::<Model>::empty());
                }
                let mut i: usize = 0;
                while i < vs.len()
                    invariant
                        i <= vs.len(),
                        stack@ == stack0.push(Frame::InSeq { elem_pending: false }),
                        out.nodes_model() == nodes0.push((false, m.take(i as int))),
                        out.root_model() == root0,
                        stack0.len() + 1 + depth_list(m.take(i as int)) <= MAX_DEPTH,
                    decreases vs.len() - i,
                {
                    match stack.seq_elem() {
                        Ok(_) => {},
                        Err(e) => {
                            return Err(e);
                        },
                    }
                    let ghost announced = stack@;
                    match vs[i].replay(stack, out) {
                        Ok(_) => {},
                        Err(e) => {
                            proof {
                                lemma_depth_list_bound(m, i as int);
                            }
                            return Err(e);
                        },
                    }
                    proof {
                        assert(stack@ =~= stack0.push(Frame::InSeq { elem_pending: false }));
                        assert(m.take(i as int + 1).drop_last() =~= m.take(i as int));
                        assert(m.take(i as int + 1) =~= m.take(i as int).push(m[i as int]));
                        assert(out.nodes_model() =~= nodes0.push(
                            (false, m.take(i as int + 1)),
                        ));
                        lemma_depth_list_bound(m, i as int);
                        assert(depth_list(m.take(i as int + 1)) <= MAX_DEPTH - stack0.len() - 1);
                    }
                    i = i + 1;
                }
                proof {
                    assert(m.take(vs@.len() as int) =~= m);
                }
                match stack.seq_end() {
                    Ok(_) => {},
                    Err(e) => {
                        return Err(e);
                    },
                }
                proof {
                    assert(stack0.push(Frame::InSeq { elem_pending: false }).drop_last()
                        =~= stack0);
                }
                match out.end_seq() {
                    Ok(_) => {},
                    Err(e) => {
                        proof {
                            assert(nodes0.push((false, m)).drop_last() =~= nodes0);
                        }
                        return Err(e);
                    },
                }
                proof {
                    assert(nodes0.push((false, m)).drop_last() =~= nodes0);
                }
                Ok(())
            },
            OwnedValue::Mapping(ps) => {
                let ghost stack0 = old(stack)@;
                let ghost nodes0 = old(out).nodes_model();
                let ghost root0 = old(out).root_model();
                let ghost mp = model_pairs(ps@);
                proof {
                    lemma_model_pairs(ps@);
                }
                match stack.map_begin() {
                    Ok(_) => {},
                    Err(e) => {
                        return Err(e);
                    },
                }
                out.begin(true);
                proof {
                    assert(mp.take(0) =~= Seq::<(Model, Model)>::empty());
                    assert(flat_pairs(mp.take(0)) =~= Seq::<Model>::empty());
                }
                let mut i: usize = 0;
                while i < ps.len()
                    invariant
                        i <= ps.len(),
                        stack@ == stack0.push(
                            Frame::InMap { awaiting_value: false, item_pending: false },
                        ),
                        out.nodes_model() == nodes0.push((true, flat_pairs(mp.take(i as int)))),
                        out.root_model() == root0,
                        stack0.len() + 1 + depth_pairs(mp.take(i as int)) <= MAX_DEPTH,
                    decreases ps.len() - i,
                {
                    match stack.map_key() {
                        Ok(_) => {},
                        Err(e) => {
                            return Err(e);
                        },
                    }
                    match ps[i].0.replay(stack, out) {
                        Ok(_) => {},
                        Err(e) => {
                            proof {
                                lemma_depth_pairs_bound(mp, i as int);
                            }
                            return Err(e);
                        },
                    }
                    match stack.map_value() {
                        Ok(_) => {},
                        Err(e) => {
                            return Err(e);
                        },
                    }
                    match ps[i].1.replay(stack, out) {
                        Ok(_) => {},
                        Err(e) => {
                            proof {
                                lemma_depth_pairs_bound(mp, i as int);
                            }
                            return Err(e);
                        },
                    }
                    proof {
                        assert(stack@ =~= stack0.push(
                            Frame::InMap { awaiting_value: false, item_pending: false },
                        ));
                        assert(mp.take(i as int + 1).drop_last() =~= mp.take(i as int));
                        assert(mp.take(i as int + 1).last() == mp[i as int]);
                        assert(flat_pairs(mp.take(i as int + 1)) =~= flat_pairs(
                            mp.take(i as int),
                        ).push(mp[i as int].0).push(mp[i as int].1));
                        assert(out.nodes_model() =~= nodes0.push(
                            (true, flat_pairs(mp.take(i as int + 1))),
                        ));
                        lemma_depth_pairs_bound(mp, i as int);
                        assert(depth_pairs(mp.take(i as int + 1)) <= MAX_DEPTH - stack0.len()
                            - 1);
                    }
                    i = i + 1;
                }
                proof {
                    assert(mp.take(ps@.len() as int) =~= mp);
                }
                match stack.map_end() {
                    Ok(_) => {},
                    Err(e) => {
                        return Err(e);
                    },
                }
                proof {
                    assert(stack0.push(
                        Frame::InMap { awaiting_value: false, item_pending: false },
                    ).drop_last() =~= stack0);
                }
                proof {
                    lemma_flat_pairs_len(mp);
                    lemma_pairs_of_flat(mp);
                    assert(nodes0.push((true, flat_pairs(mp))).drop_last() =~= nodes0);
                }
                match out.end_map() {
                    Ok(_) => {},
                    Err(e) => {
                        return Err(e);
                    },
                }
                Ok(())
            },
        }
    }

    /// Round trip: capturing this snapshot through the full streaming
    /// pipeline — protocol validation plus the owned-snapshot builder —
    /// succeeds exactly when its nesting stays within [`MAX_DEPTH`], and
    /// then yields a structurally identical snapshot; a deeper value is
    /// rejected with [`ErrorKind::DepthExceeded`].
    pub fn snapshot(&self) -> (r: Result<OwnedValue, Error>)
        ensures
            r is Ok <==> depth(self@) <= MAX_DEPTH,
            r matches Ok(w) ==> w@ == self@,
            r matches Err(e) ==> e.spec_kind() == ErrorKind::DepthExceeded,
    {
        let mut stack = Stack::new();
        let mut out = OwnedCollector::new();
        match self.replay(&mut stack, &mut out) {
            Ok(_) => {},
            Err(e) => {
                return Err(e);
            },
        }
        match out.finish() {
            Ok(w) => Ok(w),
            Err(e) => Err(e),
        }
    }
}

impl Value for OwnedValue {
    fn stream<S: Stream>(&self, stream: &mut S) -> Result<(), Error> {
        self.stream_all(stream)
    }
}

} // verus!
