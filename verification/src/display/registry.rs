//! The reducer interface and the ordered registry of reducers.
use vstd::prelude::*;

use crate::argv::NormalizedCommand;
use crate::display::context::ChannelContext;
use crate::display::outcome::{Outcome, ReduceOutcome};
use crate::display::reducers::cargo_test::CargoTestReducer;
use crate::display::reducers::pytest::PytestReducer;

verus! {

/// Pure-function reducer interface: raw bytes and context in, an outcome out;
/// no I/O, no exit-code modification. When `skip_reason` is `Some`, the
/// `display` bytes are ignored by the pipeline.
///
/// `handles`, `reduction` and `label` say what `matches`, `reduce` and `name`
/// return; the pipeline's contracts hold for any implementation whose
/// methods return what these say. Compiled code never calls the three.
pub trait Reducer: Send + Sync {
    /// Whether this reducer handles commands normalized to `norm`.
    spec fn handles(&self, norm: NormalizedCommand) -> bool;

    /// What this reducer makes of `input` in `ctx`.
    spec fn reduction(&self, input: Seq<u8>, ctx: ChannelContext) -> Outcome;

    /// The reducer's identifier.
    spec fn label(&self) -> Seq<char>;

    /// Unique identifier for logging / debugging.
    fn name(&self) -> (r: &'static str)
        ensures
            r@ == self.label(),
    ;

    /// Return `true` if this reducer handles the given normalized command.
    fn matches(&self, norm: &NormalizedCommand) -> (r: bool)
        ensures
            r == self.handles(*norm),
    ;

    /// Attempt to reduce `input`; the display carries no marker (the pipeline
    /// appends it after checking that the result is smaller than the raw).
    fn reduce(&self, input: &[u8], ctx: &ChannelContext) -> (r: ReduceOutcome)
        ensures
            r@ == self.reduction(input@, *ctx),
    ;
}

/// A reducer that can be registered.
#[derive(Debug, Clone, Copy)]
pub enum RegisteredReducer {
    Pytest(PytestReducer),
    CargoTest(CargoTestReducer),
}

impl Reducer for RegisteredReducer {
    open spec fn handles(&self, norm: NormalizedCommand) -> bool {
        match self {
            RegisteredReducer::Pytest(r) => r.handles(norm),
            RegisteredReducer::CargoTest(r) => r.handles(norm),
        }
    }

    open spec fn reduction(&self, input: Seq<u8>, ctx: ChannelContext) -> Outcome {
        match self {
            RegisteredReducer::Pytest(r) => r.reduction(input, ctx),
            RegisteredReducer::CargoTest(r) => r.reduction(input, ctx),
        }
    }

    open spec fn label(&self) -> Seq<char> {
        match self {
            RegisteredReducer::Pytest(r) => r.label(),
            RegisteredReducer::CargoTest(r) => r.label(),
        }
    }

    fn name(&self) -> (r: &'static str) {
        match self {
            RegisteredReducer::Pytest(r) => r.name(),
            RegisteredReducer::CargoTest(r) => r.name(),
        }
    }

    fn matches(&self, norm: &NormalizedCommand) -> (r: bool) {
        match self {
            RegisteredReducer::Pytest(r) => r.matches(norm),
            RegisteredReducer::CargoTest(r) => r.matches(norm),
        }
    }

    fn reduce(&self, input: &[u8], ctx: &ChannelContext) -> (r: ReduceOutcome) {
        match self {
            RegisteredReducer::Pytest(r) => r.reduce(input, ctx),
            RegisteredReducer::CargoTest(r) => r.reduce(input, ctx),
        }
    }
}

/// The reducers among the first `n` of `rs` that handle `norm`, in order.
pub open spec fn matching_upto<R: Reducer>(rs: Seq<R>, norm: NormalizedCommand, n: int) -> Seq<R>
    decreases n,
{
    if n <= 0 {
        seq![]
    } else if rs[n - 1].handles(norm) {
        matching_upto(rs, norm, n - 1).push(rs[n - 1])
    } else {
        matching_upto(rs, norm, n - 1)
    }
}

/// The reducers of `rs` that handle `norm`, in registration order.
pub open spec fn matching<R: Reducer>(rs: Seq<R>, norm: NormalizedCommand) -> Seq<R> {
    matching_upto(rs, norm, rs.len() as int)
}

/// Ordered list of registered reducers; the first one that succeeds and is
/// smaller than the raw output wins. Any type implementing `Reducer` can be
/// registered; `RegisteredReducer` holds the built-in ones.
pub struct Registry<R> {
    reducers: Vec<R>,
}

impl<R> View for Registry<R> {
    type V = Seq<R>;

    closed spec fn view(&self) -> Seq<R> {
        self.reducers@
    }
}

impl<R: Reducer> Registry<R> {
    /// Construct a registry from an explicit list.
    pub fn new(reducers: Vec<R>) -> (r: Self)
        ensures
            r@ == reducers@,
    {
        Registry { reducers }
    }

    /// Number of registered reducers.
    pub fn len(&self) -> (n: usize)
        ensures
            n == self@.len(),
    {
        self.reducers.len()
    }

    /// The reducer registered at position `i`.
    pub fn get(&self, i: usize) -> (r: &R)
        requires
            i < self@.len(),
        ensures
            *r == self@[i as int],
    {
        &self.reducers[i]
    }

    /// All reducers whose `matches()` returns true, in registration order.
    pub fn match_reducers(&self, norm: &NormalizedCommand) -> (r: Vec<&R>)
        ensures
            r@.len() == matching(self@, *norm).len(),
            forall|k: int| 0 <= k < r@.len() ==> *r@[k] == matching(self@, *norm)[k],
    {
        let mut out: Vec<&R> = Vec::new();
        let mut i: usize = 0;
        while i < self.reducers.len()
            invariant
                i <= self.reducers@.len(),
                out@.len() == matching_upto(self.reducers@, *norm, i as int).len(),
                forall|k: int|
                    0 <= k < out@.len() ==> *out@[k] == matching_upto(
                        self.reducers@,
                        *norm,
                        i as int,
                    )[k],
            decreases self.reducers.len() - i,
        {
            let r = &self.reducers[i];
            if r.matches(norm) {
                out.push(r);
            }
            i = i + 1;
        }
        out
    }
}

impl Registry<RegisteredReducer> {
    /// Build the default production registry: pytest, then cargo-test.
    pub fn default_registry() -> (r: Self)
        ensures
            r@ == seq![
                RegisteredReducer::Pytest(PytestReducer),
                RegisteredReducer::CargoTest(CargoTestReducer),
            ],
    {
        let mut v: Vec<RegisteredReducer> = Vec::new();
        v.push(RegisteredReducer::Pytest(PytestReducer));
        v.push(RegisteredReducer::CargoTest(CargoTestReducer));
        Registry { reducers: v }
    }
}

} // verus!
