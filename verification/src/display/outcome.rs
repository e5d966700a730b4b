//! What the display pipeline produced for one channel.
use vstd::prelude::*;

verus! {

/// Which view of the output was produced.
#[derive(Debug, Clone, Copy, PartialEq, Eq, Structural)]
pub enum ViewKind {
    /// Generic head/tail condenser output (marker contains `omitted=`).
    Generic,
    /// Semantic pytest summary (marker contains `view=pytest`).
    PytestSummary,
    /// Semantic cargo test summary (marker contains `view=cargo-test`).
    CargoTestSummary,
    /// Raw bytes — no condensing applied.
    Raw,
}

/// The marker `view=` value of a view kind.
pub open spec fn view_marker_name(v: ViewKind) -> Seq<char> {
    match v {
        ViewKind::PytestSummary => "pytest"@,
        ViewKind::CargoTestSummary => "cargo-test"@,
        ViewKind::Generic | ViewKind::Raw => ""@,
    }
}

impl ViewKind {
    /// Marker `view=` value for this kind.  Only meaningful for specialized views.
    pub fn marker_name(&self) -> (r: &'static str)
        ensures
            r@ == view_marker_name(*self),
    {
        match self {
            ViewKind::PytestSummary => "pytest",
            ViewKind::CargoTestSummary => "cargo-test",
            ViewKind::Generic | ViewKind::Raw => "",
        }
    }
}

/// How the inline (terminal-visible) bytes were produced.
#[derive(Debug, Clone, Copy, PartialEq, Eq, Structural)]
pub enum ReductionKind {
    /// Generic head/tail truncation; `omitted=` count is exact and verifiable.
    GenericTruncation,
    /// Semantic summary (pytest/cargo); inline display is lossy — some lines dropped.
    SemanticSummary,
}

/// End-to-end recoverability of the raw output.
#[derive(Debug, Clone, Copy, PartialEq, Eq, Structural)]
pub enum Recoverability {
    Retrievable,
}

/// Why a reducer (or the whole pipeline) chose not to apply specialised reduction.
#[derive(Debug, Clone, Copy, PartialEq, Eq, Structural)]
pub enum SkipReason {
    /// Specialised reducers disabled at runtime.
    Disabled,
    /// No registered reducer matches this `NormalizedCommand`.
    NoMatch,
    /// Reducer matched but could not parse the output.
    ParseFailed,
    /// Output contains machine-readable flags (e.g. `--collect-only`, `--json`).
    MachineReadable,
    /// Condensed form is not strictly smaller than raw (never-worse check failed).
    NoBenefit,
    /// Output is not valid UTF-8; reducer requires text.
    NonUtf8,
    /// Output is empty; nothing to condense.
    Empty,
}

/// Result of the display pipeline for a single channel.
#[derive(Debug, Clone)]
pub struct ReduceOutcome {
    /// Bytes to write to the terminal (with the marker when produced by the
    /// pipeline and `applied`).
    pub display: Vec<u8>,
    /// `true` if condensing was applied and display differs from raw.
    pub applied: bool,
    /// Which view was produced.
    pub view: ViewKind,
    /// How the inline bytes were reduced.
    pub reduction: ReductionKind,
    /// Whether the full raw bytes are recoverable via `output get`.
    pub recoverability: Recoverability,
    /// Set when the reducer (or pipeline) chose to skip.
    pub skip_reason: Option<SkipReason>,
}

/// A `ReduceOutcome` with its display as a byte sequence.
pub struct Outcome {
    pub display: Seq<u8>,
    pub applied: bool,
    pub view: ViewKind,
    pub reduction: ReductionKind,
    pub recoverability: Recoverability,
    pub skip_reason: Option<SkipReason>,
}

impl View for ReduceOutcome {
    type V = Outcome;

    open spec fn view(&self) -> Outcome {
        Outcome {
            display: self.display@,
            applied: self.applied,
            view: self.view,
            reduction: self.reduction,
            recoverability: self.recoverability,
            skip_reason: self.skip_reason,
        }
    }
}

/// The outcome of a reducer that did not apply.
pub open spec fn skipped_outcome(reason: SkipReason) -> Outcome {
    Outcome {
        display: Seq::empty(),
        applied: false,
        view: ViewKind::Raw,
        reduction: ReductionKind::GenericTruncation,
        recoverability: Recoverability::Retrievable,
        skip_reason: Some(reason),
    }
}

/// The outcome that shows `data` unchanged.
pub open spec fn passthrough_outcome(data: Seq<u8>) -> Outcome {
    Outcome {
        display: data,
        applied: false,
        view: ViewKind::Raw,
        reduction: ReductionKind::GenericTruncation,
        recoverability: Recoverability::Retrievable,
        skip_reason: None,
    }
}

/// The outcome of a semantic summary shown as `display`.
pub open spec fn summary_outcome(display: Seq<u8>, view: ViewKind) -> Outcome {
    Outcome {
        display,
        applied: true,
        view,
        reduction: ReductionKind::SemanticSummary,
        recoverability: Recoverability::Retrievable,
        skip_reason: None,
    }
}

impl ReduceOutcome {
    /// Construct a skipped outcome (reducer did not apply).
    pub fn skipped(reason: SkipReason) -> (r: Self)
        ensures
            r@ == skipped_outcome(reason),
    {
        ReduceOutcome {
            display: Vec::new(),
            applied: false,
            view: ViewKind::Raw,
            reduction: ReductionKind::GenericTruncation,
            recoverability: Recoverability::Retrievable,
            skip_reason: Some(reason),
        }
    }

    /// Construct a raw passthrough outcome (no condensing applied).
    pub fn raw_passthrough(data: Vec<u8>) -> (r: Self)
        ensures
            r@ == passthrough_outcome(data@),
    {
        ReduceOutcome {
            display: data,
            applied: false,
            view: ViewKind::Raw,
            reduction: ReductionKind::GenericTruncation,
            recoverability: Recoverability::Retrievable,
            skip_reason: None,
        }
    }
}

} // verus!
