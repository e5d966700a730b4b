//! The display pipeline: threshold, specialised reducers, generic condensing.
pub mod context;
pub mod generic;
pub mod marker;
pub mod outcome;
pub mod reducers;
pub mod registry;

use vstd::prelude::*;
use vstd::string::StringSliceAdditionalSpecFns;

use crate::condenser::{condense, condensed_view, condenses, over_threshold};
use crate::stash::Channel;
use crate::time::UtcTime;
use context::{ChannelContext, CommandContext};
use marker::{build_specialized_marker, specialized_marker};
use outcome::{
    passthrough_outcome, view_marker_name, Outcome, Recoverability, ReduceOutcome, ReductionKind,
    ViewKind,
};
use registry::{matching, Reducer, RegisteredReducer, Registry};

verus! {

/// The condensed view is strictly smaller than the raw output.
pub open spec fn is_beneficial(display: Seq<u8>, raw: Seq<u8>) -> bool {
    display.len() < raw.len()
}

/// Return `true` when the condensed view is strictly smaller than raw
/// (marker bytes included).
pub fn beneficial(display: &[u8], raw: &[u8]) -> (r: bool)
    ensures
        r == is_beneficial(display@, raw@),
{
    display.len() < raw.len()
}

/// A specialised candidate with its marker appended.
pub open spec fn with_marker(c: Outcome, raw: Seq<u8>, ctx: ChannelContext) -> Seq<u8> {
    c.display + specialized_marker(
        ctx.ref_id.spec_bytes(),
        raw,
        vstd::utf8::encode_utf8(view_marker_name(c.view)),
        ctx.expires_at.spec_stamp(),
    )
}

/// The first specialised view among `rs[i..]`: reducers that skip are passed
/// over; the first that applies decides, and wins only when its view with the
/// marker is smaller than the raw output.
pub open spec fn specialized_from<R: Reducer>(
    raw: Seq<u8>,
    ctx: ChannelContext,
    rs: Seq<R>,
    i: int,
) -> Option<Outcome>
    decreases rs.len() - i,
{
    if i < 0 || i >= rs.len() {
        None
    } else {
        let c = rs[i].reduction(raw, ctx);
        if c.skip_reason is Some || !c.applied {
            specialized_from(raw, ctx, rs, i + 1)
        } else if is_beneficial(with_marker(c, raw, ctx), raw) {
            Some(
                Outcome {
                    display: with_marker(c, raw, ctx),
                    applied: true,
                    view: c.view,
                    reduction: c.reduction,
                    recoverability: c.recoverability,
                    skip_reason: None,
                },
            )
        } else {
            None
        }
    }
}

/// A built-in reducer that applies produces one of the summary views.
pub proof fn lemma_applied_view(r: RegisteredReducer, input: Seq<u8>, ctx: ChannelContext)
    ensures
        r.reduction(input, ctx).applied ==> r.reduction(input, ctx).view != ViewKind::Raw,
{
}

/// A specialised view, when there is one, applies and is smaller than the
/// raw output.
pub proof fn lemma_specialized_shape<R: Reducer>(
    raw: Seq<u8>,
    ctx: ChannelContext,
    rs: Seq<R>,
    i: int,
)
    ensures
        specialized_from(raw, ctx, rs, i) matches Some(o) ==> o.applied && o.skip_reason is None
            && o.display.len() < raw.len(),
    decreases rs.len() - i,
{
    if 0 <= i < rs.len() {
        lemma_specialized_shape(raw, ctx, rs, i + 1);
    }
}

/// With the built-in reducers, a specialised view is never the raw view.
proof fn lemma_builtin_specialized_view(
    raw: Seq<u8>,
    ctx: ChannelContext,
    rs: Seq<RegisteredReducer>,
    i: int,
)
    ensures
        specialized_from(raw, ctx, rs, i) matches Some(o) ==> o.view != ViewKind::Raw,
    decreases rs.len() - i,
{
    if 0 <= i < rs.len() {
        lemma_applied_view(rs[i], raw, ctx);
        lemma_builtin_specialized_view(raw, ctx, rs, i + 1);
    }
}

/// With the built-in reducers, a condensed display always names its view:
/// generic, pytest or cargo-test, never raw.
pub proof fn law_builtin_condensed_view_is_named(
    raw: Seq<u8>,
    ctx: ChannelContext,
    registry: Seq<RegisteredReducer>,
    reducers_enabled: bool,
)
    ensures
        rendered(raw, ctx, registry, reducers_enabled).applied ==> rendered(
            raw,
            ctx,
            registry,
            reducers_enabled,
        ).view != ViewKind::Raw,
{
    lemma_builtin_specialized_view(raw, ctx, matching(registry, ctx.command.normalized), 0);
}

/// The generic head/tail view of `raw`.
pub open spec fn generic_outcome(display: Seq<u8>) -> Outcome {
    Outcome {
        display,
        applied: true,
        view: ViewKind::Generic,
        reduction: ReductionKind::GenericTruncation,
        recoverability: Recoverability::Retrievable,
        skip_reason: None,
    }
}

/// What the generic condenser shows for `raw`.
pub open spec fn generic_rendering(raw: Seq<u8>, ctx: ChannelContext) -> Outcome {
    let ref_id = ctx.ref_id.spec_bytes();
    let stamp = ctx.expires_at.spec_stamp();
    if condenses(raw, ref_id, stamp) {
        generic_outcome(condensed_view(raw, ref_id, stamp))
    } else {
        passthrough_outcome(raw)
    }
}

/// The display of one channel.
pub open spec fn rendered<R: Reducer>(
    raw: Seq<u8>,
    ctx: ChannelContext,
    registry: Seq<R>,
    reducers_enabled: bool,
) -> Outcome {
    if !over_threshold(raw) {
        passthrough_outcome(raw)
    } else if reducers_enabled {
        match specialized_from(raw, ctx, matching(registry, ctx.command.normalized), 0) {
            Some(o) => o,
            None => generic_rendering(raw, ctx),
        }
    } else {
        generic_rendering(raw, ctx)
    }
}

/// What the terminal shows of a stream is never larger than the stream:
/// output within the thresholds (100 lines, 10 KB) is shown unchanged with no
/// marker; otherwise either a view strictly smaller than the raw bytes is
/// shown (generic or specialised), or the raw bytes themselves.
pub proof fn law_display_never_larger<R: Reducer>(
    raw: Seq<u8>,
    ctx: ChannelContext,
    registry: Seq<R>,
    reducers_enabled: bool,
)
    ensures
        !over_threshold(raw) ==> rendered(raw, ctx, registry, reducers_enabled) == passthrough_outcome(
            raw,
        ),
        rendered(raw, ctx, registry, reducers_enabled).applied ==> rendered(
            raw,
            ctx,
            registry,
            reducers_enabled,
        ).display.len() < raw.len(),
        !rendered(raw, ctx, registry, reducers_enabled).applied ==> rendered(
            raw,
            ctx,
            registry,
            reducers_enabled,
        ).display == raw,
{
    lemma_specialized_shape(raw, ctx, matching(registry, ctx.command.normalized), 0);
}

/// Produce the display output for a single I/O channel.
///
/// 1. Below threshold → raw passthrough.
/// 2. If `reducers_enabled`: try specialized reducers in registry order; a
///    skip moves on; the first that applies wins when it is smaller than raw
///    with its marker, and otherwise falls through to generic.
/// 3. Generic head/tail condensing.
/// 4. If generic is not beneficial → raw passthrough.
pub fn render_channel<R: Reducer>(
    raw: &[u8],
    ctx: &ChannelContext,
    registry: &Registry<R>,
    reducers_enabled: bool,
) -> (r: ReduceOutcome)
    ensures
        r@ == rendered(raw@, *ctx, registry@, reducers_enabled),
        !r.applied ==> r.display@ == raw@ && r.view == ViewKind::Raw,
        r.applied ==> r.display@.len() < raw@.len(),
        r.skip_reason is None,
        !reducers_enabled ==> r@ == if over_threshold(raw@) {
            generic_rendering(raw@, *ctx)
        } else {
            passthrough_outcome(raw@)
        },
{
    if !generic::exceeds_threshold(raw) {
        return ReduceOutcome::raw_passthrough(copy(raw));
    }
    proof {
        lemma_specialized_shape(raw@, *ctx, matching(registry@, ctx.command.normalized), 0);
    }
    if reducers_enabled {
        if let Some(outcome) = try_specialized(raw, ctx, registry) {
            return outcome;
        }
    }
    let cond = condense(raw, ctx.ref_id, ctx.expires_at);
    if cond.condensed {
        return ReduceOutcome {
            display: cond.display,
            applied: true,
            view: ViewKind::Generic,
            reduction: ReductionKind::GenericTruncation,
            recoverability: Recoverability::Retrievable,
            skip_reason: None,
        };
    }
    ReduceOutcome::raw_passthrough(copy(raw))
}

fn copy(b: &[u8]) -> (r: Vec<u8>)
    ensures
        r@ == b@,
{
    crate::text::copy_bytes(b)
}

/// Try each matching specialized reducer in registry order.
///
/// Returns `Some(outcome)` if a reducer applied and was beneficial including
/// the appended marker bytes; `None` to fall through to generic.
fn try_specialized<R: Reducer>(raw: &[u8], ctx: &ChannelContext, registry: &Registry<R>) -> (r: Option<
    ReduceOutcome,
>)
    ensures
        match specialized_from(raw@, *ctx, matching(registry@, ctx.command.normalized), 0) {
            Some(o) => r matches Some(v) && v@ == o,
            None => r is None,
        },
{
    let rs = registry.match_reducers(&ctx.command.normalized);
    let ghost all = matching(registry@, ctx.command.normalized);
    let mut i: usize = 0;
    while i < rs.len()
        invariant
            i <= rs@.len(),
            rs@.len() == all.len(),
            forall|k: int| 0 <= k < rs@.len() ==> *rs@[k] == all[k],
            all == matching(registry@, ctx.command.normalized),
            specialized_from(raw@, *ctx, all, 0) == specialized_from(raw@, *ctx, all, i as int),
        decreases rs.len() - i,
    {
        let reducer: &R = rs[i];
        assert(*reducer == all[i as int]);
        let candidate = reducer.reduce(raw, ctx);
        if candidate.skip_reason.is_some() || !candidate.applied {
            i = i + 1;
        } else {
            let view_name = candidate.view.marker_name();
            let marker_bytes = build_specialized_marker(ctx.ref_id, raw, view_name, ctx.expires_at);
            let mut full_display = candidate.display;
            full_display.extend_from_slice(&marker_bytes);
            assert(candidate@ == all[i as int].reduction(raw@, *ctx));
            assert(view_name.spec_bytes() == vstd::utf8::encode_utf8(view_marker_name(candidate.view)));
            assert(full_display@ == with_marker(candidate@, raw@, *ctx));
            if beneficial(&full_display, raw) {
                return Some(
                    ReduceOutcome {
                        display: full_display,
                        applied: true,
                        view: candidate.view,
                        reduction: candidate.reduction,
                        recoverability: candidate.recoverability,
                        skip_reason: None,
                    },
                );
            }
            return None;
        }
    }
    None
}

/// Produce display output for both stdout and stderr channels.
pub fn render_passthrough<R: Reducer>(
    stdout: &[u8],
    stderr: &[u8],
    cmd_ctx: &CommandContext,
    ref_id: &str,
    expires_at: &UtcTime,
    registry: &Registry<R>,
    reducers_enabled: bool,
) -> (r: (ReduceOutcome, ReduceOutcome))
    ensures
        r.0@ == rendered(
            stdout@,
            ChannelContext { command: cmd_ctx, channel: Channel::Stdout, ref_id, expires_at },
            registry@,
            reducers_enabled,
        ),
        r.1@ == rendered(
            stderr@,
            ChannelContext { command: cmd_ctx, channel: Channel::Stderr, ref_id, expires_at },
            registry@,
            reducers_enabled,
        ),
{
    let stdout_ctx = ChannelContext { command: cmd_ctx, channel: Channel::Stdout, ref_id, expires_at };
    let stderr_ctx = ChannelContext { command: cmd_ctx, channel: Channel::Stderr, ref_id, expires_at };
    let stdout_out = render_channel(stdout, &stdout_ctx, registry, reducers_enabled);
    let stderr_out = render_channel(stderr, &stderr_ctx, registry, reducers_enabled);
    (stdout_out, stderr_out)
}

/// What the terminal shows of a run: each stream's rendering when the
/// capture was stashed under a ref, and the raw bytes when it was not.
pub fn passthrough_display<R: Reducer>(
    stdout: &[u8],
    stderr: &[u8],
    cmd_ctx: &CommandContext,
    stashed: Option<(&str, &UtcTime)>,
    registry: &Registry<R>,
    reducers_enabled: bool,
) -> (r: (Vec<u8>, Vec<u8>))
    ensures
        match stashed {
            None => r.0@ == stdout@ && r.1@ == stderr@,
            Some((ref_id, expires_at)) => {
                &&& r.0@ == rendered(
                    stdout@,
                    ChannelContext {
                        command: cmd_ctx,
                        channel: Channel::Stdout,
                        ref_id,
                        expires_at,
                    },
                    registry@,
                    reducers_enabled,
                ).display
                &&& r.1@ == rendered(
                    stderr@,
                    ChannelContext {
                        command: cmd_ctx,
                        channel: Channel::Stderr,
                        ref_id,
                        expires_at,
                    },
                    registry@,
                    reducers_enabled,
                ).display
            },
        },
{
    match stashed {
        None => (copy(stdout), copy(stderr)),
        Some((ref_id, expires_at)) => {
            let (o, e) = render_passthrough(
                stdout,
                stderr,
                cmd_ctx,
                ref_id,
                expires_at,
                registry,
                reducers_enabled,
            );
            (o.display, e.display)
        },
    }
}

} // verus!
