use chrono::TimeZone;
use foldback_lib::argv::NormalizedCommand;
use foldback_lib::condenser;
use foldback_lib::condenser::{CONDENSE_BYTE_THRESHOLD, CONDENSE_LINE_THRESHOLD};
use foldback_lib::display::context::{ChannelContext, CommandContext};
use foldback_lib::display::generic::exceeds_threshold;
use foldback_lib::display::marker::build_specialized_marker;
use foldback_lib::display::outcome::{
    Outcome, Recoverability, ReduceOutcome, ReductionKind, SkipReason, ViewKind,
};
use foldback_lib::display::registry::{Reducer, RegisteredReducer, Registry};
use foldback_lib::display::reducers::cargo_test::CargoTestReducer;
use foldback_lib::display::reducers::pytest::PytestReducer;
use foldback_lib::display::{beneficial, passthrough_display, render_channel, render_passthrough};
use foldback_lib::stash::Channel;
use foldback_lib::time::UtcTime;
use std::sync::atomic::{AtomicBool, Ordering};
use std::sync::Arc;

const REF_ID: &str = "abc123def456abc123def456abc123de";

fn expires() -> UtcTime {
    let t = chrono::Utc.with_ymd_and_hms(2026, 9, 7, 0, 0, 0).unwrap();
    UtcTime::from_millis(t.timestamp_millis()).unwrap()
}

fn numbered_lines(count: usize) -> Vec<u8> {
    (0..count)
        .flat_map(|i| format!("line-{i:04}\n").into_bytes())
        .collect()
}

fn make_generic_ctx_with_expires<'a>(
    cmd: &'a CommandContext,
    expires: &'a UtcTime,
) -> ChannelContext<'a> {
    ChannelContext {
        command: cmd,
        channel: Channel::Stdout,
        ref_id: REF_ID,
        expires_at: expires,
    }
}

fn generic_cmd() -> CommandContext {
    CommandContext {
        command: "seq".to_string(),
        args: vec![],
        normalized: NormalizedCommand::Generic,
        exit_code: 0,
        cwd: ".".to_string(),
    }
}

fn pytest_cmd(args: &[&str]) -> CommandContext {
    CommandContext {
        command: "pytest".to_string(),
        args: args.iter().map(|s| s.to_string()).collect(),
        normalized: NormalizedCommand::Pytest {
            module_invocation: false,
        },
        exit_code: 0,
        cwd: ".".to_string(),
    }
}

// ── never-worse (beneficial) ──────────────────────────────────────────────────

#[test]
fn test_beneficial_strictly_smaller() {
    assert!(beneficial(b"ab", b"abc"));
}

#[test]
fn test_beneficial_equal_is_not_beneficial() {
    assert!(!beneficial(b"abc", b"abc"));
}

#[test]
fn test_beneficial_larger_is_not_beneficial() {
    assert!(!beneficial(b"abcd", b"abc"));
}

// ── thresholds ───────────────────────────────────────────────────────────────

#[test]
fn test_exceeds_threshold_line_trigger() {
    assert!(!exceeds_threshold(&numbered_lines(CONDENSE_LINE_THRESHOLD)));
    assert!(exceeds_threshold(&numbered_lines(CONDENSE_LINE_THRESHOLD + 1)));
}

#[test]
fn test_exceeds_threshold_byte_trigger() {
    let under = vec![b'x'; CONDENSE_BYTE_THRESHOLD];
    let over = vec![b'x'; CONDENSE_BYTE_THRESHOLD + 1];
    assert!(!exceeds_threshold(&under));
    assert!(exceeds_threshold(&over));
}

#[test]
fn test_exceeds_threshold_empty() {
    assert!(!exceeds_threshold(b""));
}

// ── render_channel ────────────────────────────────────────────────────────────

#[test]
fn test_render_channel_generic_short_passthrough() {
    let data = b"short output\n";
    let cmd = generic_cmd();
    let exp = expires();
    let ctx = make_generic_ctx_with_expires(&cmd, &exp);
    let registry: Registry<RegisteredReducer> = Registry::new(vec![]);
    let out = render_channel(data, &ctx, &registry, false);

    assert!(!out.applied, "short output must not be condensed");
    assert_eq!(out.display, data, "short output must passthrough unchanged");
    assert_eq!(out.view, ViewKind::Raw);
}

#[test]
fn test_render_channel_generic_long_equals_condenser() {
    let data = numbered_lines(200);
    let cmd = generic_cmd();
    let exp = expires();
    let ctx = make_generic_ctx_with_expires(&cmd, &exp);
    let registry: Registry<RegisteredReducer> = Registry::new(vec![]);

    let old = condenser::condense(&data, REF_ID, &exp);
    let new_out = render_channel(&data, &ctx, &registry, false);

    assert!(old.condensed, "condenser must condense 200 lines");
    assert!(new_out.applied, "pipeline must condense 200 lines");
    assert_eq!(
        new_out.display, old.display,
        "pipeline generic output must be byte-identical to condenser output"
    );
    assert_eq!(new_out.view, ViewKind::Generic);
}

#[test]
fn test_render_channel_generic_no_benefit_passthrough() {
    let data = vec![b'x'; 1024 * 12];
    let cmd = generic_cmd();
    let exp = expires();
    let ctx = make_generic_ctx_with_expires(&cmd, &exp);
    let registry: Registry<RegisteredReducer> = Registry::new(vec![]);

    let old = condenser::condense(&data, REF_ID, &exp);
    let new_out = render_channel(&data, &ctx, &registry, false);

    assert!(!old.condensed, "condenser must not condense huge single line");
    assert!(!new_out.applied, "pipeline must not condense huge single line");
    assert_eq!(new_out.display, data, "must passthrough unchanged");
}

struct PanicReducer;

impl Reducer for PanicReducer {
    fn handles(&self, _: NormalizedCommand) -> bool {
        unreachable!()
    }
    fn reduction(&self, _: vstd::seq::Seq<u8>, _: ChannelContext<'_>) -> Outcome {
        unreachable!()
    }
    fn label(&self) -> vstd::seq::Seq<char> {
        unreachable!()
    }
    fn name(&self) -> &'static str {
        "panic"
    }
    fn matches(&self, _: &NormalizedCommand) -> bool {
        true
    }
    fn reduce(&self, _: &[u8], _: &ChannelContext) -> ReduceOutcome {
        panic!("reducer must not be called when reducers_enabled=false")
    }
}

#[test]
fn test_render_channel_reducers_disabled_does_not_call_registry() {
    let data = numbered_lines(200);
    let cmd = pytest_cmd(&[]);
    let exp = expires();
    let ctx = make_generic_ctx_with_expires(&cmd, &exp);
    let registry = Registry::new(vec![PanicReducer]);

    let out = render_channel(&data, &ctx, &registry, false);
    assert_eq!(
        out.view,
        ViewKind::Generic,
        "opt-out must still produce generic output"
    );
    let display_str = String::from_utf8_lossy(&out.display);
    assert!(
        !display_str.contains("view="),
        "FOLDBACK_REDUCERS=0 opt-out must not produce view= field"
    );
}

struct TrackReducer {
    called: Arc<AtomicBool>,
}

impl Reducer for TrackReducer {
    fn handles(&self, _: NormalizedCommand) -> bool {
        unreachable!()
    }
    fn reduction(&self, _: vstd::seq::Seq<u8>, _: ChannelContext<'_>) -> Outcome {
        unreachable!()
    }
    fn label(&self) -> vstd::seq::Seq<char> {
        unreachable!()
    }
    fn name(&self) -> &'static str {
        "track"
    }
    fn matches(&self, norm: &NormalizedCommand) -> bool {
        matches!(norm, NormalizedCommand::Pytest { .. })
    }
    fn reduce(&self, _input: &[u8], _ctx: &ChannelContext) -> ReduceOutcome {
        self.called.store(true, Ordering::SeqCst);
        ReduceOutcome::skipped(SkipReason::ParseFailed)
    }
}

#[test]
fn test_render_channel_reducers_enabled_calls_matching_reducer() {
    let called = Arc::new(AtomicBool::new(false));
    let data = numbered_lines(200);
    let cmd = pytest_cmd(&[]);
    let exp = expires();
    let ctx = make_generic_ctx_with_expires(&cmd, &exp);
    let registry = Registry::new(vec![TrackReducer {
        called: Arc::clone(&called),
    }]);

    let _out = render_channel(&data, &ctx, &registry, true);
    assert!(
        called.load(Ordering::SeqCst),
        "reducer must be called when reducers_enabled=true"
    );
}

struct BigReducer;

impl Reducer for BigReducer {
    fn handles(&self, _: NormalizedCommand) -> bool {
        unreachable!()
    }
    fn reduction(&self, _: vstd::seq::Seq<u8>, _: ChannelContext<'_>) -> Outcome {
        unreachable!()
    }
    fn label(&self) -> vstd::seq::Seq<char> {
        unreachable!()
    }
    fn name(&self) -> &'static str {
        "big"
    }
    fn matches(&self, _: &NormalizedCommand) -> bool {
        true
    }
    fn reduce(&self, input: &[u8], _ctx: &ChannelContext) -> ReduceOutcome {
        let mut big = input.to_vec();
        for _ in 0..50 {
            big.extend_from_slice(b"extra line to bloat output\n");
        }
        ReduceOutcome {
            display: big,
            applied: true,
            view: ViewKind::PytestSummary,
            reduction: ReductionKind::SemanticSummary,
            recoverability: Recoverability::Retrievable,
            skip_reason: None,
        }
    }
}

#[test]
fn test_render_channel_candidate_larger_than_raw_falls_back_to_generic() {
    let data = numbered_lines(200);
    let cmd = pytest_cmd(&[]);
    let exp = expires();
    let ctx = make_generic_ctx_with_expires(&cmd, &exp);
    let registry = Registry::new(vec![BigReducer]);

    let out = render_channel(&data, &ctx, &registry, true);
    assert_ne!(
        out.view,
        ViewKind::PytestSummary,
        "should NOT use BigReducer output"
    );
    let display_str = String::from_utf8_lossy(&out.display);
    assert!(
        !display_str.contains("view="),
        "generic output must not contain view="
    );
}

#[test]
fn test_render_passthrough_produces_two_outcomes() {
    let stdout_data = numbered_lines(200);
    let stderr_data = b"short stderr\n";
    let cmd = generic_cmd();
    let exp = expires();
    let registry: Registry<RegisteredReducer> = Registry::new(vec![]);

    let (stdout_out, stderr_out) = render_passthrough(
        &stdout_data,
        stderr_data,
        &cmd,
        REF_ID,
        &exp,
        &registry,
        false,
    );

    assert!(stdout_out.applied, "long stdout should be condensed");
    assert!(!stderr_out.applied, "short stderr should not be condensed");
    assert_eq!(stderr_out.display, stderr_data);
}

// ── the pipeline with the real reducers ──────────────────────────────────────

fn long_pytest_run() -> Vec<u8> {
    let mut text = String::new();
    text.push_str("============================= test session starts ==============================\n");
    text.push_str("platform linux -- Python 3.11.0\n");
    text.push_str("collected 200 items\n\n");
    for i in 1..=200 {
        text.push_str(&format!("tests/t.py::test_{i:03} PASSED                    [{:3}%]\n", i / 2));
    }
    text.push_str("============================== 200 passed in 1.50s ==============================\n");
    text.into_bytes()
}

#[test]
fn pytest_run_is_summarised_with_specialised_marker() {
    let data = long_pytest_run();
    let cmd = pytest_cmd(&[]);
    let exp = expires();
    let ctx = make_generic_ctx_with_expires(&cmd, &exp);
    let registry = Registry::default_registry();
    let out = render_channel(&data, &ctx, &registry, true);
    assert!(out.applied);
    assert_eq!(out.view, ViewKind::PytestSummary);
    let s = String::from_utf8(out.display.clone()).unwrap();
    let expected_marker = format!(
        "[foldback ref={REF_ID} raw={}b lines=205 view=pytest mode=summary recoverability=retrievable expires=2026-09-07T00:00:00Z]\n",
        data.len()
    );
    assert_eq!(
        s,
        format!(
            "============================== 200 passed in 1.50s ==============================\n{expected_marker}"
        )
    );
}

#[test]
fn verbose_pytest_run_falls_back_to_generic() {
    let data = long_pytest_run();
    let cmd = pytest_cmd(&["-v"]);
    let exp = expires();
    let ctx = make_generic_ctx_with_expires(&cmd, &exp);
    let registry = Registry::default_registry();
    let out = render_channel(&data, &ctx, &registry, true);
    assert!(out.applied);
    assert_eq!(out.view, ViewKind::Generic);
    let s = String::from_utf8_lossy(&out.display);
    assert!(s.contains("omitted="));
    assert!(!s.contains("view="));
}

#[test]
fn passthrough_display_without_stash_is_raw() {
    let data = numbered_lines(300);
    let cmd = generic_cmd();
    let registry = Registry::default_registry();
    let (o, e) = passthrough_display(&data, b"err\n", &cmd, None, &registry, true);
    assert_eq!(o, data);
    assert_eq!(e, b"err\n");
}

#[test]
fn passthrough_display_with_stash_condenses() {
    let data = numbered_lines(300);
    let cmd = generic_cmd();
    let registry = Registry::default_registry();
    let exp = expires();
    let (o, e) = passthrough_display(&data, b"err\n", &cmd, Some((REF_ID, &exp)), &registry, true);
    assert!(o.len() < data.len());
    assert!(String::from_utf8_lossy(&o).contains("omitted=260"));
    assert_eq!(e, b"err\n");
}

#[test]
fn command_context_new_normalizes() {
    let args = vec!["test".to_string(), "--lib".to_string()];
    let ctx = CommandContext::new("/usr/bin/cargo", &args, 101, "/work");
    assert_eq!(ctx.command, "/usr/bin/cargo");
    assert_eq!(ctx.args, args);
    assert_eq!(ctx.normalized, NormalizedCommand::CargoTest);
    assert_eq!(ctx.exit_code, 101);
    assert_eq!(ctx.cwd, "/work");
}

// ── marker ───────────────────────────────────────────────────────────────────

fn raw_200_lines() -> Vec<u8> {
    numbered_lines(200)
}

#[test]
fn test_specialized_marker_contains_required_fields() {
    let raw = raw_200_lines();
    let marker = build_specialized_marker(
        "abc123def456abc123def456abc123de",
        &raw,
        "pytest",
        &expires(),
    );
    let s = String::from_utf8(marker).expect("marker must be UTF-8");
    assert!(s.contains("ref=abc123def456abc123def456abc123de"), "missing ref=");
    assert!(s.contains("view=pytest"), "missing view=");
    assert!(s.contains("mode=summary"), "missing mode=summary");
    assert!(s.contains("recoverability=retrievable"), "missing recoverability=");
    assert!(s.contains("expires="), "missing expires=");
    assert!(s.contains(&format!("raw={}b", raw.len())), "missing raw=");
    assert!(s.contains("lines=200"), "missing lines=200");
}

#[test]
fn test_specialized_marker_no_omitted_field() {
    let raw = raw_200_lines();
    let marker = build_specialized_marker(
        "abc123def456abc123def456abc123de",
        &raw,
        "pytest",
        &expires(),
    );
    let s = String::from_utf8(marker).expect("marker must be UTF-8");
    assert!(!s.contains("omitted="), "specialized marker must NOT contain omitted=");
}

#[test]
fn test_specialized_marker_cargo_test_view() {
    let raw = raw_200_lines();
    let marker = build_specialized_marker(
        "abc123def456abc123def456abc123de",
        &raw,
        "cargo-test",
        &expires(),
    );
    let s = String::from_utf8(marker).expect("marker must be UTF-8");
    assert!(s.contains("view=cargo-test"), "must contain view=cargo-test");
    assert!(!s.contains("omitted="), "specialized marker must NOT contain omitted=");
}

#[test]
fn test_specialized_marker_starts_with_foldback_prefix() {
    let raw = raw_200_lines();
    let marker = build_specialized_marker(
        "abc123def456abc123def456abc123de",
        &raw,
        "pytest",
        &expires(),
    );
    let s = String::from_utf8(marker).expect("marker must be UTF-8");
    assert!(s.starts_with("[foldback ref="), "marker must start with [foldback ref=");
}

#[test]
fn test_specialized_marker_ends_with_newline() {
    let raw = raw_200_lines();
    let marker = build_specialized_marker(
        "abc123def456abc123def456abc123de",
        &raw,
        "pytest",
        &expires(),
    );
    assert!(marker.ends_with(b"\n"), "marker must end with newline");
}

#[test]
fn test_specialized_marker_extract_ref_id_compatible() {
    let raw = raw_200_lines();
    let ref_id = "aabbccddeeff00112233445566778899";
    let marker = build_specialized_marker(ref_id, &raw, "pytest", &expires());
    let s = String::from_utf8(marker).expect("marker must be UTF-8");
    let extracted = s
        .split("ref=")
        .nth(1)
        .and_then(|rest| rest.split_whitespace().next())
        .map(|s| &s[..32.min(s.len())]);
    assert_eq!(extracted, Some(ref_id), "extract_ref_id must succeed on specialized marker");
}

#[test]
fn specialized_marker_exact_text() {
    let marker = build_specialized_marker("r1", b"a\nb", "pytest", &expires());
    assert_eq!(
        String::from_utf8(marker).unwrap(),
        "[foldback ref=r1 raw=3b lines=2 view=pytest mode=summary recoverability=retrievable expires=2026-09-07T00:00:00Z]\n"
    );
}

// ── registry ─────────────────────────────────────────────────────────────────

struct TrackingReducer {
    called: Arc<AtomicBool>,
    norm_match: NormalizedCommand,
}

impl Reducer for TrackingReducer {
    fn handles(&self, _: NormalizedCommand) -> bool {
        unreachable!()
    }
    fn reduction(&self, _: vstd::seq::Seq<u8>, _: ChannelContext<'_>) -> Outcome {
        unreachable!()
    }
    fn label(&self) -> vstd::seq::Seq<char> {
        unreachable!()
    }
    fn name(&self) -> &'static str {
        "tracking"
    }

    fn matches(&self, norm: &NormalizedCommand) -> bool {
        norm == &self.norm_match
    }

    fn reduce(&self, _input: &[u8], _ctx: &ChannelContext) -> ReduceOutcome {
        self.called.store(true, Ordering::SeqCst);
        ReduceOutcome::skipped(SkipReason::ParseFailed)
    }
}

fn make_cmd_ctx(norm: NormalizedCommand) -> CommandContext {
    CommandContext {
        command: "test".to_string(),
        args: vec![],
        normalized: norm,
        exit_code: 0,
        cwd: ".".to_string(),
    }
}

#[test]
fn test_registry_match_reducers_calls_matching() {
    let called = Arc::new(AtomicBool::new(false));
    let registry = Registry::new(vec![TrackingReducer {
        called: Arc::clone(&called),
        norm_match: NormalizedCommand::Pytest {
            module_invocation: false,
        },
    }]);

    let cmd = make_cmd_ctx(NormalizedCommand::Pytest {
        module_invocation: false,
    });
    let exp = expires();
    let ctx = make_generic_ctx_with_expires(&cmd, &exp);

    let matched = registry.match_reducers(&cmd.normalized);
    assert_eq!(matched.len(), 1, "should match exactly one reducer for Pytest");

    matched[0].reduce(b"some data", &ctx);
    assert!(called.load(Ordering::SeqCst), "reducer must have been called");
}

#[test]
fn test_registry_match_reducers_skips_non_matching() {
    let called = Arc::new(AtomicBool::new(false));
    let registry = Registry::new(vec![TrackingReducer {
        called: Arc::clone(&called),
        norm_match: NormalizedCommand::CargoTest,
    }]);

    let cmd = make_cmd_ctx(NormalizedCommand::Generic);
    let matched = registry.match_reducers(&cmd.normalized);
    assert_eq!(matched.len(), 0, "should not match any reducer for Generic");
}

#[test]
fn test_registry_empty_returns_no_matches() {
    let registry: Registry<RegisteredReducer> = Registry::new(vec![]);
    let norm = NormalizedCommand::Pytest {
        module_invocation: false,
    };
    assert_eq!(registry.match_reducers(&norm).len(), 0);
}

#[test]
fn test_default_registry_has_reducers() {
    let registry = Registry::default_registry();
    assert!(!registry
        .match_reducers(&NormalizedCommand::Pytest {
            module_invocation: false
        })
        .is_empty());
    assert!(!registry.match_reducers(&NormalizedCommand::CargoTest).is_empty());
    assert!(registry.match_reducers(&NormalizedCommand::Generic).is_empty());
}

#[test]
fn registry_matches_in_registration_order() {
    let registry = Registry::new(vec![
        RegisteredReducer::CargoTest(CargoTestReducer),
        RegisteredReducer::Pytest(PytestReducer),
        RegisteredReducer::CargoTest(CargoTestReducer),
    ]);
    let m = registry.match_reducers(&NormalizedCommand::CargoTest);
    assert_eq!(m.len(), 2);
    assert_eq!(m[0].name(), "cargo-test");
    assert_eq!(m[1].name(), "cargo-test");
}

// ── outcomes ─────────────────────────────────────────────────────────────────

#[test]
fn outcome_constructors() {
    let s = ReduceOutcome::skipped(SkipReason::Empty);
    assert!(!s.applied);
    assert_eq!(s.skip_reason, Some(SkipReason::Empty));
    assert!(s.display.is_empty());
    let p = ReduceOutcome::raw_passthrough(b"abc".to_vec());
    assert!(!p.applied);
    assert_eq!(p.view, ViewKind::Raw);
    assert_eq!(p.display, b"abc");
    assert_eq!(p.skip_reason, None);
}

#[test]
fn view_marker_names() {
    assert_eq!(ViewKind::PytestSummary.marker_name(), "pytest");
    assert_eq!(ViewKind::CargoTestSummary.marker_name(), "cargo-test");
    assert_eq!(ViewKind::Generic.marker_name(), "");
    assert_eq!(ViewKind::Raw.marker_name(), "");
}
