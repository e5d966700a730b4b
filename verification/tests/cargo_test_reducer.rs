use foldback_lib::argv::NormalizedCommand;
use foldback_lib::display::context::{ChannelContext, CommandContext};
use foldback_lib::display::outcome::{Recoverability, ReductionKind, SkipReason, ViewKind};
use foldback_lib::display::reducers::cargo_test::{
    has_message_format_arg, is_running_header_exec, is_test_progress_skip_exec,
    reduce_cargo_stdout, CargoTestReducer,
};
use foldback_lib::display::registry::Reducer;
use foldback_lib::stash::Channel;
use foldback_lib::time::UtcTime;

fn min_utc() -> UtcTime {
    UtcTime::from_millis(chrono::DateTime::<chrono::Utc>::MIN_UTC.timestamp_millis()).unwrap()
}

fn make_cmd(args: Vec<&str>) -> CommandContext {
    CommandContext {
        command: "cargo".to_string(),
        args: args.iter().map(|s| s.to_string()).collect(),
        normalized: NormalizedCommand::CargoTest,
        exit_code: 0,
        cwd: ".".to_string(),
    }
}

fn stdout_ctx<'a>(cmd: &'a CommandContext, exp: &'a UtcTime) -> ChannelContext<'a> {
    ChannelContext {
        command: cmd,
        channel: Channel::Stdout,
        ref_id: "abc123def456abc123def456abc123de",
        expires_at: exp,
    }
}

#[test]
fn test_cargo_test_reducer_matches_cargo_test_normalized() {
    let r = CargoTestReducer;
    assert!(r.matches(&NormalizedCommand::CargoTest));
}

#[test]
fn test_cargo_test_reducer_does_not_match_other_commands() {
    let r = CargoTestReducer;
    assert!(!r.matches(&NormalizedCommand::Pytest {
        module_invocation: false
    }));
    assert!(!r.matches(&NormalizedCommand::Generic));
}

#[test]
fn test_unparseable_input_without_test_result_line_returns_parse_failed() {
    let cmd = make_cmd(vec!["test"]);
    let exp = min_utc();
    let ctx = stdout_ctx(&cmd, &exp);
    let outcome = CargoTestReducer.reduce(b"some cargo test output", &ctx);
    assert!(outcome.skip_reason.is_some(), "must skip unparseable input");
    assert!(!outcome.applied, "must not apply on unparseable input");
}

#[test]
fn test_gate_non_utf8_skipped() {
    let invalid: Vec<u8> = b"running 2 tests\n\xFF\xFE\n".to_vec();
    let cmd = make_cmd(vec!["test"]);
    let exp = min_utc();
    let ctx = stdout_ctx(&cmd, &exp);
    let out = CargoTestReducer.reduce(&invalid, &ctx);
    assert_eq!(
        out.skip_reason,
        Some(SkipReason::NonUtf8),
        "non-UTF-8 input must skip with NonUtf8"
    );
    assert!(!out.applied);
}

// ── further cases ────────────────────────────────────────────────────────────

const ONE_FAILURE: &str = "\
running 3 tests
test tests::a ... ok
test tests::b ... FAILED
test tests::c ... ignored

failures:

---- tests::b stdout ----
thread 'tests::b' panicked at src/lib.rs:10:5:
assertion failed
test tests::inside ... ok

failures:
    tests::b

test result: FAILED. 1 passed; 1 failed; 1 ignored; 0 measured; 0 filtered out; finished in 0.00s

";

#[test]
fn cargo_summary_exact_body() {
    let out = reduce_cargo_stdout(ONE_FAILURE.as_bytes()).unwrap();
    let expected = "\
running 3 tests
test tests::b ... FAILED

failures:

---- tests::b stdout ----
thread 'tests::b' panicked at src/lib.rs:10:5:
assertion failed
test tests::inside ... ok

failures:
    tests::b

test result: FAILED. 1 passed; 1 failed; 1 ignored; 0 measured; 0 filtered out; finished in 0.00s

";
    assert_eq!(String::from_utf8(out).unwrap(), expected);
}

#[test]
fn cargo_summary_without_trailing_newline() {
    let out = reduce_cargo_stdout(b"running 1 test\ntest a ... ok\ntest result: ok. 1 passed").unwrap();
    assert_eq!(out, b"running 1 test\ntest result: ok. 1 passed");
}

#[test]
fn cargo_without_result_line_is_none() {
    assert!(reduce_cargo_stdout(b"running 1 test\ntest a ... ok\n").is_none());
}

#[test]
fn cargo_gates_and_fields() {
    let exp = min_utc();
    let cmd = make_cmd(vec!["test", "--message-format=json"]);
    let out = CargoTestReducer.reduce(ONE_FAILURE.as_bytes(), &stdout_ctx(&cmd, &exp));
    assert_eq!(out.skip_reason, Some(SkipReason::MachineReadable));

    let cmd = make_cmd(vec!["test"]);
    let out = CargoTestReducer.reduce(b"", &stdout_ctx(&cmd, &exp));
    assert_eq!(out.skip_reason, Some(SkipReason::Empty));

    let err_ctx = ChannelContext {
        command: &cmd,
        channel: Channel::Stderr,
        ref_id: "abc123def456abc123def456abc123de",
        expires_at: &exp,
    };
    let out = CargoTestReducer.reduce(ONE_FAILURE.as_bytes(), &err_ctx);
    assert!(out.skip_reason.is_some());
    assert!(!out.applied);

    let out = CargoTestReducer.reduce(ONE_FAILURE.as_bytes(), &stdout_ctx(&cmd, &exp));
    assert!(out.applied);
    assert_eq!(out.view, ViewKind::CargoTestSummary);
    assert_eq!(out.reduction, ReductionKind::SemanticSummary);
    assert_eq!(out.recoverability, Recoverability::Retrievable);
    assert!(!String::from_utf8_lossy(&out.display).contains("[foldback"));
    assert_eq!(CargoTestReducer.name(), "cargo-test");
}

#[test]
fn cargo_line_classifiers() {
    assert!(is_running_header_exec(b"running 20 tests"));
    assert!(is_running_header_exec(b"running 1 test"));
    assert!(!is_running_header_exec(b"running tests now"));
    assert!(is_test_progress_skip_exec(b"test a::b ... ok"));
    assert!(is_test_progress_skip_exec(b"test a::b ... ignored"));
    assert!(!is_test_progress_skip_exec(b"test a::b ... FAILED"));
    let args = vec!["test".to_string(), "--message-format".to_string(), "json".to_string()];
    assert!(has_message_format_arg(&args));
    let args = vec!["test".to_string(), "--message-formats".to_string()];
    assert!(!has_message_format_arg(&args));
}
