use libairspy_rs::commands::{GpioPin, GpioPort};
use libairspy_rs::error::Error;
use libairspy_rs::gpio_cli::{
    argument_error, latch, parse_u8, run_operation, DumpWalk, GpioOp, GpioReplay, GpioStep,
    ReadScope, ReplayOutcome, GPIO_PINS, GPIO_PORTS, PIN_NUM_MAX, PIN_NUM_MIN, PORT_NUM_MAX,
    PORT_NUM_MIN,
};

#[test]
fn gpio_cli_constants_match_c_defines() {
    assert_eq!(PORT_NUM_MIN, 0);
    assert_eq!(PORT_NUM_MAX, 7);
    assert_eq!(PIN_NUM_MIN, 0);
    assert_eq!(PIN_NUM_MAX, 31);
    assert_eq!(GPIO_PORTS.len(), 8);
    assert_eq!(GPIO_PINS.len(), 32);
    assert_eq!(GPIO_PORTS[7], GpioPort::Port7);
    assert_eq!(GPIO_PINS[31], GpioPin::Pin31);
}

#[test]
fn parse_u8_follows_c_strtol_semantics() {
    assert_eq!(parse_u8("0"), Some(0));
    assert_eq!(parse_u8("255"), Some(255));
    assert_eq!(parse_u8(" 12"), Some(12));
    assert_eq!(parse_u8("+7"), Some(7));
    assert_eq!(parse_u8("256"), None);
    assert_eq!(parse_u8("-1"), None);
    assert_eq!(parse_u8("0x10"), None);
    assert_eq!(parse_u8("12abc"), None);
    assert_eq!(parse_u8(""), None);
    assert_eq!(parse_u8("99999999999999999999"), None);
    assert_eq!(parse_u8("-0"), Some(0));
}

/// Drive a replay: every read and write succeeds and is logged.
fn run(ops: &[GpioOp]) -> (ReplayOutcome, Vec<String>, Vec<String>) {
    let mut log = Vec::new();
    let mut out = Vec::new();
    let mut replay = GpioReplay::new();
    for op in ops {
        match replay.step(op) {
            GpioStep::Continue => {}
            GpioStep::Read(scope) => {
                log.push(format!("read {scope:?}"));
                if let Some(m) = replay.finish_operation(Ok(())) {
                    out.push(m);
                    break;
                }
            }
            GpioStep::Write(port, pin, value) => {
                log.push(format!("write {port:?} {pin:?} {value}"));
                if let Some(m) = replay.finish_operation(Ok(())) {
                    out.push(m);
                    break;
                }
            }
            GpioStep::Stop(m) => {
                out.extend(m);
                break;
            }
        }
    }
    (replay.outcome, log, out)
}

#[test]
fn read_scopes_follow_c_sentinel_rules() {
    let (o, log, _) = run(&[GpioOp::Read]);
    assert_eq!(o, ReplayOutcome::Completed);
    assert_eq!(log, ["read All"]);
    let (_, log, _) = run(&[GpioOp::Pin("3".into()), GpioOp::Read]);
    assert_eq!(log, ["read All"]);
    let (_, log, _) = run(&[GpioOp::Port("2".into()), GpioOp::Read]);
    assert_eq!(log, ["read Port(Port2)"]);
    let (_, log, _) = run(&[GpioOp::Port("0".into()), GpioOp::Pin("12".into()), GpioOp::Read]);
    assert_eq!(log, ["read PortPin(Port0, Pin12)"]);
}

#[test]
fn gpio_cli_ops_replay_in_command_line_order() {
    let (o, log, _) = run(&[
        GpioOp::Port("0".into()),
        GpioOp::Pin("12".into()),
        GpioOp::Read,
        GpioOp::Pin("13".into()),
        GpioOp::Write("1".into()),
    ]);
    assert_eq!(o, ReplayOutcome::Completed);
    assert_eq!(log, ["read PortPin(Port0, Pin12)", "write Port0 Pin13 1"]);
}

#[test]
fn range_errors_print_c_messages_and_stop() {
    let (o, log, out) = run(&[GpioOp::Port("8".into()), GpioOp::Read]);
    assert_eq!(o, ReplayOutcome::Failed);
    assert!(log.is_empty());
    assert_eq!(out, ["Error parameter -p shall be between 0 and 7"]);
    let (o, _, out) = run(&[GpioOp::Pin("32".into())]);
    assert_eq!(o, ReplayOutcome::Failed);
    assert_eq!(out, ["Error parameter -n shall be between 0 and 31"]);
}

#[test]
fn write_requires_port_and_pin() {
    let (o, log, out) = run(&[GpioOp::Write("1".into())]);
    assert_eq!(o, ReplayOutcome::Failed);
    assert!(log.is_empty());
    assert_eq!(out, ["error: -w requires -p and -n"]);
}

#[test]
fn write_value_passes_through_like_c() {
    let (o, log, _) = run(&[
        GpioOp::Port("1".into()),
        GpioOp::Pin("7".into()),
        GpioOp::Write("255".into()),
    ]);
    assert_eq!(o, ReplayOutcome::Completed);
    assert_eq!(log, ["write Port1 Pin7 255"]);
}

#[test]
fn unparseable_write_value_fails_silently_like_c() {
    let (o, log, out) = run(&[
        GpioOp::Port("0".into()),
        GpioOp::Pin("1".into()),
        GpioOp::Write("abc".into()),
    ]);
    assert_eq!(o, ReplayOutcome::Failed);
    assert!(log.is_empty());
    assert!(out.is_empty());
}

#[test]
fn no_ops_reports_noops_outcome() {
    let (o, log, out) = run(&[]);
    assert_eq!(o, ReplayOutcome::NoOps);
    assert!(log.is_empty() && out.is_empty());
    let (o, log, _) = run(&[GpioOp::Port("0".into())]);
    assert_eq!(o, ReplayOutcome::Completed);
    assert!(log.is_empty());
}

#[test]
fn failed_operation_prints_argument_error_and_stops() {
    let mut out = Vec::new();
    let mut reads = 0;
    let mut replay = GpioReplay::new();
    for op in [GpioOp::Read, GpioOp::Read] {
        match replay.step(&op) {
            GpioStep::Read(scope) => {
                assert_eq!(scope, ReadScope::All);
                reads += 1;
                if let Some(m) = replay.finish_operation(Err(Error::NotFound)) {
                    out.push(m);
                    break;
                }
            }
            other => panic!("unexpected step {other:?}"),
        }
    }
    assert_eq!(reads, 1);
    assert_eq!(replay.outcome, ReplayOutcome::Failed);
    assert_eq!(out, ["argument error: AIRSPY_ERROR_NOT_FOUND (-5)"]);
}

#[test]
fn latch_and_run_operation_report_like_c() {
    assert_eq!(latch("7", 8, "-p"), Ok(7));
    assert_eq!(
        latch("8", 8, "-p"),
        Err("Error parameter -p shall be between 0 and 7".to_string())
    );
    let mut outcome = ReplayOutcome::NoOps;
    assert_eq!(run_operation(Ok(()), &mut outcome), None);
    assert_eq!(outcome, ReplayOutcome::Completed);
    assert_eq!(
        run_operation(Err(Error::Other), &mut outcome).as_deref(),
        Some("argument error: AIRSPY_ERROR_OTHER (-9999)")
    );
    assert_eq!(
        argument_error(&Error::TransferLengthMismatch { expected: 4, actual: 1 }),
        "argument error: AIRSPY_ERROR_LIBUSB (-1000)"
    );
}

/// Walk a dump with per-pin results from `result`.
fn walk(scope: ReadScope, result: impl Fn(GpioPort, GpioPin) -> bool) -> (Vec<(GpioPort, GpioPin)>, bool) {
    let mut w = DumpWalk::start(scope);
    let mut calls = Vec::new();
    while let Some((port, pin)) = w.current() {
        calls.push((port, pin));
        w.advance(result(port, pin));
    }
    (calls, w.last_ok)
}

#[test]
fn dump_scope_mirrors_c_loop_semantics() {
    let (calls, ok) = walk(ReadScope::Port(GpioPort::Port1), |_, pin| pin != GpioPin::Pin5);
    assert_eq!(calls.len(), 32);
    assert!(ok);
    let (calls, ok) = walk(ReadScope::All, |_, pin| pin != GpioPin::Pin31);
    assert_eq!(calls.len(), 32);
    assert!(!ok);
    let (calls, ok) = walk(ReadScope::All, |_, _| true);
    assert_eq!(calls.len(), 256);
    assert_eq!(calls[255], (GpioPort::Port7, GpioPin::Pin31));
    assert!(ok);
    let (calls, ok) = walk(ReadScope::PortPin(GpioPort::Port3, GpioPin::Pin9), |_, _| true);
    assert_eq!(calls, [(GpioPort::Port3, GpioPin::Pin9)]);
    assert!(ok);
}
