//! The engine of the GPIO level and direction tools: C `strtol`-style
//! byte parsing, the port/pin tables, and the order-sensitive replay of
//! the `-p`/`-n`/`-r`/`-w` options as a state machine. The caller runs
//! the device operations each step asks for and reports back.
use crate::cli::{all_digits, digit_of, digit_value, digits_value, strip_sign, trim_spaces};
use crate::commands::{GpioPin, GpioPort};
use crate::error::Error;
use crate::text::{push_decimal, push_signed, decimal, signed_decimal};
use vstd::prelude::*;
use vstd::string::StringSliceAdditionalSpecFns;
use vstd::utf8::encode_utf8;

verus! {

/// Lowest port number.
pub const PORT_NUM_MIN: u8 = 0;

/// Highest port number.
pub const PORT_NUM_MAX: u8 = 7;

/// Lowest pin number.
pub const PIN_NUM_MIN: u8 = 0;

/// Highest pin number.
pub const PIN_NUM_MAX: u8 = 31;

/// The ports in iteration order; index = port number.
pub const GPIO_PORTS: [GpioPort; 8] = [
    GpioPort::Port0,
    GpioPort::Port1,
    GpioPort::Port2,
    GpioPort::Port3,
    GpioPort::Port4,
    GpioPort::Port5,
    GpioPort::Port6,
    GpioPort::Port7,
];

/// The pins in iteration order; index = pin number.
pub const GPIO_PINS: [GpioPin; 32] = [
    GpioPin::Pin0,
    GpioPin::Pin1,
    GpioPin::Pin2,
    GpioPin::Pin3,
    GpioPin::Pin4,
    GpioPin::Pin5,
    GpioPin::Pin6,
    GpioPin::Pin7,
    GpioPin::Pin8,
    GpioPin::Pin9,
    GpioPin::Pin10,
    GpioPin::Pin11,
    GpioPin::Pin12,
    GpioPin::Pin13,
    GpioPin::Pin14,
    GpioPin::Pin15,
    GpioPin::Pin16,
    GpioPin::Pin17,
    GpioPin::Pin18,
    GpioPin::Pin19,
    GpioPin::Pin20,
    GpioPin::Pin21,
    GpioPin::Pin22,
    GpioPin::Pin23,
    GpioPin::Pin24,
    GpioPin::Pin25,
    GpioPin::Pin26,
    GpioPin::Pin27,
    GpioPin::Pin28,
    GpioPin::Pin29,
    GpioPin::Pin30,
    GpioPin::Pin31,
];

/// `strtol(s, &end, 10)` accepted only when the whole string was
/// consumed and the value lies in `0..=255`.
pub open spec fn parse_u8_value(s: Seq<u8>) -> Option<u8> {
    let (neg, t) = strip_sign(trim_spaces(s));
    if t.len() == 0 || !all_digits(t, 10) {
        None
    } else {
        let v = digits_value(t, 10);
        let sv = if neg {
            -v
        } else {
            v
        };
        if 0 <= sv < 256 {
            Some(sv as u8)
        } else {
            None
        }
    }
}

proof fn lemma_digits_grow(pre: Seq<u8>, d: int)
    requires
        digits_value(pre, 10) >= 0,
        0 <= d,
    ensures
        digits_value(pre, 10) * 10 + d >= digits_value(pre, 10),
{
}

/// Parse a byte argument (`parse_u8`): optional leading
/// whitespace and one sign, decimal digits to the end of the string,
/// and a value in `0..=255`.
pub fn parse_u8(s: &str) -> (r: Option<u8>)
    ensures
        r == parse_u8_value(s.spec_bytes()),
{
    let b = s.as_bytes();
    let n = b.len();
    let mut i: usize = 0;
    assert(b@.skip(0) =~= b@);
    while i < n && (b[i] == 32 || (9 <= b[i] && b[i] <= 13))
        invariant
            n == b@.len(),
            i <= n,
            trim_spaces(b@) == trim_spaces(b@.skip(i as int)),
        decreases n - i,
    {
        assert(b@.skip(i as int).skip(1) =~= b@.skip(i + 1));
        i = i + 1;
    }
    assert(trim_spaces(b@) == b@.skip(i as int));
    let mut neg = false;
    if i < n && (b[i] == 43 || b[i] == 45) {
        neg = b[i] == 45;
        assert(b@.skip(i as int).skip(1) =~= b@.skip(i + 1));
        i = i + 1;
    }
    let start = i;
    let ghost t = b@.skip(start as int);
    assert(strip_sign(trim_spaces(b@)) == (neg, t));
    if i == n {
        return None;
    }
    // Values past 999 are only tracked as "too large".
    let mut value: u32 = 0;
    while i < n
        invariant
            n == b@.len(),
            b@ == s.spec_bytes(),
            start < n,
            start <= i <= n,
            t == b@.skip(start as int),
            strip_sign(trim_spaces(b@)) == (neg, t),
            all_digits(b@.subrange(start as int, i as int), 10),
            digits_value(b@.subrange(start as int, i as int), 10) >= 0,
            value < 1000 ==> value == digits_value(b@.subrange(start as int, i as int), 10),
            value >= 1000 ==> digits_value(b@.subrange(start as int, i as int), 10) >= 1000,
            value < 10000,
        decreases n - i,
    {
        let d = digit_of(b[i]);
        if d >= 10 {
            assert(t[i - start] == b@[i as int]);
            assert(!all_digits(t, 10));
            return None;
        }
        let ghost pre = b@.subrange(start as int, i as int);
        let ghost next = b@.subrange(start as int, i + 1);
        assert(next.drop_last() =~= pre);
        assert(all_digits(next, 10)) by {
            assert forall|k: int| 0 <= k < next.len() implies #[trigger] digit_value(next[k])
                < 10 by {
                if k < pre.len() {
                    assert(next[k] == pre[k]);
                }
            }
        }
        proof {
            lemma_digits_grow(pre, d as int);
        }
        if value < 1000 {
            value = value * 10 + d;
        }
        i = i + 1;
    }
    assert(b@.subrange(start as int, n as int) =~= t);
    if value >= 256 {
        if neg && value == 0 {
            Some(0)
        } else {
            None
        }
    } else if neg {
        if value == 0 {
            Some(0)
        } else {
            None
        }
    } else {
        Some(value as u8)
    }
}

/// One occurrence of the tools' options, in command-line order; values
/// stay raw strings, parsed when their turn comes.
#[derive(Debug, Clone, PartialEq, Eq)]
pub enum GpioOp {
    /// `-p <port>`: latch the port for later operations.
    Port(String),
    /// `-n <pin>`: latch the pin for later operations.
    Pin(String),
    /// `-r`: dump using the latched selection.
    Read,
    /// `-w <value>`: write to the latched selection.
    Write(String),
}

/// What a `-r` acts on: with no port latched everything (a latched pin
/// is ignored), with a port only the whole port, with both one pin.
#[derive(Debug, Clone, Copy, PartialEq, Eq, Structural)]
pub enum ReadScope {
    /// All pins on all ports.
    All,
    /// All pins on one port.
    Port(GpioPort),
    /// One pin.
    PortPin(GpioPort, GpioPin),
}

/// How a replay ended: nothing ran, everything succeeded (a bare
/// `-p`/`-n` counts as success), or an operation failed and stopped
/// the replay.
#[derive(Debug, Clone, Copy, PartialEq, Eq, Structural)]
pub enum ReplayOutcome {
    /// No operation was attempted.
    NoOps,
    /// Every operation succeeded.
    Completed,
    /// An operation failed and stopped the replay.
    Failed,
}

/// `"Error parameter <flag> shall be between 0 and <max>"`.
pub open spec fn range_message(flag: Seq<char>, max: nat) -> Seq<char> {
    "Error parameter "@ + flag + " shall be between 0 and "@ + decimal(max)
}

/// `"argument error: <name> (<code>)"`.
pub open spec fn argument_error_message(e: Error) -> Seq<char> {
    "argument error: "@ + e.spec_name() + " ("@ + signed_decimal(e.spec_code() as int) + ")"@
}

/// Build the range message for `flag` and `max`.
pub fn range_error(flag: &str, max: u8) -> (s: String)
    ensures
        s@ == range_message(flag@, max as nat),
{
    let mut s = String::from_str("Error parameter ");
    s.append(flag);
    s.append(" shall be between 0 and ");
    push_decimal(&mut s, max as u64);
    s
}

/// The shared body of the `-p`/`-n` cases: parse `raw` and accept it
/// when it indexes a table of `count` entries; otherwise the range
/// message for `flag` (whose bound is `count - 1`).
pub fn latch(raw: &str, count: u8, flag: &str) -> (r: Result<u8, String>)
    requires
        count >= 1,
    ensures
        match parse_u8_value(encode_utf8(raw@)) {
            Some(v) => v < count ==> r == Ok::<u8, String>(v),
            None => true,
        },
        r is Err <==> !(parse_u8_value(encode_utf8(raw@)) matches Some(v) && v < count),
        r matches Err(m) ==> m@ == range_message(flag@, (count - 1) as nat),
{
    match parse_u8(raw) {
        Some(v) => {
            if v < count {
                Ok(v)
            } else {
                Err(range_error(flag, count - 1))
            }
        },
        None => Err(range_error(flag, count - 1)),
    }
}

/// Build `"argument error: <name> (<code>)"` for `e`.
pub fn argument_error(e: &Error) -> (s: String)
    ensures
        s@ == argument_error_message(*e),
{
    let mut s = String::from_str("argument error: ");
    s.append(e.name());
    s.append(" (");
    push_signed(&mut s, e.code() as i64);
    s.append(")");
    s
}

/// The shared tail of the `-r`/`-w` cases: a success marks progress;
/// a failure yields the `argument error` line and stops the replay.
pub fn run_operation(result: Result<(), Error>, outcome: &mut ReplayOutcome) -> (msg: Option<
    String,
>)
    ensures
        result is Ok ==> msg is None && *final(outcome) == ReplayOutcome::Completed,
        result matches Err(e) ==> *final(outcome) == *old(outcome) && (msg matches Some(m) && m@
            == argument_error_message(e)),
{
    match result {
        Ok(()) => {
            *outcome = ReplayOutcome::Completed;
            None
        },
        Err(e) => Some(argument_error(&e)),
    }
}

/// What the caller does next in a replay.
#[derive(Debug, PartialEq, Eq)]
pub enum GpioStep {
    /// Go on with the next option.
    Continue,
    /// Dump the scope, then report the result with
    /// [`GpioReplay::finish_operation`].
    Read(ReadScope),
    /// Write the value to the pin, then report the result with
    /// [`GpioReplay::finish_operation`].
    Write(GpioPort, GpioPin, u8),
    /// The replay has stopped with [`ReplayOutcome::Failed`]; print the
    /// message if there is one.
    Stop(Option<String>),
}

/// The replay state: the latched port and pin, and the outcome so far.
#[derive(Debug)]
pub struct GpioReplay {
    /// The port set by the last `-p`.
    pub port: Option<GpioPort>,
    /// The pin set by the last `-n`.
    pub pin: Option<GpioPin>,
    /// The outcome if the replay ended here.
    pub outcome: ReplayOutcome,
}

/// `after` is `before` stopped: the latches kept, the outcome
/// [`ReplayOutcome::Failed`].
pub open spec fn stopped(before: GpioReplay, after: GpioReplay) -> bool {
    &&& after.port == before.port
    &&& after.pin == before.pin
    &&& after.outcome == ReplayOutcome::Failed
}

/// The scope a `-r` reads with the given latches.
pub open spec fn read_scope(port: Option<GpioPort>, pin: Option<GpioPin>) -> ReadScope {
    match (port, pin) {
        (None, _) => ReadScope::All,
        (Some(p), None) => ReadScope::Port(p),
        (Some(p), Some(n)) => ReadScope::PortPin(p, n),
    }
}

impl GpioReplay {
    /// A replay before its first option.
    pub fn new() -> (r: Self)
        ensures
            r.port is None,
            r.pin is None,
            r.outcome == ReplayOutcome::NoOps,
    {
        GpioReplay { port: None, pin: None, outcome: ReplayOutcome::NoOps }
    }

    /// One option. `-p`/`-n` latch a valid number (and count as
    /// success) or stop with the range message; `-r` reads the latched
    /// scope; `-w` writes a parsed value to the latched pin, stops
    /// silently on an unparseable value, and stops with a message when
    /// no port and pin are latched.
    pub fn step(&mut self, op: &GpioOp) -> (s: GpioStep)
        ensures
            match *op {
                GpioOp::Port(raw) => match parse_u8_value(encode_utf8(raw@)) {
                    Some(v) if v < 8 => {
                        &&& s == GpioStep::Continue
                        &&& (final(self).port matches Some(p) && p.code() == v)
                        &&& final(self).pin == old(self).pin
                        &&& final(self).outcome == ReplayOutcome::Completed
                    },
                    _ => s matches GpioStep::Stop(Some(m)) && m@ == range_message("-p"@, 7)
                        && stopped(*old(self), *final(self)),
                },
                GpioOp::Pin(raw) => match parse_u8_value(encode_utf8(raw@)) {
                    Some(v) if v < 32 => {
                        &&& s == GpioStep::Continue
                        &&& (final(self).pin matches Some(p) && p.code() == v)
                        &&& final(self).port == old(self).port
                        &&& final(self).outcome == ReplayOutcome::Completed
                    },
                    _ => s matches GpioStep::Stop(Some(m)) && m@ == range_message("-n"@, 31)
                        && stopped(*old(self), *final(self)),
                },
                GpioOp::Read => s == GpioStep::Read(read_scope(old(self).port, old(self).pin))
                    && *final(self) == *old(self),
                GpioOp::Write(raw) => match (
                    parse_u8_value(encode_utf8(raw@)),
                    old(self).port,
                    old(self).pin,
                ) {
                    (Some(v), Some(p), Some(n)) => s == GpioStep::Write(p, n, v) && *final(self)
                        == *old(self),
                    (None, _, _) => s == GpioStep::Stop(None) && stopped(*old(self), *final(self)),
                    _ => s matches GpioStep::Stop(Some(m)) && m@ == "error: -w requires -p and -n"@
                        && stopped(*old(self), *final(self)),
                },
            },
            step_of(*old(self), *op) == (*final(self), without_message(s)),
    {
        match op {
            GpioOp::Port(raw) => match latch(raw.as_str(), 8, "-p") {
                Ok(v) => {
                    self.port = GpioPort::from_u8(v);
                    proof {
                        lemma_port_of(self.port->Some_0);
                    }
                    self.outcome = ReplayOutcome::Completed;
                    GpioStep::Continue
                },
                Err(m) => {
                    proof {
                        reveal_strlit("-p");
                    }
                    self.outcome = ReplayOutcome::Failed;
                    GpioStep::Stop(Some(m))
                },
            },
            GpioOp::Pin(raw) => match latch(raw.as_str(), 32, "-n") {
                Ok(v) => {
                    self.pin = GpioPin::from_u8(v);
                    proof {
                        lemma_pin_of(self.pin->Some_0);
                    }
                    self.outcome = ReplayOutcome::Completed;
                    GpioStep::Continue
                },
                Err(m) => {
                    proof {
                        reveal_strlit("-n");
                    }
                    self.outcome = ReplayOutcome::Failed;
                    GpioStep::Stop(Some(m))
                },
            },
            GpioOp::Read => {
                let scope = match (self.port, self.pin) {
                    (None, _) => ReadScope::All,
                    (Some(p), None) => ReadScope::Port(p),
                    (Some(p), Some(n)) => ReadScope::PortPin(p, n),
                };
                GpioStep::Read(scope)
            },
            GpioOp::Write(raw) => match (parse_u8(raw.as_str()), self.port, self.pin) {
                (Some(v), Some(p), Some(n)) => GpioStep::Write(p, n, v),
                (None, _, _) => {
                    self.outcome = ReplayOutcome::Failed;
                    GpioStep::Stop(None)
                },
                _ => {
                    self.outcome = ReplayOutcome::Failed;
                    GpioStep::Stop(Some(String::from_str("error: -w requires -p and -n")))
                },
            },
        }
    }

    /// Report the result of the operation the last step asked for: a
    /// success marks progress, a failure yields the `argument error`
    /// line and the replay stops with [`ReplayOutcome::Failed`].
    pub fn finish_operation(&mut self, result: Result<(), Error>) -> (msg: Option<String>)
        ensures
            final(self).port == old(self).port,
            final(self).pin == old(self).pin,
            result is Ok ==> msg is None && final(self).outcome == ReplayOutcome::Completed,
            result matches Err(e) ==> final(self).outcome == ReplayOutcome::Failed && (msg matches Some(
                m,
            ) && m@ == argument_error_message(e)),
            *final(self) == finish_of(*old(self), result is Ok),
    {
        let msg = run_operation(result, &mut self.outcome);
        if msg.is_some() {
            self.outcome = ReplayOutcome::Failed;
        }
        msg
    }
}

/// The port numbered `v` (numbers above 7 give port 7).
pub open spec fn port_of(v: u8) -> GpioPort {
    match v {
        0u8 => GpioPort::Port0,
        1u8 => GpioPort::Port1,
        2u8 => GpioPort::Port2,
        3u8 => GpioPort::Port3,
        4u8 => GpioPort::Port4,
        5u8 => GpioPort::Port5,
        6u8 => GpioPort::Port6,
        _ => GpioPort::Port7,
    }
}

/// The pin numbered `v` (numbers above 31 give pin 31).
pub open spec fn pin_of(v: u8) -> GpioPin {
    match v {
        0u8 => GpioPin::Pin0,
        1u8 => GpioPin::Pin1,
        2u8 => GpioPin::Pin2,
        3u8 => GpioPin::Pin3,
        4u8 => GpioPin::Pin4,
        5u8 => GpioPin::Pin5,
        6u8 => GpioPin::Pin6,
        7u8 => GpioPin::Pin7,
        8u8 => GpioPin::Pin8,
        9u8 => GpioPin::Pin9,
        10u8 => GpioPin::Pin10,
        11u8 => GpioPin::Pin11,
        12u8 => GpioPin::Pin12,
        13u8 => GpioPin::Pin13,
        14u8 => GpioPin::Pin14,
        15u8 => GpioPin::Pin15,
        16u8 => GpioPin::Pin16,
        17u8 => GpioPin::Pin17,
        18u8 => GpioPin::Pin18,
        19u8 => GpioPin::Pin19,
        20u8 => GpioPin::Pin20,
        21u8 => GpioPin::Pin21,
        22u8 => GpioPin::Pin22,
        23u8 => GpioPin::Pin23,
        24u8 => GpioPin::Pin24,
        25u8 => GpioPin::Pin25,
        26u8 => GpioPin::Pin26,
        27u8 => GpioPin::Pin27,
        28u8 => GpioPin::Pin28,
        29u8 => GpioPin::Pin29,
        30u8 => GpioPin::Pin30,
        _ => GpioPin::Pin31,
    }
}

proof fn lemma_port_of(p: GpioPort)
    ensures
        port_of(p.code()) == p,
{
}

proof fn lemma_pin_of(p: GpioPin)
    ensures
        pin_of(p.code()) == p,
{
}

/// `s` with a stop's message left out.
pub open spec fn without_message(s: GpioStep) -> GpioStep {
    match s {
        GpioStep::Stop(_) => GpioStep::Stop(None),
        _ => s,
    }
}

/// The replay state before the first option.
pub open spec fn fresh_replay() -> GpioReplay {
    GpioReplay { port: None, pin: None, outcome: ReplayOutcome::NoOps }
}

/// What [`GpioReplay::step`] does in state `r` for `op`: the next state
/// and the step (a stop's message left out).
pub open spec fn step_of(r: GpioReplay, op: GpioOp) -> (GpioReplay, GpioStep) {
    let stop = (
        GpioReplay { port: r.port, pin: r.pin, outcome: ReplayOutcome::Failed },
        GpioStep::Stop(None),
    );
    match op {
        GpioOp::Port(raw) => match parse_u8_value(encode_utf8(raw@)) {
            Some(v) => if v < 8 {
                (
                    GpioReplay { port: Some(port_of(v)), pin: r.pin, outcome: ReplayOutcome::Completed },
                    GpioStep::Continue,
                )
            } else {
                stop
            },
            None => stop,
        },
        GpioOp::Pin(raw) => match parse_u8_value(encode_utf8(raw@)) {
            Some(v) => if v < 32 {
                (
                    GpioReplay { port: r.port, pin: Some(pin_of(v)), outcome: ReplayOutcome::Completed },
                    GpioStep::Continue,
                )
            } else {
                stop
            },
            None => stop,
        },
        GpioOp::Read => (r, GpioStep::Read(read_scope(r.port, r.pin))),
        GpioOp::Write(raw) => match (parse_u8_value(encode_utf8(raw@)), r.port, r.pin) {
            (Some(v), Some(p), Some(n)) => (r, GpioStep::Write(p, n, v)),
            _ => stop,
        },
    }
}

/// What [`GpioReplay::finish_operation`] does in state `r` when the
/// operation succeeded (`ok`) or failed.
pub open spec fn finish_of(r: GpioReplay, ok: bool) -> GpioReplay {
    GpioReplay {
        port: r.port,
        pin: r.pin,
        outcome: if ok {
            ReplayOutcome::Completed
        } else {
            ReplayOutcome::Failed
        },
    }
}

/// Whether the `k`-th device operation succeeded: `oks[k]`, a missing
/// result counting as a failure.
pub open spec fn ok_at(oks: Seq<bool>, k: int) -> bool {
    0 <= k < oks.len() && oks[k]
}

/// A whole replay of `ops` from state `r`, where the device operations
/// return `oks` in turn: the final state and the device operations
/// asked for (reads and writes), in order. The replay stops at a
/// stopping option or at the first failed operation.
pub open spec fn replay_run(r: GpioReplay, ops: Seq<GpioOp>, oks: Seq<bool>) -> (
    GpioReplay,
    Seq<GpioStep>,
)
    decreases ops.len(),
{
    if ops.len() == 0 {
        (r, Seq::empty())
    } else {
        let (r1, s) = step_of(r, ops[0]);
        match s {
            GpioStep::Continue => replay_run(r1, ops.skip(1), oks),
            GpioStep::Stop(_) => (r1, Seq::empty()),
            _ => {
                let ok = ok_at(oks, 0);
                if ok {
                    let (f, acts) = replay_run(finish_of(r1, true), ops.skip(1), oks.skip(1));
                    (f, seq![s] + acts)
                } else {
                    (finish_of(r1, false), seq![s])
                }
            },
        }
    }
}

/// How many `-r`/`-w` options `ops` holds.
pub open spec fn op_count(ops: Seq<GpioOp>) -> nat
    decreases ops.len(),
{
    if ops.len() == 0 {
        0
    } else {
        (if ops[0] is Read || ops[0] is Write {
            1nat
        } else {
            0nat
        }) + op_count(ops.skip(1))
    }
}

/// Whether `op` is a `-p` that latches a port.
pub open spec fn latches_port(op: GpioOp) -> bool {
    match op {
        GpioOp::Port(raw) => match parse_u8_value(encode_utf8(raw@)) {
            Some(v) => v < 8,
            None => false,
        },
        _ => false,
    }
}

/// Whether `op` is a `-n` that latches a pin.
pub open spec fn latches_pin(op: GpioOp) -> bool {
    match op {
        GpioOp::Pin(raw) => match parse_u8_value(encode_utf8(raw@)) {
            Some(v) => v < 32,
            None => false,
        },
        _ => false,
    }
}

/// Whether `acts` holds a write.
pub open spec fn has_write(acts: Seq<GpioStep>) -> bool {
    exists|k: int| 0 <= k < acts.len() && #[trigger] acts[k] is Write
}

proof fn lemma_replay_run_from(r: GpioReplay, ops: Seq<GpioOp>, oks: Seq<bool>)
    requires
        r.outcome != ReplayOutcome::Failed,
    ensures
        ({
            let (f, acts) = replay_run(r, ops, oks);
            &&& ops.len() == 0 ==> f == r && acts.len() == 0
            &&& ops.len() > 0 ==> f.outcome != ReplayOutcome::NoOps
            &&& forall|k: int| 0 <= k < acts.len() - 1 ==> ok_at(oks, k)
            &&& forall|k: int| 0 <= k < acts.len() ==> (#[trigger] acts[k] is Read || acts[k] is Write)
            &&& f.outcome == ReplayOutcome::Completed ==> acts.len() == op_count(ops) && forall|k: int|
                0 <= k < acts.len() ==> ok_at(oks, k)
            &&& r.port is None && (forall|j: int| 0 <= j < ops.len() ==> !latches_port(#[trigger] ops[j]))
                ==> !has_write(acts)
            &&& r.pin is None && (forall|j: int| 0 <= j < ops.len() ==> !latches_pin(#[trigger] ops[j]))
                ==> !has_write(acts)
        }),
    decreases ops.len(),
{
    if ops.len() > 0 {
        let (r1, s) = step_of(r, ops[0]);
        let rest = ops.skip(1);
        assert(forall|j: int| 0 <= j < rest.len() ==> rest[j] == ops[j + 1]);
        match s {
            GpioStep::Continue => {
                lemma_replay_run_from(r1, rest, oks);
                if r.port is None && (forall|j: int| 0 <= j < ops.len() ==> !latches_port(#[trigger] ops[j])) {
                    assert(!latches_port(ops[0]));
                    assert(forall|j: int| 0 <= j < rest.len() ==> !latches_port(#[trigger] rest[j])) by {
                        assert forall|j: int| 0 <= j < rest.len() implies !latches_port(#[trigger] rest[j]) by {
                            assert(!latches_port(ops[j + 1]));
                        }
                    }
                }
                if r.pin is None && (forall|j: int| 0 <= j < ops.len() ==> !latches_pin(#[trigger] ops[j])) {
                    assert(!latches_pin(ops[0]));
                    assert(forall|j: int| 0 <= j < rest.len() ==> !latches_pin(#[trigger] rest[j])) by {
                        assert forall|j: int| 0 <= j < rest.len() implies !latches_pin(#[trigger] rest[j]) by {
                            assert(!latches_pin(ops[j + 1]));
                        }
                    }
                }
            },
            GpioStep::Stop(_) => {},
            _ => {
                if ok_at(oks, 0) {
                    let r2 = finish_of(r1, true);
                    let orest = oks.skip(1);
                    lemma_replay_run_from(r2, rest, orest);
                    let (f, acts) = replay_run(r2, rest, orest);
                    let all = seq![s] + acts;
                    assert(forall|k: int| 0 <= k < acts.len() ==> all[k + 1] == acts[k]);
                    assert(forall|k: int| 0 <= k < orest.len() ==> orest[k] == oks[k + 1]);
                    assert forall|k: int| 0 <= k < all.len() - 1 implies ok_at(oks, k) by {
                        if k > 0 {
                            assert(ok_at(orest, k - 1));
                        }
                    }
                    assert forall|k: int| 0 <= k < all.len() implies (#[trigger] all[k] is Read
                        || all[k] is Write) by {
                        if k > 0 {
                            assert(all[k] == acts[k - 1]);
                        }
                    }
                    if f.outcome == ReplayOutcome::Completed {
                        assert forall|k: int| 0 <= k < all.len() implies ok_at(oks, k) by {
                            if k > 0 {
                                assert(ok_at(orest, k - 1));
                            }
                        }
                    }
                    if r.port is None && (forall|j: int| 0 <= j < ops.len() ==> !latches_port(#[trigger] ops[j])) {
                        assert(s is Read);
                        assert(forall|j: int| 0 <= j < rest.len() ==> !latches_port(#[trigger] rest[j])) by {
                            assert forall|j: int| 0 <= j < rest.len() implies !latches_port(#[trigger] rest[j]) by {
                                assert(!latches_port(ops[j + 1]));
                            }
                        }
                        assert(!has_write(all)) by {
                            if has_write(all) {
                                let k = choose|k: int| 0 <= k < all.len() && #[trigger] all[k] is Write;
                                assert(k > 0);
                                assert(acts[k - 1] is Write);
                            }
                        }
                    }
                    if r.pin is None && (forall|j: int| 0 <= j < ops.len() ==> !latches_pin(#[trigger] ops[j])) {
                        assert(s is Read);
                        assert(forall|j: int| 0 <= j < rest.len() ==> !latches_pin(#[trigger] rest[j])) by {
                            assert forall|j: int| 0 <= j < rest.len() implies !latches_pin(#[trigger] rest[j]) by {
                                assert(!latches_pin(ops[j + 1]));
                            }
                        }
                        assert(!has_write(all)) by {
                            if has_write(all) {
                                let k = choose|k: int| 0 <= k < all.len() && #[trigger] all[k] is Write;
                                assert(k > 0);
                                assert(acts[k - 1] is Write);
                            }
                        }
                    }
                } else {
                    let all = seq![s];
                    assert(all[0] == s);
                    if r.port is None || r.pin is None {
                        assert(s is Read);
                        assert(!has_write(all));
                    }
                }
            },
        }
    }
}

/// Whether a `-p` before option `j` of `ops` latched a port (or one
/// was latched before `ops`: `port0`).
pub open spec fn port_latched_before(ops: Seq<GpioOp>, j: int, port0: bool) -> bool {
    port0 || exists|i: int| 0 <= i < j && #[trigger] latches_port(ops[i])
}

/// Whether a `-n` before option `j` of `ops` latched a pin (or one was
/// latched before `ops`: `pin0`).
pub open spec fn pin_latched_before(ops: Seq<GpioOp>, j: int, pin0: bool) -> bool {
    pin0 || exists|i: int| 0 <= i < j && #[trigger] latches_pin(ops[i])
}

/// Whether option `j` of `ops` is refused when reached: a `-p` or `-n`
/// out of range or unparseable, or a `-w` whose value does not parse or
/// that comes before a port and a pin were latched.
pub open spec fn rejects(ops: Seq<GpioOp>, j: int, port0: bool, pin0: bool) -> bool {
    match ops[j] {
        GpioOp::Port(_) => !latches_port(ops[j]),
        GpioOp::Pin(_) => !latches_pin(ops[j]),
        GpioOp::Read => false,
        GpioOp::Write(raw) => parse_u8_value(encode_utf8(raw@)) is None || !port_latched_before(
            ops,
            j,
            port0,
        ) || !pin_latched_before(ops, j, pin0),
    }
}

/// Whether some option of `ops` is refused.
pub open spec fn some_option_rejected(ops: Seq<GpioOp>, port0: bool, pin0: bool) -> bool {
    exists|j: int| 0 <= j < ops.len() && #[trigger] rejects(ops, j, port0, pin0)
}

/// Whether one of the device operations `acts` failed.
pub open spec fn some_operation_failed(acts: Seq<GpioStep>, oks: Seq<bool>) -> bool {
    exists|k: int| 0 <= k < acts.len() && !#[trigger] ok_at(oks, k)
}

proof fn lemma_rejects_shift(ops: Seq<GpioOp>, j: int, p0: bool, n0: bool)
    requires
        1 <= j < ops.len(),
    ensures
        rejects(ops, j, p0, n0) == rejects(
            ops.skip(1),
            j - 1,
            p0 || latches_port(ops[0]),
            n0 || latches_pin(ops[0]),
        ),
{
    let rest = ops.skip(1);
    let p1 = p0 || latches_port(ops[0]);
    let n1 = n0 || latches_pin(ops[0]);
    assert(rest[j - 1] == ops[j]);
    if port_latched_before(ops, j, p0) {
        if !p0 {
            let i = choose|i: int| 0 <= i < j && #[trigger] latches_port(ops[i]);
            if i > 0 {
                assert(rest[i - 1] == ops[i]);
                assert(latches_port(rest[i - 1]));
            }
        }
        assert(port_latched_before(rest, j - 1, p1));
    }
    if port_latched_before(rest, j - 1, p1) {
        if !p1 {
            let i = choose|i: int| 0 <= i < j - 1 && #[trigger] latches_port(rest[i]);
            assert(rest[i] == ops[i + 1]);
            assert(latches_port(ops[i + 1]));
        } else if !p0 {
            assert(latches_port(ops[0]));
        }
        assert(port_latched_before(ops, j, p0));
    }
    if pin_latched_before(ops, j, n0) {
        if !n0 {
            let i = choose|i: int| 0 <= i < j && #[trigger] latches_pin(ops[i]);
            if i > 0 {
                assert(rest[i - 1] == ops[i]);
                assert(latches_pin(rest[i - 1]));
            }
        }
        assert(pin_latched_before(rest, j - 1, n1));
    }
    if pin_latched_before(rest, j - 1, n1) {
        if !n1 {
            let i = choose|i: int| 0 <= i < j - 1 && #[trigger] latches_pin(rest[i]);
            assert(rest[i] == ops[i + 1]);
            assert(latches_pin(ops[i + 1]));
        } else if !n0 {
            assert(latches_pin(ops[0]));
        }
        assert(pin_latched_before(ops, j, n0));
    }
}

proof fn lemma_rejected_shift(ops: Seq<GpioOp>, p0: bool, n0: bool)
    requires
        ops.len() > 0,
        !rejects(ops, 0, p0, n0),
    ensures
        some_option_rejected(ops, p0, n0) == some_option_rejected(
            ops.skip(1),
            p0 || latches_port(ops[0]),
            n0 || latches_pin(ops[0]),
        ),
{
    let rest = ops.skip(1);
    let p1 = p0 || latches_port(ops[0]);
    let n1 = n0 || latches_pin(ops[0]);
    if some_option_rejected(ops, p0, n0) {
        let j = choose|j: int| 0 <= j < ops.len() && #[trigger] rejects(ops, j, p0, n0);
        assert(j >= 1);
        lemma_rejects_shift(ops, j, p0, n0);
        assert(rejects(rest, j - 1, p1, n1));
    }
    if some_option_rejected(rest, p1, n1) {
        let j = choose|j: int| 0 <= j < rest.len() && #[trigger] rejects(rest, j, p1, n1);
        lemma_rejects_shift(ops, j + 1, p0, n0);
        assert(rejects(ops, j + 1, p0, n0));
    }
}

proof fn lemma_replay_fails_from(r: GpioReplay, ops: Seq<GpioOp>, oks: Seq<bool>)
    requires
        r.outcome != ReplayOutcome::Failed,
    ensures
        ({
            let (f, acts) = replay_run(r, ops, oks);
            f.outcome == ReplayOutcome::Failed <==> some_option_rejected(
                ops,
                r.port is Some,
                r.pin is Some,
            ) || some_operation_failed(acts, oks)
        }),
    decreases ops.len(),
{
    let p0 = r.port is Some;
    let n0 = r.pin is Some;
    if ops.len() == 0 {
        let (f, acts) = replay_run(r, ops, oks);
        assert(acts.len() == 0);
    } else {
        let (r1, s) = step_of(r, ops[0]);
        let rest = ops.skip(1);
        assert(!port_latched_before(ops, 0, false));
        assert(!pin_latched_before(ops, 0, false));
        match s {
            GpioStep::Stop(_) => {
                assert(rejects(ops, 0, p0, n0));
            },
            GpioStep::Continue => {
                assert(!rejects(ops, 0, p0, n0));
                lemma_rejected_shift(ops, p0, n0);
                assert((r1.port is Some) == (p0 || latches_port(ops[0])));
                assert((r1.pin is Some) == (n0 || latches_pin(ops[0])));
                lemma_replay_fails_from(r1, rest, oks);
            },
            _ => {
                assert(!rejects(ops, 0, p0, n0));
                assert(!latches_port(ops[0]) && !latches_pin(ops[0]));
                if ok_at(oks, 0) {
                    let r2 = finish_of(r1, true);
                    let orest = oks.skip(1);
                    lemma_rejected_shift(ops, p0, n0);
                    lemma_replay_fails_from(r2, rest, orest);
                    let (f, acts) = replay_run(r2, rest, orest);
                    let all = seq![s] + acts;
                    if some_operation_failed(all, oks) {
                        let k = choose|k: int| 0 <= k < all.len() && !#[trigger] ok_at(oks, k);
                        assert(k >= 1);
                        assert(!ok_at(orest, k - 1));
                        assert(some_operation_failed(acts, orest));
                    }
                    if some_operation_failed(acts, orest) {
                        let k = choose|k: int| 0 <= k < acts.len() && !#[trigger] ok_at(orest, k);
                        assert(!ok_at(oks, k + 1));
                        assert(some_operation_failed(all, oks));
                    }
                } else {
                    let all = seq![s];
                    assert(!ok_at(oks, 0));
                    assert(some_operation_failed(all, oks));
                }
            },
        }
    }
}

/// A whole replay from the start, the device operations returning
/// `oks` in turn: the outcome is `NoOps` exactly when there are no
/// options, and `Failed` exactly when some option is refused or some
/// device operation failed; the device is asked for nothing after a
/// failed operation; a `Completed` replay ran every `-r`/`-w`, each
/// successfully; and no write is asked for unless some `-p` latched a
/// port and some `-n` latched a pin.
pub proof fn lemma_replay_run(ops: Seq<GpioOp>, oks: Seq<bool>)
    ensures
        ({
            let (f, acts) = replay_run(fresh_replay(), ops, oks);
            &&& f.outcome == ReplayOutcome::NoOps <==> ops.len() == 0
            &&& forall|k: int| 0 <= k < acts.len() - 1 ==> ok_at(oks, k)
            &&& forall|k: int| 0 <= k < acts.len() ==> (#[trigger] acts[k] is Read || acts[k] is Write)
            &&& f.outcome == ReplayOutcome::Completed ==> acts.len() == op_count(ops) && forall|k: int|
                0 <= k < acts.len() ==> ok_at(oks, k)
            &&& has_write(acts) ==> (exists|j: int| 0 <= j < ops.len() && latches_port(#[trigger] ops[j]))
                && (exists|j: int| 0 <= j < ops.len() && latches_pin(#[trigger] ops[j]))
            &&& f.outcome == ReplayOutcome::Failed <==> some_option_rejected(ops, false, false)
                || some_operation_failed(acts, oks)
        }),
{
    lemma_replay_run_from(fresh_replay(), ops, oks);
    lemma_replay_fails_from(fresh_replay(), ops, oks);
}

/// The walk of a dump: one pin, all 32 pins of a port (the result is
/// the last pin's), or every port in turn, stopping after a port whose
/// last pin failed.
#[derive(Debug)]
pub struct DumpWalk {
    /// What is being dumped.
    pub scope: ReadScope,
    /// How many pins have been visited.
    pub visited: u16,
    /// Whether the walk is over.
    pub finished: bool,
    /// The result of the last visited pin.
    pub last_ok: bool,
}

/// The `k`-th pin a dump of `scope` visits.
pub open spec fn dump_target(scope: ReadScope, k: int) -> (GpioPort, GpioPin) {
    match scope {
        ReadScope::PortPin(p, n) => (p, n),
        ReadScope::Port(p) => (p, GPIO_PINS@[k % 32]),
        ReadScope::All => (GPIO_PORTS@[k / 32], GPIO_PINS@[k % 32]),
    }
}

impl DumpWalk {
    /// Whether the walk state is consistent with its scope.
    pub open spec fn wf(&self) -> bool {
        &&& self.visited <= 256
        &&& (self.scope is PortPin ==> self.visited <= 1)
        &&& (self.scope is Port ==> self.visited <= 32)
        &&& (!self.finished ==> match self.scope {
            ReadScope::PortPin(_, _) => self.visited == 0,
            ReadScope::Port(_) => self.visited < 32,
            ReadScope::All => self.visited < 256,
        })
    }

    /// A walk over `scope` that has visited nothing.
    pub fn start(scope: ReadScope) -> (w: Self)
        ensures
            w.wf(),
            w.scope == scope,
            w.visited == 0,
            !w.finished,
            w.last_ok,
    {
        DumpWalk { scope, visited: 0, finished: false, last_ok: true }
    }

    /// The pin to visit next, or `None` once the walk is over.
    pub fn current(&self) -> (t: Option<(GpioPort, GpioPin)>)
        requires
            self.wf(),
        ensures
            self.finished ==> t is None,
            !self.finished ==> t == Some(dump_target(self.scope, self.visited as int)),
    {
        if self.finished {
            return None;
        }
        let k = self.visited as usize;
        match self.scope {
            ReadScope::PortPin(p, n) => Some((p, n)),
            ReadScope::Port(p) => Some((p, GPIO_PINS[k % 32])),
            ReadScope::All => {
                if k >= 256 {
                    None
                } else {
                    Some((GPIO_PORTS[k / 32], GPIO_PINS[k % 32]))
                }
            },
        }
    }

    /// Record the result of the current pin and move on.
    pub fn advance(&mut self, ok: bool)
        requires
            old(self).wf(),
            !old(self).finished,
        ensures
            final(self).wf(),
            final(self).scope == old(self).scope,
            final(self).visited == old(self).visited + 1,
            final(self).last_ok == ok,
            final(self).finished == match old(self).scope {
                ReadScope::PortPin(_, _) => true,
                ReadScope::Port(_) => final(self).visited == 32,
                ReadScope::All => final(self).visited % 32 == 0 && (!ok || final(self).visited
                    == 256),
            },
    {
        self.visited = self.visited + 1;
        self.last_ok = ok;
        self.finished = match self.scope {
            ReadScope::PortPin(_, _) => true,
            ReadScope::Port(_) => self.visited == 32,
            ReadScope::All => self.visited % 32 == 0 && (!ok || self.visited == 256),
        };
    }
}

/// A dump visits the pins of its scope: a single-pin dump that pin; the
/// `k`-th visit of a port dump pin `k` of that port; the `k`-th visit
/// of a full dump pin `k % 32` of port `k / 32`.
pub proof fn lemma_dump_targets(scope: ReadScope, k: int)
    ensures
        scope matches ReadScope::PortPin(p, n) ==> dump_target(scope, k) == (p, n),
        scope matches ReadScope::Port(p) ==> (0 <= k < 32 ==> dump_target(scope, k).0 == p
            && dump_target(scope, k).1.code() == k),
        scope is All ==> (0 <= k < 256 ==> dump_target(scope, k).0.code() == k / 32
            && dump_target(scope, k).1.code() == k % 32),
{
    assert(GPIO_PINS@.len() == 32);
    assert(forall|i: int| 0 <= i < 32 ==> (#[trigger] GPIO_PINS@[i]).code() == i);
    assert(forall|i: int| 0 <= i < 8 ==> (#[trigger] GPIO_PORTS@[i]).code() == i);
}

} // verus!
