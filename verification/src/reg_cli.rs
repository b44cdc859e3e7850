//! The engine of the si5351c and R820T register tools: the
//! order-sensitive replay of `-n`/`-r`/`-w`/`-c` as a state machine,
//! the stop-at-first-failure register dump, and the si5351c multisynth
//! parameter decoding.
use crate::gpio_cli::{parse_u8, parse_u8_value, range_error, range_message, ReplayOutcome};
use vstd::prelude::*;
use vstd::utf8::encode_utf8;

verus! {

/// Per-tool differences between the two register tools.
#[derive(Debug, Clone, Copy, PartialEq, Eq, Structural)]
pub struct RegToolSpec {
    /// The highest register number the tool accepts.
    pub register_max: u8,
    /// Whether range failures print a message (the R820T tool does,
    /// the si5351c tool stops silently).
    pub print_messages: bool,
}

/// The R820T tool: registers 0..=31, messages printed.
#[allow(non_snake_case)]
pub fn R820T_SPEC() -> (s: RegToolSpec)
    ensures
        s.register_max == 31,
        s.print_messages,
{
    RegToolSpec { register_max: 31, print_messages: true }
}

/// The si5351c tool: every 8-bit register, silent failures.
#[allow(non_snake_case)]
pub fn SI5351C_SPEC() -> (s: RegToolSpec)
    ensures
        s.register_max == 255,
        !s.print_messages,
{
    RegToolSpec { register_max: 255, print_messages: false }
}

/// One occurrence of the tools' options, in command-line order.
#[derive(Debug, Clone, PartialEq, Eq)]
pub enum RegOp {
    /// `-n <register>`: latch the register for later operations.
    Register(String),
    /// `-r`: dump the latched register, or all registers.
    Read,
    /// `-w <value>`: write the latched register.
    Write(String),
    /// `-c`: the tool-specific configuration operation.
    Config,
}

/// What a `-r` acts on: every register until one is latched.
#[derive(Debug, Clone, Copy, PartialEq, Eq, Structural)]
pub enum RegReadScope {
    /// Every register up to the tool's maximum.
    All,
    /// One register.
    Single(u8),
}

/// What the caller does next in a replay.
#[derive(Debug, PartialEq, Eq)]
pub enum RegStep {
    /// Go on with the next option.
    Continue,
    /// Dump the scope, then report with [`RegReplay::finish_operation`].
    Read(RegReadScope),
    /// Write `(register, value)`, then report with
    /// [`RegReplay::finish_operation`].
    Write(u8, u8),
    /// Run the configuration operation, then report with
    /// [`RegReplay::finish_operation`].
    Config,
    /// The replay has stopped with [`ReplayOutcome::Failed`]; print the
    /// message if there is one.
    Stop(Option<String>),
}

/// The replay state of a register tool.
#[derive(Debug)]
pub struct RegReplay {
    /// The tool being replayed.
    pub spec: RegToolSpec,
    /// The register set by the last `-n`.
    pub register: Option<u8>,
    /// The outcome if the replay ended here.
    pub outcome: ReplayOutcome,
}

/// `after` is `before` stopped: the tool and latch kept, the outcome
/// [`ReplayOutcome::Failed`].
pub open spec fn reg_stopped(before: RegReplay, after: RegReplay) -> bool {
    &&& after.spec == before.spec
    &&& after.register == before.register
    &&& after.outcome == ReplayOutcome::Failed
}

impl RegReplay {
    /// A replay before its first option.
    pub fn new(spec: RegToolSpec) -> (r: Self)
        ensures
            r.spec == spec,
            r.register is None,
            r.outcome == ReplayOutcome::NoOps,
    {
        RegReplay { spec, register: None, outcome: ReplayOutcome::NoOps }
    }

    /// One option. `-n` latches a register within the tool's range
    /// (counting as success); `-r` reads the latched register or all;
    /// `-w` writes a parsed value to the latched register; `-c` runs
    /// the configuration. Range failures stop, with a message only for
    /// a tool that prints them; a `-w` with no latched register stops
    /// with its own message.
    pub fn step(&mut self, op: &RegOp) -> (s: RegStep)
        ensures
            final(self).spec == old(self).spec,
            match *op {
                RegOp::Register(raw) => match parse_u8_value(encode_utf8(raw@)) {
                    Some(v) if v <= old(self).spec.register_max => {
                        &&& s == RegStep::Continue
                        &&& final(self).register == Some(v)
                        &&& final(self).outcome == ReplayOutcome::Completed
                    },
                    _ => {
                        &&& reg_stopped(*old(self), *final(self))
                        &&& old(self).spec.print_messages ==> (s matches RegStep::Stop(Some(m))
                            && m@ == range_message("-n"@, old(self).spec.register_max as nat))
                        &&& !old(self).spec.print_messages ==> s == RegStep::Stop(None)
                    },
                },
                RegOp::Read => *final(self) == *old(self) && s == RegStep::Read(
                    match old(self).register {
                        None => RegReadScope::All,
                        Some(r) => RegReadScope::Single(r),
                    },
                ),
                RegOp::Write(raw) => match (
                    parse_u8_value(encode_utf8(raw@)),
                    old(self).register,
                ) {
                    (Some(v), Some(r)) => s == RegStep::Write(r, v) && *final(self) == *old(self),
                    (None, _) => {
                        &&& reg_stopped(*old(self), *final(self))
                        &&& old(self).spec.print_messages ==> (s matches RegStep::Stop(Some(m))
                            && m@ == range_message("-w"@, 255))
                        &&& !old(self).spec.print_messages ==> s == RegStep::Stop(None)
                    },
                    _ => s matches RegStep::Stop(Some(m)) && m@ == "error: -w requires -n"@
                        && reg_stopped(*old(self), *final(self)),
                },
                RegOp::Config => *final(self) == *old(self) && s == RegStep::Config,
            },
    {
        match op {
            RegOp::Register(raw) => {
                let parsed = parse_u8(raw.as_str());
                let max = self.spec.register_max;
                let accepted = match parsed {
                    Some(v) => v <= max,
                    None => false,
                };
                if accepted {
                    self.register = parsed;
                    self.outcome = ReplayOutcome::Completed;
                    RegStep::Continue
                } else if self.spec.print_messages {
                    proof {
                        reveal_strlit("-n");
                    }
                    self.outcome = ReplayOutcome::Failed;
                    RegStep::Stop(Some(range_error("-n", max)))
                } else {
                    self.outcome = ReplayOutcome::Failed;
                    RegStep::Stop(None)
                }
            },
            RegOp::Read => {
                let scope = match self.register {
                    None => RegReadScope::All,
                    Some(r) => RegReadScope::Single(r),
                };
                RegStep::Read(scope)
            },
            RegOp::Write(raw) => match (parse_u8(raw.as_str()), self.register) {
                (Some(v), Some(r)) => RegStep::Write(r, v),
                (None, _) => {
                    self.outcome = ReplayOutcome::Failed;
                    if self.spec.print_messages {
                        proof {
                            reveal_strlit("-w");
                        }
                        RegStep::Stop(Some(range_error("-w", 255)))
                    } else {
                        RegStep::Stop(None)
                    }
                },
                _ => {
                    self.outcome = ReplayOutcome::Failed;
                    RegStep::Stop(Some(String::from_str("error: -w requires -n")))
                },
            },
            RegOp::Config => RegStep::Config,
        }
    }

    /// Report the result of the operation the last step asked for: a
    /// success marks progress and the replay goes on (`true`); a
    /// failure stops it with [`ReplayOutcome::Failed`] (its helper has
    /// already printed why).
    pub fn finish_operation(&mut self, ok: bool) -> (go_on: bool)
        ensures
            go_on == ok,
            final(self).spec == old(self).spec,
            final(self).register == old(self).register,
            ok ==> final(self).outcome == ReplayOutcome::Completed,
            !ok ==> final(self).outcome == ReplayOutcome::Failed,
    {
        let go_on = run_operation(ok, &mut self.outcome);
        if !go_on {
            self.outcome = ReplayOutcome::Failed;
        }
        go_on
    }
}

/// The success/failure tail shared by the operation arms.
pub fn run_operation(ok: bool, outcome: &mut ReplayOutcome) -> (go_on: bool)
    ensures
        go_on == ok,
        ok ==> *final(outcome) == ReplayOutcome::Completed,
        !ok ==> *final(outcome) == *old(outcome),
{
    if ok {
        *outcome = ReplayOutcome::Completed;
    }
    ok
}

/// The walk of a full register dump: registers `0..=register_max` in
/// order, stopping at the first failed read.
#[derive(Debug)]
pub struct RegisterWalk {
    /// The last register to read.
    pub register_max: u8,
    /// The next register to read.
    pub next: u16,
    /// Whether a read failed.
    pub failed: bool,
}

impl RegisterWalk {
    /// A walk that has read nothing yet.
    pub fn start(register_max: u8) -> (w: Self)
        ensures
            w.register_max == register_max,
            w.next == 0,
            !w.failed,
    {
        RegisterWalk { register_max, next: 0, failed: false }
    }

    /// The register to read next, or `None` once the walk is over
    /// (all read, or one failed).
    pub fn current(&self) -> (r: Option<u8>)
        ensures
            r is Some <==> !self.failed && self.next <= self.register_max,
            r matches Some(v) ==> v == self.next,
    {
        if self.failed || self.next > self.register_max as u16 {
            None
        } else {
            Some(self.next as u8)
        }
    }

    /// Record the result of the current register's read.
    pub fn advance(&mut self, ok: bool)
        requires
            !old(self).failed,
            old(self).next <= old(self).register_max,
        ensures
            final(self).register_max == old(self).register_max,
            final(self).failed == !ok,
            ok ==> final(self).next == old(self).next + 1,
            !ok ==> final(self).next == old(self).next,
    {
        if ok {
            self.next = self.next + 1;
        } else {
            self.failed = true;
        }
    }

    /// The dump's result once over: success unless a read failed.
    pub fn succeeded(&self) -> (ok: bool)
        ensures
            ok == !self.failed,
    {
        !self.failed
    }
}

/// The output-divider power-of-two table.
pub const DIV_LUT: [u32; 8] = [1, 2, 4, 8, 16, 32, 64, 128];

/// The decoded multisynth parameters of one si5351c output.
#[derive(Debug, Clone, Copy, PartialEq, Eq, Structural)]
pub struct MsParams {
    /// The 18-bit `p1` field.
    pub p1: u32,
    /// The 20-bit `p2` field.
    pub p2: u32,
    /// The 20-bit `p3` field.
    pub p3: u32,
    /// The 3-bit output-divider index into [`DIV_LUT`].
    pub r_div: u32,
}

/// The multisynth bit layout over the eight parameter registers:
/// `p1` spans registers 2..5, `p2` the low nibble of 5 plus 6..8, `p3`
/// the high nibble of 5 plus 0..2, and `r_div` bits 4..6 of register 2.
pub open spec fn ms_params_of(p: Seq<u8>) -> MsParams {
    MsParams {
        p1: ((p[2] as u32 % 4) * 65536 + p[3] as u32 * 256 + p[4] as u32) as u32,
        p2: ((p[5] as u32 % 16) * 65536 + p[6] as u32 * 256 + p[7] as u32) as u32,
        p3: ((p[5] as u32 / 16) * 65536 + p[0] as u32 * 256 + p[1] as u32) as u32,
        r_div: ((p[2] as u32 / 16) % 8) as u32,
    }
}

/// Decode the multisynth parameters from the eight registers.
pub fn ms_params(parameters: &[u8; 8]) -> (m: MsParams)
    ensures
        m == ms_params_of(parameters@),
        m.p1 < 0x40000,
        m.p2 < 0x100000,
        m.p3 < 0x100000,
        m.r_div < 8,
{
    let p0 = parameters[0] as u32;
    let p1 = parameters[1] as u32;
    let p2 = parameters[2] as u32;
    let p3 = parameters[3] as u32;
    let p4 = parameters[4] as u32;
    let p5 = parameters[5] as u32;
    let p6 = parameters[6] as u32;
    let p7 = parameters[7] as u32;
    assert(((p2 & 0x03) << 16u32) | (p3 << 8u32) | p4 == (p2 % 4) * 65536 + p3 * 256 + p4)
        by (bit_vector)
        requires
            p2 < 256 && p3 < 256 && p4 < 256,
    ;
    assert(((p5 & 0x0F) << 16u32) | (p6 << 8u32) | p7 == (p5 % 16) * 65536 + p6 * 256 + p7)
        by (bit_vector)
        requires
            p5 < 256 && p6 < 256 && p7 < 256,
    ;
    assert(((p5 & 0xF0) << 12u32) | (p0 << 8u32) | p1 == (p5 / 16) * 65536 + p0 * 256 + p1)
        by (bit_vector)
        requires
            p5 < 256 && p0 < 256 && p1 < 256,
    ;
    assert((p2 >> 4u32) & 0x7 == (p2 / 16) % 8) by (bit_vector);
    MsParams {
        p1: ((p2 & 0x03) << 16) | (p3 << 8) | p4,
        p2: ((p5 & 0x0F) << 16) | (p6 << 8) | p7,
        p3: ((p5 & 0xF0) << 12) | (p0 << 8) | p1,
        r_div: (p2 >> 4) & 0x7,
    }
}

/// The first register of the R820T default configuration.
pub const CONF_R820T_START_REG: u8 = 5;

/// The R820T default ("test mode") values of registers 5 through 31.
pub const CONF_R820T: [u8; 27] = [
    0x12, 0x32, 0x75, 0xc0, 0x40, 0xd6, 0x6c, 0x40, 0x63, 0x75, 0x68, 0x6c, 0x83, 0x80, 0x00, 0x0f,
    0x00, 0xc0, 0x30, 0x48, 0xcc, 0x60, 0x00, 0x54, 0xae, 0x4a, 0xc0,
];

/// The R820T configuration as `(register, value)` writes, in order:
/// register `5 + i` gets entry `i` of [`CONF_R820T`].
pub fn r820t_config_writes() -> (w: Vec<(u8, u8)>)
    ensures
        w@.len() == 27,
        forall|i: int| 0 <= i < 27 ==> #[trigger] w@[i] == ((5 + i) as u8, CONF_R820T@[i]),
{
    let mut w: Vec<(u8, u8)> = Vec::new();
    let mut i: usize = 0;
    while i < 27
        invariant
            i <= 27,
            w@.len() == i,
            forall|k: int| 0 <= k < i ==> #[trigger] w@[k] == ((5 + k) as u8, CONF_R820T@[k]),
        decreases 27 - i,
    {
        w.push((CONF_R820T_START_REG + i as u8, CONF_R820T[i]));
        i = i + 1;
    }
    w
}

/// The first parameter register of multisynth 0; multisynth `n` (0-5)
/// starts 8 registers further per output.
pub const MS_FRACTIONAL_REG_BASE: u8 = 42;

/// The first parameter register of the integer-only multisynths 6-7.
pub const MS_INTEGER_REG_BASE: u8 = 90;

/// The parameter register `i` (0-7) of fractional multisynth `ms`
/// (0-5): `42 + 8 * ms + i`.
pub fn ms_fractional_register(ms: u8, i: u8) -> (r: u8)
    requires
        ms < 6,
        i < 8,
    ensures
        r == 42 + 8 * ms + i,
{
    MS_FRACTIONAL_REG_BASE + ms * 8 + i
}

/// The integer multiplier and divider index of multisynth 6 or 7 from
/// registers 90..93: multisynth 6 uses register 90 and the low three
/// bits of register 92; multisynth 7 register 91 and bits 4-6 of 92.
pub fn ms_int_params(ms: u8, parameters: &[u8; 3]) -> (r: (u8, u32))
    requires
        ms == 6 || ms == 7,
    ensures
        ms == 6 ==> r == (parameters@[0], (parameters@[2] % 8) as u32),
        ms == 7 ==> r == (parameters@[1], ((parameters@[2] / 16) % 8) as u32),
        r.1 < 8,
{
    let p2 = parameters[2];
    assert(p2 & 0x7 == p2 % 8) by (bit_vector);
    assert((p2 & 0x70) >> 4u8 == (p2 / 16) % 8) by (bit_vector);
    if ms == 6 {
        (parameters[0], (p2 & 0x7) as u32)
    } else {
        (parameters[1], ((p2 & 0x70) >> 4) as u32)
    }
}

} // verus!
