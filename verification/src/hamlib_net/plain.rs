//! The plain protocol used by WSJT-X, N1MM and logging engines: one command a line.

use vstd::prelude::*;

use crate::dialect::ApplyOutcome;
use crate::dialect::ClientSessionContext;
use crate::hamlib_net::command::NetCommand;
use crate::model::Mode;
use crate::model::PttSource;
use crate::model::StateMutation;
use crate::model::Vfo;
use crate::permissions::CommandClass;
use crate::power::millionths_text;
use crate::power::parsed_millionths;
use crate::power::TxPower;
use crate::state::Snapshot;
use crate::state::VfoSnapshot;
use crate::text::before_char;
use crate::text::decimal;
use crate::text::eq_ignore_ascii_case;
use crate::text::parse_i32;
use crate::text::parse_u64;
use crate::text::parsed_signed;
use crate::text::parsed_unsigned;
use crate::text::push_decimal;
use crate::text::push_signed;
use crate::text::same_ignoring_case;
use crate::text::same_text;
use crate::text::signed_decimal;
use crate::text::text_before;
use crate::text::texts;

verus! {

/// Success.
pub open spec fn rprt_ok() -> Seq<char> {
    "RPRT 0\n"@
}

/// Generic invalid / not-permitted error.
pub open spec fn rprt_einval() -> Seq<char> {
    "RPRT -1\n"@
}

/// Feature not available on this backend.
pub open spec fn rprt_enavail() -> Seq<char> {
    "RPRT -11\n"@
}

/// The name of a VFO.
pub open spec fn vfo_label(vfo: Vfo) -> Seq<char> {
    match vfo {
        Vfo::A => "VFOA"@,
        Vfo::B => "VFOB"@,
    }
}

fn vfo_name(vfo: Vfo) -> (r: &'static str)
    ensures
        r@ == vfo_label(vfo),
{
    match vfo {
        Vfo::A => "VFOA",
        Vfo::B => "VFOB",
    }
}

/// The VFO whose data a session presents when a client requests `requested`.
pub open spec fn shown_vfo(single_vfo: bool, snapshot: Snapshot, requested: Vfo) -> Vfo {
    if single_vfo {
        snapshot.rx_vfo
    } else {
        requested
    }
}

/// The VFO whose data this session presents when a client requests `requested`.
///
/// Single-VFO sessions (N1MM SO1V, Log4OM) always present the operating (receive) VFO so
/// the radio's physical A/B identity never leaks; dual-VFO sessions honor the literal
/// requested VFO. This is the chokepoint that makes single-VFO loggers follow A/B swaps.
#[must_use]
pub fn presented_vfo(ctx: &ClientSessionContext, snapshot: &Snapshot, requested: Vfo) -> (r: Vfo)
    ensures
        r == shown_vfo(ctx.single_vfo, *snapshot, requested),
{
    if ctx.single_vfo() {
        snapshot.rx_vfo
    } else {
        requested
    }
}

/// The VFO name a session advertises for the real VFO `physical`.
pub open spec fn shown_name(single_vfo: bool, physical: Vfo) -> Seq<char> {
    if single_vfo {
        "VFOA"@
    } else {
        vfo_label(physical)
    }
}

/// The VFO name this session advertises for the real VFO `physical`. Single-VFO sessions always
/// claim `VFOA` (the operating VFO is virtualized as A); dual-VFO sessions report the real
/// name.
#[must_use]
pub fn presented_vfo_name(ctx: &ClientSessionContext, physical: Vfo) -> (r: &'static str)
    ensures
        r@ == shown_name(ctx.single_vfo, physical),
{
    if ctx.single_vfo() {
        "VFOA"
    } else {
        vfo_name(physical)
    }
}

/// The split flag a session exposes.
pub open spec fn shown_split(single_vfo: bool, snapshot: Snapshot) -> bool {
    !single_vfo && snapshot.split
}

/// The split flag this session exposes. Single-VFO sessions always hide split (they know only
/// the operating VFO), matching the single-VFO virtualization contract.
#[must_use]
pub fn presented_split(ctx: &ClientSessionContext, snapshot: &Snapshot) -> (r: bool)
    ensures
        r == shown_split(ctx.single_vfo, *snapshot),
{
    !ctx.single_vfo() && snapshot.split
}

/// The VFO that an argument names: `VFOB` in any case, or else `VFOA`.
pub open spec fn vfo_arg(args: Seq<Seq<char>>, at: int) -> Vfo {
    if 0 <= at < args.len() && same_ignoring_case(args[at], "VFOB"@) {
        Vfo::B
    } else {
        Vfo::A
    }
}

/// Parse a requested VFO name argument, defaulting to `VFOA`.
#[must_use]
pub fn parse_vfo_arg(args: &[String], at: usize) -> (r: Vfo)
    ensures
        r == vfo_arg(texts(args@), at as int),
{
    if at < args.len() && eq_ignore_ascii_case(args[at].as_str(), "VFOB") {
        Vfo::B
    } else {
        Vfo::A
    }
}

/// The whole Hz that a frequency argument writes: a number, or what stands before its point.
pub open spec fn freq_arg(arg: Seq<char>) -> Option<nat> {
    match parsed_unsigned(arg, u64::MAX as nat) {
        Some(hz) => Some(hz),
        None => match before_char(arg, '.') {
            Some(whole) => parsed_unsigned(whole, u64::MAX as nat),
            None => None,
        },
    }
}

/// Parse a `set_freq` argument into whole Hz.
///
/// Hamlib clients (WSJT-X, Log4OM) format frequencies as a double with `"%f"`, e.g.
/// `F 14040005.000000`, so a plain number parse would reject every real `set_freq`. Accept
/// either a plain integer or a decimal value and keep the integer Hz part (frequencies are
/// always whole Hz, so the fraction is `0`).
#[must_use]
pub fn parse_freq_hz(arg: &str) -> (r: Option<u64>)
    ensures
        match r {
            Some(hz) => freq_arg(arg@) == Some(hz as nat),
            None => freq_arg(arg@) is None,
        },
{
    match parse_u64(arg) {
        Some(hz) => Some(hz),
        None => match text_before(arg, '.') {
            Some(whole) => parse_u64(whole.as_str()),
            None => None,
        },
    }
}

/// The report that an outcome is answered with.
pub open spec fn report(outcome: ApplyOutcome) -> Seq<char> {
    if outcome == ApplyOutcome::Applied {
        rprt_ok()
    } else {
        rprt_einval()
    }
}

/// The report that an outcome is answered with.
#[must_use]
pub fn outcome_rprt(outcome: ApplyOutcome) -> (r: String)
    ensures
        r@ == report(outcome),
{
    match outcome {
        ApplyOutcome::Applied => "RPRT 0\n".to_owned(),
        _ => "RPRT -1\n".to_owned(),
    }
}

/// What a command does next.
#[derive(Debug, PartialEq, Eq)]
pub enum PlainStep {
    /// Send the reply.
    Reply(String),
    /// The client asked to quit; close the connection.
    Quit,
    /// Apply a write; where it succeeds, apply the one that follows.
    Apply {
        /// The write.
        mutation: StateMutation,
        /// Its class.
        class: CommandClass,
        /// The modeled write that follows.
        follow: Option<StateMutation>,
    },
}

/// What a command does next, as a value of the model.
pub enum PlainTurn {
    /// Send the reply.
    Reply(Seq<char>),
    /// Close the connection.
    Quit,
    /// Apply a write; where it succeeds, apply the one that follows.
    Apply {
        /// The write.
        mutation: StateMutation,
        /// Its class.
        class: CommandClass,
        /// The modeled write that follows.
        follow: Option<StateMutation>,
    },
}

impl View for PlainStep {
    type V = PlainTurn;

    open spec fn view(&self) -> PlainTurn {
        match *self {
            PlainStep::Reply(text) => PlainTurn::Reply(text@),
            PlainStep::Quit => PlainTurn::Quit,
            PlainStep::Apply { mutation, class, follow } => PlainTurn::Apply {
                mutation,
                class,
                follow,
            },
        }
    }
}

/// A modeled write and nothing after it.
pub open spec fn write_turn(mutation: StateMutation) -> PlainTurn {
    PlainTurn::Apply { mutation, class: CommandClass::ModeledWrite, follow: None }
}

/// A line that holds a number.
pub open spec fn number_line(n: nat) -> Seq<char> {
    decimal(n).push('\n')
}

/// A line that holds a flag as a digit.
pub open spec fn flag_line(on: bool) -> Seq<char> {
    number_line(
        if on {
            1
        } else {
            0
        },
    )
}

/// A line that holds the mode and one that holds the passband.
pub open spec fn mode_lines(v: VfoSnapshot) -> Seq<char> {
    v.mode.data_token(v.data).push('\n') + number_line(v.passband_hz as nat)
}

/// The answer to `get_vfo_info`: frequency, mode, width, split and satellite mode.
pub open spec fn vfo_info_lines(single_vfo: bool, snapshot: Snapshot, requested: Vfo) -> Seq<
    char,
> {
    let v = snapshot.of(shown_vfo(single_vfo, snapshot, requested));
    number_line(v.freq_hz as nat) + mode_lines(v) + flag_line(shown_split(single_vfo, snapshot))
        + "0\n"@
}

/// The answer to `get_split_vfo`.
pub open spec fn split_lines(single_vfo: bool, snapshot: Snapshot) -> Seq<char> {
    let split = shown_split(single_vfo, snapshot);
    let tx = if split {
        snapshot.tx_vfo
    } else {
        snapshot.rx_vfo
    };
    flag_line(split) + shown_name(single_vfo, tx).push('\n')
}

/// The answer to `get_split_freq`: unknown where the session knows a single VFO or the
/// frequency was never observed.
pub open spec fn split_freq(single_vfo: bool, snapshot: Snapshot) -> Seq<char> {
    let hz = snapshot.of(snapshot.tx_vfo).freq_hz;
    if single_vfo || hz == 0 {
        rprt_enavail()
    } else {
        number_line(hz as nat)
    }
}

/// The answer to `get_split_mode`: unknown where the session knows a single VFO or the mode
/// was never observed.
pub open spec fn split_mode(single_vfo: bool, snapshot: Snapshot) -> Seq<char> {
    let v = snapshot.of(snapshot.tx_vfo);
    if single_vfo || !v.mode_known {
        rprt_enavail()
    } else {
        mode_lines(v)
    }
}

/// The answer to `get_level`: only the transmit power is a level here.
pub open spec fn level(args: Seq<Seq<char>>, snapshot: Snapshot) -> Seq<char> {
    if args.len() > 0 && same_ignoring_case(args[0], "RFPOWER"@) {
        match snapshot.tx_power {
            Some(power) => millionths_text(power.relative()).push('\n'),
            None => rprt_enavail(),
        }
    } else {
        rprt_enavail()
    }
}

/// The answer to `power2mW`, which takes a relative power, a frequency and a mode.
pub open spec fn milliwatts(args: Seq<Seq<char>>, snapshot: Snapshot) -> Seq<char> {
    if args.len() < 3 {
        rprt_enavail()
    } else {
        match (snapshot.tx_power, parsed_millionths(args[0])) {
            (Some(power), Some(relative)) => if power.max_watts == 0 {
                rprt_enavail()
            } else {
                number_line(power.max_watts as nat * relative / 1000)
            },
            _ => rprt_enavail(),
        }
    }
}

/// An offset that is switched off counts as zero.
pub open spec fn offset_line(enabled: bool, offset_hz: i32) -> Seq<char> {
    signed_decimal(
        if enabled {
            offset_hz as int
        } else {
            0
        },
    ).push('\n')
}

/// The answer to a command that reads the state.
pub open spec fn read_text(
    command: NetCommand,
    args: Seq<Seq<char>>,
    snapshot: Snapshot,
    single_vfo: bool,
) -> Option<Seq<char>> {
    match command {
        NetCommand::GetFreq => Some(number_line(snapshot.operating().freq_hz as nat)),
        NetCommand::GetMode => Some(mode_lines(snapshot.operating())),
        NetCommand::GetVfo => Some(shown_name(single_vfo, snapshot.rx_vfo).push('\n')),
        NetCommand::GetVfoInfo => Some(vfo_info_lines(single_vfo, snapshot, vfo_arg(args, 0))),
        NetCommand::GetSplitVfo => Some(split_lines(single_vfo, snapshot)),
        NetCommand::GetSplitFreq => Some(split_freq(single_vfo, snapshot)),
        NetCommand::GetSplitMode => Some(split_mode(single_vfo, snapshot)),
        NetCommand::GetLevel => Some(level(args, snapshot)),
        NetCommand::PowerToMilliwatts => Some(milliwatts(args, snapshot)),
        NetCommand::GetPtt => Some(flag_line(snapshot.ptt)),
        NetCommand::GetPowerstat => Some(flag_line(snapshot.power_on)),
        NetCommand::GetRit => Some(offset_line(snapshot.rit_enabled, snapshot.rit_offset_hz)),
        NetCommand::GetXit => Some(offset_line(snapshot.xit_enabled, snapshot.xit_offset_hz)),
        _ => None,
    }
}

/// What `set_mode` does. A token such as `PKTUSB` is a base mode and the DATA flag, and so
/// becomes two writes; a token that is no mode is an error, and nothing is written.
pub open spec fn set_mode_turn(args: Seq<Seq<char>>, vfo: Vfo) -> PlainTurn {
    if args.len() == 0 {
        PlainTurn::Reply(rprt_einval())
    } else {
        let (base, data) = Mode::of_data_token(args[0]);
        if base == Mode::Unknown {
            PlainTurn::Reply(rprt_einval())
        } else {
            PlainTurn::Apply {
                mutation: StateMutation::SetMode { vfo, mode: base },
                class: CommandClass::ModeledWrite,
                follow: Some(StateMutation::SetDataMode { vfo, on: data }),
            }
        }
    }
}

/// What `set_split_vfo` does.
pub open spec fn set_split_turn(args: Seq<Seq<char>>, writes: bool, single_vfo: bool) -> PlainTurn {
    let enabled = args.len() > 0 && args[0] == "1"@;
    if !writes {
        PlainTurn::Reply(rprt_einval())
    } else if single_vfo {
        PlainTurn::Reply(
            if enabled {
                rprt_enavail()
            } else {
                rprt_ok()
            },
        )
    } else {
        write_turn(StateMutation::SetSplit { enabled, tx_vfo: Some(vfo_arg(args, 1)) })
    }
}

/// Whether an argument is a numeral for a number.
pub open spec fn writes_number(arg: Seq<char>, n: int) -> bool {
    parsed_signed(arg, n, n) == Some(n)
}

/// What `set_ptt` asks for: only 0 or a missing argument unkeys. Everything else keys, and 2
/// and 3 name the transmit audio path.
pub open spec fn ptt_arg(args: Seq<Seq<char>>) -> (bool, PttSource) {
    if args.len() == 0 || writes_number(args[0], 0) {
        (false, PttSource::Generic)
    } else if writes_number(args[0], 2) {
        (true, PttSource::Mic)
    } else if writes_number(args[0], 3) {
        (true, PttSource::Data)
    } else {
        (true, PttSource::Generic)
    }
}

/// What a command that sets an offset does.
pub open spec fn set_offset_turn(args: Seq<Seq<char>>, capable: bool, rit: bool) -> PlainTurn {
    if !capable {
        PlainTurn::Reply(rprt_enavail())
    } else {
        let value = if args.len() > 0 {
            parsed_signed(args[0], i32::MIN as int, i32::MAX as int)
        } else {
            None
        };
        match value {
            Some(n) => write_turn(
                if rit {
                    StateMutation::SetRit { offset_hz: n as i32, enabled: n != 0 }
                } else {
                    StateMutation::SetXit { offset_hz: n as i32, enabled: n != 0 }
                },
            ),
            None => PlainTurn::Reply(rprt_einval()),
        }
    }
}

/// What a plain command does, for a session with the given context. `dump` is the capability
/// dump.
pub open spec fn plain_turn(
    command: NetCommand,
    args: Seq<Seq<char>>,
    ctx: ClientSessionContext,
    snapshot: Snapshot,
    dump: Seq<char>,
) -> PlainTurn {
    match read_text(command, args, snapshot, ctx.single_vfo) {
        Some(text) => PlainTurn::Reply(
            if ctx.perms.permits(CommandClass::ModeledRead) {
                text
            } else {
                rprt_einval()
            },
        ),
        None => match command {
            NetCommand::Quit => PlainTurn::Quit,
            NetCommand::DumpState => PlainTurn::Reply(dump),
            NetCommand::ChkVfo => PlainTurn::Reply("0\n"@),
            NetCommand::SetFreq => match if args.len() > 0 {
                freq_arg(args[0])
            } else {
                None
            } {
                Some(hz) => write_turn(
                    StateMutation::SetVfoFreq { vfo: snapshot.rx_vfo, hz: hz as u64 },
                ),
                None => PlainTurn::Reply(rprt_einval()),
            },
            NetCommand::SetMode => set_mode_turn(args, snapshot.rx_vfo),
            NetCommand::SetSplitVfo => set_split_turn(
                args,
                ctx.perms.permits(CommandClass::ModeledWrite),
                ctx.single_vfo,
            ),
            NetCommand::SetPtt => {
                let (keyed, source) = ptt_arg(args);
                PlainTurn::Apply {
                    mutation: StateMutation::SetPtt { keyed, source },
                    class: CommandClass::PttWrite,
                    follow: None,
                }
            },
            NetCommand::SetVfo => PlainTurn::Reply(
                if ctx.perms.permits(CommandClass::ModeledWrite) {
                    rprt_ok()
                } else {
                    rprt_einval()
                },
            ),
            NetCommand::SetRit => set_offset_turn(args, ctx.caps.has_rit, true),
            NetCommand::SetXit => set_offset_turn(args, ctx.caps.has_xit, false),
            _ => PlainTurn::Reply(rprt_enavail()),
        },
    }
}

fn push_number_line(out: &mut String, n: u64)
    ensures
        final(out)@ == old(out)@ + number_line(n as nat),
{
    push_decimal(out, n);
    out.push('\n');
    proof {
        assert(out@ =~= old(out)@ + number_line(n as nat));
    }
}

fn push_flag_line(out: &mut String, on: bool)
    ensures
        final(out)@ == old(out)@ + flag_line(on),
{
    push_number_line(
        out,
        if on {
            1
        } else {
            0
        },
    );
}

fn push_mode_lines(out: &mut String, v: VfoSnapshot)
    ensures
        final(out)@ == old(out)@ + mode_lines(v),
{
    out.append(v.mode.hamlib_token_with_data(v.data));
    out.push('\n');
    push_number_line(out, v.passband_hz as u64);
    proof {
        assert(out@ =~= old(out)@ + mode_lines(v));
    }
}

fn number_text(n: u64) -> (r: String)
    ensures
        r@ == number_line(n as nat),
{
    let mut out = String::new();
    push_number_line(&mut out, n);
    proof {
        assert(out@ =~= number_line(n as nat));
    }
    out
}

fn flag_text(on: bool) -> (r: String)
    ensures
        r@ == flag_line(on),
{
    number_text(
        if on {
            1
        } else {
            0
        },
    )
}

fn mode_text(v: VfoSnapshot) -> (r: String)
    ensures
        r@ == mode_lines(v),
{
    let mut out = String::new();
    push_mode_lines(&mut out, v);
    proof {
        assert(out@ =~= mode_lines(v));
    }
    out
}

fn offset_text(enabled: bool, offset_hz: i32) -> (r: String)
    ensures
        r@ == offset_line(enabled, offset_hz),
{
    let mut out = String::new();
    push_signed(
        &mut out,
        if enabled {
            offset_hz
        } else {
            0
        },
    );
    out.push('\n');
    proof {
        assert(out@ =~= offset_line(enabled, offset_hz));
    }
    out
}

fn name_text(name: &str) -> (r: String)
    ensures
        r@ == name@.push('\n'),
{
    let mut out = name.to_owned();
    out.push('\n');
    out
}

fn vfo_info_text(ctx: &ClientSessionContext, snapshot: &Snapshot, requested: Vfo) -> (r: String)
    ensures
        r@ == vfo_info_lines(ctx.single_vfo, *snapshot, requested),
{
    let v = snapshot.vfo(presented_vfo(ctx, snapshot, requested));
    let mut out = String::new();
    push_number_line(&mut out, v.freq_hz);
    push_mode_lines(&mut out, v);
    push_flag_line(&mut out, presented_split(ctx, snapshot));
    out.append("0\n");
    proof {
        assert(out@ =~= vfo_info_lines(ctx.single_vfo, *snapshot, requested));
    }
    out
}

fn split_text(ctx: &ClientSessionContext, snapshot: &Snapshot) -> (r: String)
    ensures
        r@ == split_lines(ctx.single_vfo, *snapshot),
{
    let split: bool = presented_split(ctx, snapshot);
    let tx = if split {
        snapshot.tx_vfo
    } else {
        snapshot.rx_vfo
    };
    let mut out = String::new();
    push_flag_line(&mut out, split);
    out.append(presented_vfo_name(ctx, tx));
    out.push('\n');
    proof {
        assert(out@ =~= split_lines(ctx.single_vfo, *snapshot));
    }
    out
}

fn level_text(args: &[String], snapshot: &Snapshot) -> (r: String)
    ensures
        r@ == level(texts(args@), *snapshot),
{
    if args.len() > 0 && eq_ignore_ascii_case(args[0].as_str(), "RFPOWER") {
        if let Some(power) = snapshot.tx_power {
            return name_text(power.relative_decimal().as_str());
        }
    }
    "RPRT -11\n".to_owned()
}

fn milliwatts_text(args: &[String], snapshot: &Snapshot) -> (r: String)
    ensures
        r@ == milliwatts(texts(args@), *snapshot),
{
    if args.len() < 3 {
        return "RPRT -11\n".to_owned();
    }
    match (snapshot.tx_power, TxPower::parse_relative_millionths(args[0].as_str())) {
        (Some(power), Some(relative)) => match power.milliwatts_for_relative(relative) {
            Some(milliwatts) => {
                proof {
                    assert(power.max_watts as nat * relative as nat <= 0xffff_ffff * 0xffff_ffff)
                        by (nonlinear_arith)
                        requires
                            power.max_watts <= 0xffff_ffff,
                            relative <= 0xffff_ffff,
                    ;
                }
                number_text(milliwatts)
            },
            None => "RPRT -11\n".to_owned(),
        },
        _ => "RPRT -11\n".to_owned(),
    }
}

fn read_reply(
    command: NetCommand,
    args: &[String],
    ctx: &ClientSessionContext,
    snapshot: &Snapshot,
) -> (r: Option<String>)
    ensures
        match r {
            Some(text) => read_text(command, texts(args@), *snapshot, ctx.single_vfo) == Some(
                text@,
            ),
            None => read_text(command, texts(args@), *snapshot, ctx.single_vfo) is None,
        },
{
    match command {
        NetCommand::GetFreq => Some(number_text(snapshot.vfo(snapshot.rx_vfo).freq_hz)),
        NetCommand::GetMode => Some(mode_text(snapshot.vfo(snapshot.rx_vfo))),
        NetCommand::GetVfo => Some(name_text(presented_vfo_name(ctx, snapshot.rx_vfo))),
        NetCommand::GetVfoInfo => Some(vfo_info_text(ctx, snapshot, parse_vfo_arg(args, 0))),
        NetCommand::GetSplitVfo => Some(split_text(ctx, snapshot)),
        NetCommand::GetSplitFreq => {
            let hz: u64 = snapshot.vfo(snapshot.tx_vfo).freq_hz;
            if ctx.single_vfo() || hz == 0 {
                Some("RPRT -11\n".to_owned())
            } else {
                Some(number_text(hz))
            }
        },
        NetCommand::GetSplitMode => {
            let v = snapshot.vfo(snapshot.tx_vfo);
            if ctx.single_vfo() || !v.mode_known {
                Some("RPRT -11\n".to_owned())
            } else {
                Some(mode_text(v))
            }
        },
        NetCommand::GetLevel => Some(level_text(args, snapshot)),
        NetCommand::PowerToMilliwatts => Some(milliwatts_text(args, snapshot)),
        NetCommand::GetPtt => Some(flag_text(snapshot.ptt)),
        NetCommand::GetPowerstat => Some(flag_text(snapshot.power_on)),
        NetCommand::GetRit => Some(offset_text(snapshot.rit_enabled, snapshot.rit_offset_hz)),
        NetCommand::GetXit => Some(offset_text(snapshot.xit_enabled, snapshot.xit_offset_hz)),
        _ => None,
    }
}

fn set_mode_step(args: &[String], vfo: Vfo) -> (r: PlainStep)
    ensures
        r@ == set_mode_turn(texts(args@), vfo),
{
    if args.len() == 0 {
        return PlainStep::Reply("RPRT -1\n".to_owned());
    }
    // The TS-590 splits data operation into a base mode (`MD`) and an independent DATA flag
    // (`DA`), so a `PKTUSB` request becomes two modeled writes: the base mode, then the DATA
    // flag. Each is deduped independently, so re-asserting PKTUSB writes nothing and switching
    // PKTUSB to USB only emits `DA0`. The base write is applied first; if it fails the data
    // write is skipped and its error is reported.
    let (base, data) = Mode::decompose_hamlib_token(args[0].as_str());
    // An unrecognized mode token renders as USB. Silently applying it would retune the radio
    // to USB while reporting success. Reject it so the client sees the error.
    if base == Mode::Unknown {
        return PlainStep::Reply("RPRT -1\n".to_owned());
    }
    PlainStep::Apply {
        mutation: StateMutation::SetMode { vfo, mode: base },
        class: CommandClass::ModeledWrite,
        follow: Some(StateMutation::SetDataMode { vfo, on: data }),
    }
}

fn set_split_step(args: &[String], writes: bool, single_vfo: bool) -> (r: PlainStep)
    ensures
        r@ == set_split_turn(texts(args@), writes, single_vfo),
{
    let enabled: bool = args.len() > 0 && same_text(args[0].as_str(), "1");
    if !writes {
        return PlainStep::Reply("RPRT -1\n".to_owned());
    }
    if single_vfo {
        // Single-VFO sessions present one operating VFO and cannot model a real A/B split.
        // Accept "split off" as a no-op success, but reject "split on" so a client (e.g.
        // WSJT-X "Rig" split) sees split is unavailable and falls back to "Fake It" instead of
        // believing a false success that would route TX to the wrong frequency.
        return if enabled {
            PlainStep::Reply("RPRT -11\n".to_owned())
        } else {
            PlainStep::Reply("RPRT 0\n".to_owned())
        };
    }
    PlainStep::Apply {
        mutation: StateMutation::SetSplit { enabled, tx_vfo: Some(parse_vfo_arg(args, 1)) },
        class: CommandClass::ModeledWrite,
        follow: None,
    }
}

fn number_arg(args: &[String]) -> (r: Option<i32>)
    ensures
        match r {
            Some(n) => args@.len() > 0 && parsed_signed(
                texts(args@)[0],
                i32::MIN as int,
                i32::MAX as int,
            ) == Some(n as int),
            None => args@.len() == 0 || parsed_signed(
                texts(args@)[0],
                i32::MIN as int,
                i32::MAX as int,
            ) is None,
        },
{
    if args.len() == 0 {
        None
    } else {
        parse_i32(args[0].as_str())
    }
}

fn set_ptt_step(args: &[String]) -> (r: PlainStep)
    ensures
        r@ == ({
            let (keyed, source) = ptt_arg(texts(args@));
            PlainTurn::Apply {
                mutation: StateMutation::SetPtt { keyed, source },
                class: CommandClass::PttWrite,
                follow: None,
            }
        }),
{
    // Hamlib PTT values: 0 = RX, 1 = TX (generic), 2 = TX on mic, 3 = TX on data. WSJT-X sends
    // `T 3` (RIG_PTT_ON_DATA) to transmit in Data/Pkt mode, so the source is honored on the
    // wire (TS-590 `TX1;`) to route the DATA/USB audio and avoid the data beep a bare `TX;`
    // produces. Only 0 (or a missing argument) means unkey.
    let (keyed, source) = match number_arg(args) {
        Some(0) => (false, PttSource::Generic),
        Some(2) => (true, PttSource::Mic),
        Some(3) => (true, PttSource::Data),
        _ => (args.len() > 0, PttSource::Generic),
    };
    PlainStep::Apply {
        mutation: StateMutation::SetPtt { keyed, source },
        class: CommandClass::PttWrite,
        follow: None,
    }
}

fn set_offset_step(args: &[String], capable: bool, rit: bool) -> (r: PlainStep)
    ensures
        r@ == set_offset_turn(texts(args@), capable, rit),
{
    if !capable {
        return PlainStep::Reply("RPRT -11\n".to_owned());
    }
    match number_arg(args) {
        Some(n) => PlainStep::Apply {
            mutation: if rit {
                StateMutation::SetRit { offset_hz: n, enabled: n != 0 }
            } else {
                StateMutation::SetXit { offset_hz: n, enabled: n != 0 }
            },
            class: CommandClass::ModeledWrite,
            follow: None,
        },
        None => PlainStep::Reply("RPRT -1\n".to_owned()),
    }
}

/// Dispatch one plain (non-extended) command against the universal state.
#[must_use]
pub fn dispatch_plain(
    command: NetCommand,
    args: &[String],
    ctx: &ClientSessionContext,
    snapshot: &Snapshot,
    dump: &str,
) -> (r: PlainStep)
    ensures
        r@ == plain_turn(command, texts(args@), *ctx, *snapshot, dump@),
{
    if let Some(text) = read_reply(command, args, ctx, snapshot) {
        return if ctx.perms.allows(CommandClass::ModeledRead) {
            PlainStep::Reply(text)
        } else {
            PlainStep::Reply("RPRT -1\n".to_owned())
        };
    }
    match command {
        NetCommand::Quit => PlainStep::Quit,
        NetCommand::DumpState => PlainStep::Reply(dump.to_owned()),
        // The "no-vfo" handshake reply.
        NetCommand::ChkVfo => PlainStep::Reply("0\n".to_owned()),
        NetCommand::SetFreq => {
            let hz: Option<u64> = if args.len() > 0 {
                parse_freq_hz(args[0].as_str())
            } else {
                None
            };
            match hz {
                Some(hz) => PlainStep::Apply {
                    mutation: StateMutation::SetVfoFreq { vfo: snapshot.rx_vfo, hz },
                    class: CommandClass::ModeledWrite,
                    follow: None,
                },
                None => PlainStep::Reply("RPRT -1\n".to_owned()),
            }
        },
        NetCommand::SetMode => set_mode_step(args, snapshot.rx_vfo),
        NetCommand::SetSplitVfo => set_split_step(
            args,
            ctx.perms.allows(CommandClass::ModeledWrite),
            ctx.single_vfo(),
        ),
        NetCommand::SetPtt => set_ptt_step(args),
        // Accepted but unmodeled: selecting the active VFO never retargets on the wire.
        NetCommand::SetVfo => {
            if ctx.perms.allows(CommandClass::ModeledWrite) {
                PlainStep::Reply("RPRT 0\n".to_owned())
            } else {
                PlainStep::Reply("RPRT -1\n".to_owned())
            }
        },
        // RIT and XIT: modeled offsets in Hz, gated on backend capability. A zero offset
        // disables the feature.
        NetCommand::SetRit => set_offset_step(args, ctx.caps.has_rit, true),
        NetCommand::SetXit => set_offset_step(args, ctx.caps.has_xit, false),
        _ => PlainStep::Reply("RPRT -11\n".to_owned()),
    }
}

/// `set_ptt` always asks for exactly one keying or unkeying, and only 0 or a missing argument
/// unkeys: every other number keys, however large, and so does what is no number.
pub proof fn law_only_zero_unkeys(
    args: Seq<Seq<char>>,
    ctx: ClientSessionContext,
    snapshot: Snapshot,
    dump: Seq<char>,
    n: int,
)
    ensures
        plain_turn(NetCommand::SetPtt, args, ctx, snapshot, dump) matches PlainTurn::Apply {
            mutation: StateMutation::SetPtt { keyed, source },
            class: CommandClass::PttWrite,
            follow: None,
        } && {
            &&& !keyed <==> args.len() == 0 || writes_number(args[0], 0)
            &&& args.len() > 0 && n != 0 && writes_number(args[0], n) ==> keyed
            &&& args.len() > 0 && (forall|k: int| !#[trigger] writes_number(args[0], k)) ==> keyed
            &&& source == PttSource::Mic <==> args.len() > 0 && writes_number(args[0], 2)
            &&& source == PttSource::Data <==> args.len() > 0 && writes_number(args[0], 3)
        },
{
}

/// No command ever retargets a VFO: what a session writes lands on the receive VFO, or is the
/// split or an offset that it asked for.
pub proof fn law_never_retargets(
    command: NetCommand,
    args: Seq<Seq<char>>,
    ctx: ClientSessionContext,
    snapshot: Snapshot,
    dump: Seq<char>,
)
    ensures
        plain_turn(command, args, ctx, snapshot, dump) matches PlainTurn::Apply {
            mutation,
            class,
            follow,
        } ==> {
            &&& mutation !is SetRxVfo
            &&& mutation matches StateMutation::SetVfoFreq { vfo, .. } ==> vfo == snapshot.rx_vfo
            &&& mutation matches StateMutation::SetMode { vfo, .. } ==> vfo == snapshot.rx_vfo
            &&& follow matches Some(next) ==> next matches StateMutation::SetDataMode { vfo, .. }
                && vfo == snapshot.rx_vfo
        },
{
}

/// A session that knows a single VFO cannot tell which physical VFO is the operating one:
/// whatever it reads depends on the operating VFO's state alone.
pub proof fn law_single_vfo_hides_the_physical_vfo(
    command: NetCommand,
    args: Seq<Seq<char>>,
    s: Snapshot,
    t: Snapshot,
)
    requires
        s.operating() == t.operating(),
        s.ptt == t.ptt,
        s.power_on == t.power_on,
        s.tx_power == t.tx_power,
        s.rit_enabled == t.rit_enabled,
        s.rit_offset_hz == t.rit_offset_hz,
        s.xit_enabled == t.xit_enabled,
        s.xit_offset_hz == t.xit_offset_hz,
    ensures
        read_text(command, args, s, true) == read_text(command, args, t, true),
{
}

/// A session that knows a single VFO never touches the radio's split.
pub proof fn law_single_vfo_never_splits(
    command: NetCommand,
    args: Seq<Seq<char>>,
    ctx: ClientSessionContext,
    snapshot: Snapshot,
    dump: Seq<char>,
)
    requires
        ctx.single_vfo,
    ensures
        plain_turn(command, args, ctx, snapshot, dump) matches PlainTurn::Apply {
            mutation,
            ..
        } ==> mutation !is SetSplit,
{
}

/// A frequency that is written as it is read is read back, in Hz or in Hamlib's decimals.
pub proof fn law_frequency_is_read_back(hz: u64, fraction: Seq<char>)
    ensures
        freq_arg(decimal(hz as nat)) == Some(hz as nat),
        freq_arg(decimal(hz as nat) + seq!['.'] + fraction) == Some(hz as nat),
{
    crate::ascii::lemma_padded_digits(hz as nat, 0);
    crate::ascii::lemma_decimal_value(hz as nat);
    let digits = decimal(hz as nat);
    assert(crate::ascii::padded(hz as nat, 0) =~= digits);
    assert(crate::text::is_digit(digits[0]));
    assert(crate::text::without_plus(digits) == digits);
    let text = digits + seq!['.'] + fraction;
    assert(text[digits.len() as int] == '.');
    assert(text[0] == digits[0]);
    assert(crate::text::without_plus(text) == text);
    assert(!crate::text::is_digit(text[digits.len() as int]));
    lemma_before_point(digits, fraction);
}

proof fn lemma_before_point(digits: Seq<char>, fraction: Seq<char>)
    requires
        crate::text::all_digits(digits),
    ensures
        before_char(digits + seq!['.'] + fraction, '.') == Some(digits),
    decreases digits.len(),
{
    let text = digits + seq!['.'] + fraction;
    if digits.len() == 0 {
        assert(text[0] == '.');
        assert(digits =~= Seq::empty());
    } else {
        assert(crate::text::is_digit(digits[0]));
        assert(text[0] == digits[0]);
        lemma_before_point(digits.skip(1), fraction);
        assert(text.skip(1) =~= digits.skip(1) + seq!['.'] + fraction);
        assert(seq![digits[0]] + digits.skip(1) =~= digits);
    }
}

} // verus!
