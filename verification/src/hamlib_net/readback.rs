//! What a Hamlib client reads, and what it reads back of what it wrote.

use vstd::prelude::*;

use crate::dialect::ClientSessionContext;
use crate::hamlib_net::command::NetCommand;
use crate::hamlib_net::extended::info_records;
use crate::hamlib_net::extended::labeled_records;
use crate::hamlib_net::plain::PlainTurn;
use crate::hamlib_net::plain::plain_turn;
use crate::model::Mode;
use crate::model::PttSource;
use crate::model::RadioEventSource;
use crate::model::StateChange;
use crate::model::StateMutation;
use crate::model::Vfo;
use crate::permissions::CommandClass;
use crate::power::TxPower;
use crate::power::millionths_text;
use crate::power::parsed_millionths;
use crate::state::RadioState;
use crate::state::Snapshot;
use crate::state::VfoSnapshot;
use crate::text::decimal;
use crate::text::lower_ascii;
use crate::text::parsed_signed;
use crate::text::same_ignoring_case;
use crate::text::signed_decimal;

verus! {

/// The state of the VFO that the radio receives on.
pub open spec fn active(snapshot: Snapshot) -> VfoSnapshot {
    match snapshot.rx_vfo {
        Vfo::A => snapshot.a,
        Vfo::B => snapshot.b,
    }
}

/// What a session that may read is answered to a plain command.
pub open spec fn answers(
    command: NetCommand,
    args: Seq<Seq<char>>,
    ctx: ClientSessionContext,
    snapshot: Snapshot,
    dump: Seq<char>,
    text: Seq<char>,
) -> bool {
    plain_turn(command, args, ctx, snapshot, dump) == PlainTurn::Reply(text)
}

/// Every plain read shows the value that it is named after: the frequency and the mode with the
/// passband of the VFO that the radio receives on, keying and the power switch as a digit, the
/// offsets or zero where they are off, and the capability dump as it is. A session that may not
/// read gets an error instead of the state.
pub proof fn law_reads_show_the_state(
    args: Seq<Seq<char>>,
    ctx: ClientSessionContext,
    snapshot: Snapshot,
    dump: Seq<char>,
)
    ensures
        ctx.perms.read ==> {
            &&& answers(
                NetCommand::GetFreq,
                args,
                ctx,
                snapshot,
                dump,
                decimal(active(snapshot).freq_hz as nat) + "\n"@,
            )
            &&& answers(
                NetCommand::GetMode,
                args,
                ctx,
                snapshot,
                dump,
                active(snapshot).mode.data_token(active(snapshot).data) + "\n"@ + decimal(
                    active(snapshot).passband_hz as nat,
                ) + "\n"@,
            )
            &&& answers(
                NetCommand::GetPtt,
                args,
                ctx,
                snapshot,
                dump,
                if snapshot.ptt {
                    "1\n"@
                } else {
                    "0\n"@
                },
            )
            &&& answers(
                NetCommand::GetPowerstat,
                args,
                ctx,
                snapshot,
                dump,
                if snapshot.power_on {
                    "1\n"@
                } else {
                    "0\n"@
                },
            )
            &&& answers(
                NetCommand::GetVfo,
                args,
                ctx,
                snapshot,
                dump,
                if !ctx.single_vfo && snapshot.rx_vfo == Vfo::B {
                    "VFOB\n"@
                } else {
                    "VFOA\n"@
                },
            )
            &&& answers(
                NetCommand::GetRit,
                args,
                ctx,
                snapshot,
                dump,
                if snapshot.rit_enabled {
                    signed_decimal(snapshot.rit_offset_hz as int) + "\n"@
                } else {
                    "0\n"@
                },
            )
            &&& answers(
                NetCommand::GetXit,
                args,
                ctx,
                snapshot,
                dump,
                if snapshot.xit_enabled {
                    signed_decimal(snapshot.xit_offset_hz as int) + "\n"@
                } else {
                    "0\n"@
                },
            )
        },
        answers(NetCommand::DumpState, args, ctx, snapshot, dump, dump),
        answers(NetCommand::ChkVfo, args, ctx, snapshot, dump, "0\n"@),
        answers(NetCommand::Unknown, args, ctx, snapshot, dump, "RPRT -11\n"@),
        !ctx.perms.read ==> {
            &&& answers(NetCommand::GetFreq, args, ctx, snapshot, dump, "RPRT -1\n"@)
            &&& answers(NetCommand::GetMode, args, ctx, snapshot, dump, "RPRT -1\n"@)
            &&& answers(NetCommand::GetPtt, args, ctx, snapshot, dump, "RPRT -1\n"@)
            &&& answers(NetCommand::GetVfo, args, ctx, snapshot, dump, "RPRT -1\n"@)
            &&& answers(NetCommand::GetVfoInfo, args, ctx, snapshot, dump, "RPRT -1\n"@)
            &&& answers(NetCommand::GetSplitVfo, args, ctx, snapshot, dump, "RPRT -1\n"@)
            &&& answers(NetCommand::GetSplitFreq, args, ctx, snapshot, dump, "RPRT -1\n"@)
            &&& answers(NetCommand::GetSplitMode, args, ctx, snapshot, dump, "RPRT -1\n"@)
            &&& answers(NetCommand::GetLevel, args, ctx, snapshot, dump, "RPRT -1\n"@)
            &&& answers(NetCommand::PowerToMilliwatts, args, ctx, snapshot, dump, "RPRT -1\n"@)
            &&& answers(NetCommand::GetPowerstat, args, ctx, snapshot, dump, "RPRT -1\n"@)
            &&& answers(NetCommand::GetRit, args, ctx, snapshot, dump, "RPRT -1\n"@)
            &&& answers(NetCommand::GetXit, args, ctx, snapshot, dump, "RPRT -1\n"@)
        },
{
    lemma_lines();
    let v = active(snapshot);
    let hz = decimal(v.freq_hz as nat);
    let mode = v.mode.data_token(v.data);
    let width = decimal(v.passband_hz as nat);
    assert(hz + "\n"@ =~= hz.push('\n'));
    assert(mode + "\n"@ + width + "\n"@ =~= mode.push('\n') + width.push('\n'));
    let rit = signed_decimal(snapshot.rit_offset_hz as int);
    let xit = signed_decimal(snapshot.xit_offset_hz as int);
    assert(rit + "\n"@ =~= rit.push('\n'));
    assert(xit + "\n"@ =~= xit.push('\n'));
}

proof fn lemma_lines()
    ensures
        "\n"@ =~= seq!['\n'],
        decimal(0).push('\n') =~= "0\n"@,
        decimal(1).push('\n') =~= "1\n"@,
        signed_decimal(0).push('\n') =~= "0\n"@,
        "VFOA"@.push('\n') =~= "VFOA\n"@,
        "VFOB"@.push('\n') =~= "VFOB\n"@,
{
    reveal_strlit("\n");
    reveal_strlit("0\n");
    reveal_strlit("1\n");
    reveal_strlit("VFOA");
    reveal_strlit("VFOB");
    reveal_strlit("VFOA\n");
    reveal_strlit("VFOB\n");
    assert(decimal(0)[0] == '0');
    assert(decimal(1)[0] == '1');
}

/// Split is read as its flag and the VFO that the radio transmits on: the transmit VFO while
/// split is on, the receive VFO while it is off. A session that knows a single VFO sees no
/// split, on VFO A. The transmit frequency and mode are those of the transmit VFO, and unknown
/// where they were never observed or the session knows a single VFO.
pub proof fn law_split_is_shown(
    args: Seq<Seq<char>>,
    ctx: ClientSessionContext,
    snapshot: Snapshot,
    dump: Seq<char>,
)
    requires
        ctx.perms.read,
    ensures
        ({
            let on = snapshot.split && !ctx.single_vfo;
            let sends = if on {
                snapshot.tx_vfo
            } else {
                snapshot.rx_vfo
            };
            let v = match snapshot.tx_vfo {
                Vfo::A => snapshot.a,
                Vfo::B => snapshot.b,
            };
            &&& answers(
                NetCommand::GetSplitVfo,
                args,
                ctx,
                snapshot,
                dump,
                (if on {
                    "1\n"@
                } else {
                    "0\n"@
                }) + (if !ctx.single_vfo && sends == Vfo::B {
                    "VFOB\n"@
                } else {
                    "VFOA\n"@
                }),
            )
            &&& answers(
                NetCommand::GetSplitFreq,
                args,
                ctx,
                snapshot,
                dump,
                if ctx.single_vfo || v.freq_hz == 0 {
                    "RPRT -11\n"@
                } else {
                    decimal(v.freq_hz as nat) + "\n"@
                },
            )
            &&& answers(
                NetCommand::GetSplitMode,
                args,
                ctx,
                snapshot,
                dump,
                if ctx.single_vfo || !v.mode_known {
                    "RPRT -11\n"@
                } else {
                    v.mode.data_token(v.data) + "\n"@ + decimal(v.passband_hz as nat) + "\n"@
                },
            )
        }),
{
    lemma_lines();
    let v = snapshot.of(snapshot.tx_vfo);
    let hz = decimal(v.freq_hz as nat);
    let mode = v.mode.data_token(v.data);
    let width = decimal(v.passband_hz as nat);
    assert(hz + "\n"@ =~= hz.push('\n'));
    assert(mode + "\n"@ + width + "\n"@ =~= mode.push('\n') + width.push('\n'));
}

/// All of one VFO is read line by line: frequency, mode, passband, split and satellite mode, of
/// the VFO that is asked for or, where the session knows a single VFO, of the operating one.
/// The extended reply labels the same values.
pub proof fn law_vfo_info_is_shown(
    token: Seq<char>,
    requested: Vfo,
    ctx: ClientSessionContext,
    snapshot: Snapshot,
    dump: Seq<char>,
)
    requires
        ctx.perms.read,
    ensures
        ({
            let args = seq![
                if requested == Vfo::A {
                    "VFOA"@
                } else {
                    "VFOB"@
                },
            ];
            let vfo = if ctx.single_vfo {
                snapshot.rx_vfo
            } else {
                requested
            };
            let v = match vfo {
                Vfo::A => snapshot.a,
                Vfo::B => snapshot.b,
            };
            let name = if !ctx.single_vfo && vfo == Vfo::B {
                "VFOB"@
            } else {
                "VFOA"@
            };
            let hz = decimal(v.freq_hz as nat);
            let mode = v.mode.data_token(v.data);
            let width = decimal(v.passband_hz as nat);
            let split = if snapshot.split && !ctx.single_vfo {
                "1"@
            } else {
                "0"@
            };
            &&& answers(
                NetCommand::GetVfoInfo,
                args,
                ctx,
                snapshot,
                dump,
                hz + "\n"@ + mode + "\n"@ + width + "\n"@ + split + "\n"@ + "0\n"@,
            )
            &&& info_records(token, args, true, ctx.single_vfo, snapshot) == seq![
                "get_vfo_info: "@ + name,
                "Freq: "@ + hz,
                "Mode: "@ + mode,
                "Width: "@ + width,
                "Split: "@ + split,
                "SatMode: 0"@,
                "RPRT 0"@,
            ]
        }),
{
    lemma_lines();
    lemma_vfo_names();
    reveal_strlit("0");
    reveal_strlit("1");
    assert(decimal(0) =~= "0"@);
    assert(decimal(1) =~= "1"@);
    let args = seq![
        if requested == Vfo::A {
            "VFOA"@
        } else {
            "VFOB"@
        },
    ];
    let vfo = if ctx.single_vfo {
        snapshot.rx_vfo
    } else {
        requested
    };
    let v = snapshot.of(vfo);
    let hz = decimal(v.freq_hz as nat);
    let mode = v.mode.data_token(v.data);
    let width = decimal(v.passband_hz as nat);
    let split = if snapshot.split && !ctx.single_vfo {
        "1"@
    } else {
        "0"@
    };
    assert(hz + "\n"@ + mode + "\n"@ + width + "\n"@ + split + "\n"@ + "0\n"@ =~= hz.push('\n') + (
    mode.push('\n') + width.push('\n')) + split.push('\n') + "0\n"@);
    assert(info_records(token, args, true, ctx.single_vfo, snapshot)[4] == "Split: "@ + split);
}

proof fn lemma_vfo_names()
    ensures
        same_ignoring_case("VFOB"@, "VFOB"@),
        !same_ignoring_case("VFOA"@, "VFOB"@),
{
    reveal_strlit("VFOA");
    reveal_strlit("VFOB");
    assert(lower_ascii("VFOA"@[3]) != lower_ascii("VFOB"@[3]));
}

/// The extended reply to a read labels the lines of the plain one: without its labels it says
/// the same, and a report follows.
pub proof fn law_extended_reads_agree(
    args: Seq<Seq<char>>,
    ctx: ClientSessionContext,
    snapshot: Snapshot,
    dump: Seq<char>,
    value: Seq<char>,
    other: Seq<char>,
)
    requires
        ctx.perms.read,
    ensures
        answers(NetCommand::GetFreq, args, ctx, snapshot, dump, value + "\n"@) ==> labeled_records(
            NetCommand::GetFreq,
            ctx.single_vfo,
            snapshot,
        ) == Some(seq!["get_freq:"@, "Frequency: "@ + value, "RPRT 0"@]),
        answers(NetCommand::GetVfo, args, ctx, snapshot, dump, value + "\n"@) ==> labeled_records(
            NetCommand::GetVfo,
            ctx.single_vfo,
            snapshot,
        ) == Some(seq!["get_vfo:"@, "VFO: "@ + value, "RPRT 0"@]),
        answers(NetCommand::GetPtt, args, ctx, snapshot, dump, value + "\n"@) ==> labeled_records(
            NetCommand::GetPtt,
            ctx.single_vfo,
            snapshot,
        ) == Some(seq!["get_ptt:"@, "PTT: "@ + value, "RPRT 0"@]),
        value == active(snapshot).mode.data_token(active(snapshot).data) && answers(
            NetCommand::GetMode,
            args,
            ctx,
            snapshot,
            dump,
            value + "\n"@ + other + "\n"@,
        ) ==> labeled_records(NetCommand::GetMode, ctx.single_vfo, snapshot) == Some(
            seq!["get_mode:"@, "Mode: "@ + value, "Passband: "@ + other, "RPRT 0"@],
        ),
{
    lemma_lines();
    assert(value + "\n"@ =~= value.push('\n'));
    assert((value + "\n"@).drop_last() =~= value);
    let v = active(snapshot);
    assert(decimal(v.freq_hz as nat).push('\n').drop_last() =~= decimal(v.freq_hz as nat));
    assert("VFOA"@.push('\n').drop_last() =~= "VFOA"@);
    assert("VFOB"@.push('\n').drop_last() =~= "VFOB"@);
    assert(decimal(0).push('\n').drop_last() =~= decimal(0));
    assert(decimal(1).push('\n').drop_last() =~= decimal(1));
    let mode = v.mode.data_token(v.data);
    let width = decimal(v.passband_hz as nat);
    let lines = mode.push('\n') + width.push('\n');
    if value == mode && value + "\n"@ + other + "\n"@ == lines {
        let n = mode.len() as int + 1;
        assert((value + "\n"@ + other + "\n"@).skip(n).drop_last() =~= other);
        assert(lines.skip(n).drop_last() =~= width);
    }
}

/// A frequency, a mode, split, an offset or keying that a session may write and that takes
/// effect is what it reads from then on.
pub proof fn law_sets_are_read_back(
    ctx: ClientSessionContext,
    snapshot: Snapshot,
    dump: Seq<char>,
    hz: u64,
    mode: Mode,
    data: bool,
    offset_hz: i32,
)
    requires
        ctx.perms.read,
        mode != Mode::Unknown,
        data ==> mode == Mode::Usb || mode == Mode::Lsb || mode == Mode::Fm || mode == Mode::Am,
    ensures
        plain_turn(
            NetCommand::SetFreq,
            seq![decimal(hz as nat)],
            ctx,
            snapshot,
            dump,
        ) matches PlainTurn::Apply { mutation, class: CommandClass::ModeledWrite, follow: None }
            && answers(
            NetCommand::GetFreq,
            Seq::empty(),
            ctx,
            snapshot.after(mutation.change()),
            dump,
            decimal(hz as nat) + "\n"@,
        ),
        plain_turn(
            NetCommand::SetMode,
            seq![mode.data_token(data)],
            ctx,
            snapshot,
            dump,
        ) matches PlainTurn::Apply {
            mutation,
            class: CommandClass::ModeledWrite,
            follow: Some(next),
        } && answers(
            NetCommand::GetMode,
            Seq::empty(),
            ctx,
            snapshot.after(mutation.change()).after(next.change()),
            dump,
            mode.data_token(data) + "\n"@ + decimal(active(snapshot).passband_hz as nat) + "\n"@,
        ),
        ctx.caps.has_rit ==> (plain_turn(
            NetCommand::SetRit,
            seq![signed_decimal(offset_hz as int)],
            ctx,
            snapshot,
            dump,
        ) matches PlainTurn::Apply { mutation, class: CommandClass::ModeledWrite, follow: None }
            && mutation is SetRit && answers(
            NetCommand::GetRit,
            Seq::empty(),
            ctx,
            snapshot.after(mutation.change()),
            dump,
            signed_decimal(offset_hz as int) + "\n"@,
        )),
        ctx.caps.has_xit ==> (plain_turn(
            NetCommand::SetXit,
            seq![signed_decimal(offset_hz as int)],
            ctx,
            snapshot,
            dump,
        ) matches PlainTurn::Apply { mutation, class: CommandClass::ModeledWrite, follow: None }
            && mutation is SetXit && answers(
            NetCommand::GetXit,
            Seq::empty(),
            ctx,
            snapshot.after(mutation.change()),
            dump,
            signed_decimal(offset_hz as int) + "\n"@,
        )),
{
    lemma_lines();
    crate::hamlib_net::plain::law_frequency_is_read_back(hz, Seq::empty());
    crate::model::law_data_tokens(mode, data, Seq::empty(), Seq::empty());
    lemma_signed_round_trip(offset_hz);
    let text = decimal(hz as nat);
    assert(seq![text][0] == text);
    let rx = snapshot.rx_vfo;
    let tuned = snapshot.after(StateChange::Freq { vfo: rx, hz });
    let moded = snapshot.after(StateChange::Mode { vfo: rx, mode }).after(
        StateChange::DataMode { vfo: rx, on: data },
    );
    crate::state::law_writes_take_effect(snapshot, StateMutation::SetVfoFreq { vfo: rx, hz });
    crate::state::law_writes_take_effect(snapshot, StateMutation::SetMode { vfo: rx, mode });
    crate::state::law_writes_take_effect(
        snapshot.after(StateChange::Mode { vfo: rx, mode }),
        StateMutation::SetDataMode { vfo: rx, on: data },
    );
    let enabled = offset_hz != 0;
    crate::state::law_writes_take_effect(snapshot, StateMutation::SetRit { offset_hz, enabled });
    crate::state::law_writes_take_effect(snapshot, StateMutation::SetXit { offset_hz, enabled });
    law_reads_show_the_state(Seq::empty(), ctx, tuned, dump);
    law_reads_show_the_state(Seq::empty(), ctx, moded, dump);
    law_reads_show_the_state(
        Seq::empty(),
        ctx,
        snapshot.after(StateChange::Rit { enabled, offset_hz }),
        dump,
    );
    law_reads_show_the_state(
        Seq::empty(),
        ctx,
        snapshot.after(StateChange::Xit { enabled, offset_hz }),
        dump,
    );
    let offset = signed_decimal(offset_hz as int);
    assert(offset + "\n"@ =~= offset.push('\n'));
}

proof fn lemma_signed_round_trip(n: i32)
    ensures
        parsed_signed(signed_decimal(n as int), i32::MIN as int, i32::MAX as int) == Some(n as int),
{
    let size = if n < 0 {
        (-n) as nat
    } else {
        n as nat
    };
    let digits = decimal(size);
    crate::ascii::lemma_padded_digits(size, 0);
    crate::ascii::lemma_decimal_value(size);
    assert(crate::ascii::padded(size, 0) =~= digits);
    assert(crate::text::is_digit(digits[0]));
    let text = signed_decimal(n as int);
    if n < 0 {
        assert(text.skip(1) =~= digits);
    } else {
        assert(crate::text::without_plus(text) == text);
    }
}

/// Split that a session with both VFOs may write and that takes effect is what it reads from
/// then on, and the VFO that it transmits on is the one that was named.
pub proof fn law_split_is_read_back(
    ctx: ClientSessionContext,
    snapshot: Snapshot,
    dump: Seq<char>,
    tx: Vfo,
)
    requires
        ctx.perms.read,
        ctx.perms.write,
        !ctx.single_vfo,
    ensures
        ({
            let name = if tx == Vfo::A {
                "VFOA"@
            } else {
                "VFOB"@
            };
            &&& plain_turn(
                NetCommand::SetSplitVfo,
                seq!["1"@, name],
                ctx,
                snapshot,
                dump,
            ) matches PlainTurn::Apply { mutation, class: CommandClass::ModeledWrite, follow: None }
                && answers(
                NetCommand::GetSplitVfo,
                Seq::empty(),
                ctx,
                snapshot.after(mutation.change()),
                dump,
                "1\n"@ + name + "\n"@,
            )
            &&& plain_turn(
                NetCommand::SetSplitVfo,
                seq!["0"@, name],
                ctx,
                snapshot,
                dump,
            ) matches PlainTurn::Apply { mutation, class: CommandClass::ModeledWrite, follow: None }
                && mutation == (StateMutation::SetSplit { enabled: false, tx_vfo: Some(tx) })
                && !snapshot.after(mutation.change()).split
        }),
{
    lemma_lines();
    lemma_vfo_names();
    let name = if tx == Vfo::A {
        "VFOA"@
    } else {
        "VFOB"@
    };
    let on = seq!["1"@, name];
    let off = seq!["0"@, name];
    reveal_strlit("0");
    reveal_strlit("1");
    assert("0"@[0] != "1"@[0]);
    assert(on[0] == "1"@ && off[0] == "0"@);
    let set = StateMutation::SetSplit { enabled: true, tx_vfo: Some(tx) };
    let clear = StateMutation::SetSplit { enabled: false, tx_vfo: Some(tx) };
    crate::state::law_writes_take_effect(snapshot, set);
    crate::state::law_writes_take_effect(snapshot, clear);
    law_split_is_shown(Seq::empty(), ctx, snapshot.after(set.change()), dump);
    assert("1\n"@ + name + "\n"@ =~= "1\n"@ + name.push('\n'));
}

/// Keying that is recorded is what every session that may read reads: `1` while the transmitter
/// is keyed and `0` while it is not, plain and under the label of the extended reply alike.
pub proof fn law_keying_is_read_back(
    state: RadioState,
    keyed: bool,
    source: RadioEventSource,
    args: Seq<Seq<char>>,
    ctx: ClientSessionContext,
    dump: Seq<char>,
)
    requires
        ctx.perms.read,
    ensures
        ({
            let later = state.recorded(StateChange::Ptt { keyed }, source).snapshot;
            let digit = if keyed {
                "1"@
            } else {
                "0"@
            };
            &&& answers(NetCommand::GetPtt, args, ctx, later, dump, digit + "\n"@)
            &&& labeled_records(NetCommand::GetPtt, ctx.single_vfo, later) == Some(
                seq!["get_ptt:"@, "PTT: "@ + digit, "RPRT 0"@],
            )
        }),
{
    let later = state.recorded(StateChange::Ptt { keyed }, source).snapshot;
    crate::state::law_writes_take_effect(
        state.snapshot,
        StateMutation::SetPtt { keyed, source: PttSource::Generic },
    );
    lemma_lines();
    reveal_strlit("0");
    reveal_strlit("1");
    assert("0"@ + "\n"@ =~= "0\n"@);
    assert("1"@ + "\n"@ =~= "1\n"@);
    law_reads_show_the_state(args, ctx, later, dump);
    law_extended_reads_agree(
        args,
        ctx,
        later,
        dump,
        if keyed {
            "1"@
        } else {
            "0"@
        },
        Seq::empty(),
    );
}

/// What a session may not write, or what the radio cannot do, is refused without a write: split
/// without authority, an offset that the radio lacks, a mode or a number that is none.
pub proof fn law_refused_sets_write_nothing(
    args: Seq<Seq<char>>,
    ctx: ClientSessionContext,
    snapshot: Snapshot,
    dump: Seq<char>,
)
    ensures
        !ctx.perms.write ==> answers(
            NetCommand::SetSplitVfo,
            args,
            ctx,
            snapshot,
            dump,
            "RPRT -1\n"@,
        ),
        answers(
            NetCommand::SetVfo,
            args,
            ctx,
            snapshot,
            dump,
            if ctx.perms.write {
                "RPRT 0\n"@
            } else {
                "RPRT -1\n"@
            },
        ),
        !ctx.caps.has_rit ==> answers(
            NetCommand::SetRit,
            args,
            ctx,
            snapshot,
            dump,
            "RPRT -11\n"@,
        ),
        !ctx.caps.has_xit ==> answers(
            NetCommand::SetXit,
            args,
            ctx,
            snapshot,
            dump,
            "RPRT -11\n"@,
        ),
        args.len() == 0 ==> {
            &&& answers(NetCommand::SetFreq, args, ctx, snapshot, dump, "RPRT -1\n"@)
            &&& answers(NetCommand::SetMode, args, ctx, snapshot, dump, "RPRT -1\n"@)
            &&& ctx.caps.has_rit ==> answers(
                NetCommand::SetRit,
                args,
                ctx,
                snapshot,
                dump,
                "RPRT -1\n"@,
            )
            &&& ctx.caps.has_xit ==> answers(
                NetCommand::SetXit,
                args,
                ctx,
                snapshot,
                dump,
                "RPRT -1\n"@,
            )
        },
        args.len() > 0 && Mode::of_data_token(args[0]).0 == Mode::Unknown ==> answers(
            NetCommand::SetMode,
            args,
            ctx,
            snapshot,
            dump,
            "RPRT -1\n"@,
        ),
        plain_turn(NetCommand::Quit, args, ctx, snapshot, dump) == PlainTurn::Quit,
{
}

/// The level that a session reads is the part of the full power that the transmitter is set to,
/// in a text that reads as that part; turned into milliwatts it is that part of the full power,
/// rounded down. At full power the level is one and the milliwatts are a thousand times the
/// watts. Without a known power there is neither.
pub proof fn law_power_is_shown(
    ctx: ClientSessionContext,
    snapshot: Snapshot,
    dump: Seq<char>,
    watts: u32,
    max_watts: u32,
    hz: Seq<char>,
    mode: Seq<char>,
)
    requires
        ctx.perms.read,
        0 < max_watts,
        watts <= max_watts,
    ensures
        ({
            let power = TxPower { watts, max_watts };
            let known = Snapshot { tx_power: Some(power), ..snapshot };
            let unknown = Snapshot { tx_power: None, ..snapshot };
            let asks = seq!["RFPOWER"@];
            let text = millionths_text(power.relative());
            let amount = seq![text, hz, mode];
            let milliwatts = max_watts as nat * power.relative() / 1000;
            &&& answers(NetCommand::GetLevel, asks, ctx, known, dump, text + "\n"@)
            &&& parsed_millionths(text) == Some(power.relative())
            &&& power.relative() * max_watts <= watts * 1_000_000 < (power.relative() + 1)
                * max_watts
            &&& answers(
                NetCommand::PowerToMilliwatts,
                amount,
                ctx,
                known,
                dump,
                decimal(milliwatts) + "\n"@,
            )
            &&& watts == max_watts ==> text == "1"@ && milliwatts == watts * 1000
            &&& answers(NetCommand::GetLevel, asks, ctx, unknown, dump, "RPRT -11\n"@)
            &&& answers(NetCommand::PowerToMilliwatts, amount, ctx, unknown, dump, "RPRT -11\n"@)
            &&& answers(NetCommand::GetLevel, seq!["STRENGTH"@], ctx, known, dump, "RPRT -11\n"@)
        }),
{
    lemma_lines();
    let power = TxPower { watts, max_watts };
    let m = max_watts as int;
    let r = power.relative() as int;
    crate::power::law_levels_are_read_back(power, 0);
    assert(r <= 1_000_000) by (nonlinear_arith)
        requires
            r * m <= watts * 1_000_000,
            watts <= m,
            0 < m,
    ;
    crate::power::law_levels_are_read_back(power, power.relative());
    let text = millionths_text(power.relative());
    assert(text + "\n"@ =~= text.push('\n'));
    let milliwatts = max_watts as nat * power.relative() / 1000;
    assert(decimal(milliwatts) + "\n"@ =~= decimal(milliwatts).push('\n'));
    if watts == max_watts {
        assert(m * 1_000_000 / 1000 == m * 1000);
    }
    reveal_strlit("RFPOWER");
    reveal_strlit("STRENGTH");
    assert("STRENGTH"@.len() != "RFPOWER"@.len());
    assert(same_ignoring_case("RFPOWER"@, "RFPOWER"@));
    assert(seq!["RFPOWER"@][0] == "RFPOWER"@);
    assert(seq!["STRENGTH"@][0] == "STRENGTH"@);
    assert(seq![text, hz, mode][0] == text);
}

/// A number that is written to key the radio unkeys it where it is zero and keys it otherwise,
/// two from the microphone and three from the data input.
pub proof fn law_keying_numbers(
    n: i32,
    ctx: ClientSessionContext,
    snapshot: Snapshot,
    dump: Seq<char>,
)
    ensures
        plain_turn(
            NetCommand::SetPtt,
            seq![signed_decimal(n as int)],
            ctx,
            snapshot,
            dump,
        ) == (PlainTurn::Apply {
            mutation: StateMutation::SetPtt {
                keyed: n != 0,
                source: if n == 2 {
                    PttSource::Mic
                } else if n == 3 {
                    PttSource::Data
                } else {
                    PttSource::Generic
                },
            },
            class: CommandClass::PttWrite,
            follow: None,
        }),
{
    lemma_signed_round_trip(n);
    let args = seq![signed_decimal(n as int)];
    assert(args[0] == signed_decimal(n as int));
}

} // verus!
