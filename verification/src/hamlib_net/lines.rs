//! The lines that a Hamlib client sends, the commands they name, and the blocks of records that
//! answer them.

use vstd::prelude::*;

use crate::dialect::ApplyOutcome;
use crate::dialect::ClientSessionContext;
use crate::hamlib_net::command::NetCommand;
use crate::hamlib_net::extended::after_write;
use crate::hamlib_net::extended::block;
use crate::hamlib_net::extended::echoed;
use crate::hamlib_net::extended::erp_split;
use crate::hamlib_net::extended::ext_turn;
use crate::hamlib_net::extended::joined;
use crate::hamlib_net::extended::labeled_records;
use crate::hamlib_net::extended::lemma_one_piece;
use crate::hamlib_net::extended::line_turn;
use crate::hamlib_net::extended::pieces;
use crate::hamlib_net::extended::reported;
use crate::hamlib_net::extended::vfo_list;
use crate::hamlib_net::extended::LineTurn;
use crate::hamlib_net::extended::WriteTurn;
use crate::hamlib_net::plain::plain_turn;
use crate::hamlib_net::plain::PlainTurn;
use crate::hamlib_net::session::lines_fed;
use crate::model::StateMutation;
use crate::permissions::CommandClass;
use crate::state::Snapshot;
use crate::text::after_prefix;
use crate::text::decimal;
use crate::text::trimmed;
use crate::text::words_of;

verus! {

/// A number that tells the tokens of the commands apart: a letter stands for itself, a name for
/// its length and three of its characters.
spec fn digest(token: Seq<char>) -> int {
    if token.len() < 6 {
        token[0] as int
    } else {
        token.len() * 1_000_000_000 + token[1] as int * 1_000_000 + token[5] as int * 1_000
            + token.last() as int
    }
}

proof fn lemma_digests()
    ensures
        digest("q"@) == 113,
        digest("Q"@) == 81,
        digest("f"@) == 102,
        digest("m"@) == 109,
        digest("v"@) == 118,
        digest("s"@) == 115,
        digest("i"@) == 105,
        digest("x"@) == 120,
        digest("l"@) == 108,
        digest("2"@) == 50,
        digest("t"@) == 116,
        digest("F"@) == 70,
        digest("M"@) == 77,
        digest("S"@) == 83,
        digest("T"@) == 84,
        digest("V"@) == 86,
        digest("j"@) == 106,
        digest("z"@) == 122,
        digest("J"@) == 74,
        digest("Z"@) == 90,
        digest("\\get_freq"@) == 9103102113,
        digest("\\get_mode"@) == 9103109101,
        digest("\\get_vfo"@) == 8103118111,
        digest("\\get_vfo_info"@) == 13103118111,
        digest("\\get_split_vfo"@) == 14103115111,
        digest("\\get_split_freq"@) == 15103115113,
        digest("\\get_split_mode"@) == 15103115101,
        digest("\\get_level"@) == 10103108108,
        digest("\\power2mW"@) == 9112114087,
        digest("\\get_ptt"@) == 8103112116,
        digest("\\get_powerstat"@) == 14103112116,
        digest("\\dump_state"@) == 11100095101,
        digest("\\chk_vfo"@) == 8099118111,
        digest("\\set_freq"@) == 9115102113,
        digest("\\set_mode"@) == 9115109101,
        digest("\\set_split_vfo"@) == 14115115111,
        digest("\\set_ptt"@) == 8115112116,
        digest("\\set_vfo"@) == 8115118111,
        digest("\\get_rit"@) == 8103114116,
        digest("\\get_xit"@) == 8103120116,
        digest("\\set_rit"@) == 8115114116,
        digest("\\set_xit"@) == 8115120116,
{
    reveal_strlit("q");
    reveal_strlit("Q");
    reveal_strlit("f");
    reveal_strlit("m");
    reveal_strlit("v");
    reveal_strlit("s");
    reveal_strlit("i");
    reveal_strlit("x");
    reveal_strlit("l");
    reveal_strlit("2");
    reveal_strlit("t");
    reveal_strlit("F");
    reveal_strlit("M");
    reveal_strlit("S");
    reveal_strlit("T");
    reveal_strlit("V");
    reveal_strlit("j");
    reveal_strlit("z");
    reveal_strlit("J");
    reveal_strlit("Z");
    reveal_strlit("\\get_freq");
    reveal_strlit("\\get_mode");
    reveal_strlit("\\get_vfo");
    reveal_strlit("\\get_vfo_info");
    reveal_strlit("\\get_split_vfo");
    reveal_strlit("\\get_split_freq");
    reveal_strlit("\\get_split_mode");
    reveal_strlit("\\get_level");
    reveal_strlit("\\power2mW");
    reveal_strlit("\\get_ptt");
    reveal_strlit("\\get_powerstat");
    reveal_strlit("\\dump_state");
    reveal_strlit("\\chk_vfo");
    reveal_strlit("\\set_freq");
    reveal_strlit("\\set_mode");
    reveal_strlit("\\set_split_vfo");
    reveal_strlit("\\set_ptt");
    reveal_strlit("\\set_vfo");
    reveal_strlit("\\get_rit");
    reveal_strlit("\\get_xit");
    reveal_strlit("\\set_rit");
    reveal_strlit("\\set_xit");
}

/// The letters of the commands: a setting has the capital of the letter that reads it back.
pub proof fn law_command_letters()
    ensures
        NetCommand::named("q"@) == NetCommand::Quit,
        NetCommand::named("Q"@) == NetCommand::Quit,
        NetCommand::named("f"@) == NetCommand::GetFreq,
        NetCommand::named("m"@) == NetCommand::GetMode,
        NetCommand::named("v"@) == NetCommand::GetVfo,
        NetCommand::named("s"@) == NetCommand::GetSplitVfo,
        NetCommand::named("i"@) == NetCommand::GetSplitFreq,
        NetCommand::named("x"@) == NetCommand::GetSplitMode,
        NetCommand::named("l"@) == NetCommand::GetLevel,
        NetCommand::named("2"@) == NetCommand::PowerToMilliwatts,
        NetCommand::named("t"@) == NetCommand::GetPtt,
        NetCommand::named("F"@) == NetCommand::SetFreq,
        NetCommand::named("M"@) == NetCommand::SetMode,
        NetCommand::named("S"@) == NetCommand::SetSplitVfo,
        NetCommand::named("T"@) == NetCommand::SetPtt,
        NetCommand::named("V"@) == NetCommand::SetVfo,
        NetCommand::named("j"@) == NetCommand::GetRit,
        NetCommand::named("z"@) == NetCommand::GetXit,
        NetCommand::named("J"@) == NetCommand::SetRit,
        NetCommand::named("Z"@) == NetCommand::SetXit,
{
    lemma_digests();
}

/// The names of the commands: the name under which a command is echoed, behind a backslash, names
/// that command.
pub proof fn law_command_names()
    ensures
        NetCommand::named("\\get_freq"@) == NetCommand::GetFreq,
        NetCommand::named("\\get_mode"@) == NetCommand::GetMode,
        NetCommand::named("\\get_vfo"@) == NetCommand::GetVfo,
        NetCommand::named("\\get_vfo_info"@) == NetCommand::GetVfoInfo,
        NetCommand::named("\\get_split_vfo"@) == NetCommand::GetSplitVfo,
        NetCommand::named("\\get_split_freq"@) == NetCommand::GetSplitFreq,
        NetCommand::named("\\get_split_mode"@) == NetCommand::GetSplitMode,
        NetCommand::named("\\get_level"@) == NetCommand::GetLevel,
        NetCommand::named("\\power2mW"@) == NetCommand::PowerToMilliwatts,
        NetCommand::named("\\get_ptt"@) == NetCommand::GetPtt,
        NetCommand::named("\\get_powerstat"@) == NetCommand::GetPowerstat,
        NetCommand::named("\\dump_state"@) == NetCommand::DumpState,
        NetCommand::named("\\chk_vfo"@) == NetCommand::ChkVfo,
        NetCommand::named("\\set_freq"@) == NetCommand::SetFreq,
        NetCommand::named("\\set_mode"@) == NetCommand::SetMode,
        NetCommand::named("\\set_split_vfo"@) == NetCommand::SetSplitVfo,
        NetCommand::named("\\set_ptt"@) == NetCommand::SetPtt,
        NetCommand::named("\\set_vfo"@) == NetCommand::SetVfo,
        NetCommand::named("\\get_rit"@) == NetCommand::GetRit,
        NetCommand::named("\\get_xit"@) == NetCommand::GetXit,
        NetCommand::named("\\set_rit"@) == NetCommand::SetRit,
        NetCommand::named("\\set_xit"@) == NetCommand::SetXit,
        NetCommand::GetFreq.full_name() == Some("get_freq"@),
        NetCommand::GetMode.full_name() == Some("get_mode"@),
        NetCommand::GetVfo.full_name() == Some("get_vfo"@),
        NetCommand::GetVfoInfo.full_name() == Some("get_vfo_info"@),
        NetCommand::GetSplitVfo.full_name() == Some("get_split_vfo"@),
        NetCommand::GetSplitFreq.full_name() == Some("get_split_freq"@),
        NetCommand::GetSplitMode.full_name() == Some("get_split_mode"@),
        NetCommand::GetLevel.full_name() == Some("get_level"@),
        NetCommand::PowerToMilliwatts.full_name() == Some("power2mW"@),
        NetCommand::GetPtt.full_name() == Some("get_ptt"@),
        NetCommand::GetPowerstat.full_name() == Some("get_powerstat"@),
        NetCommand::DumpState.full_name() == Some("dump_state"@),
        NetCommand::ChkVfo.full_name() == Some("chk_vfo"@),
        NetCommand::SetFreq.full_name() == Some("set_freq"@),
        NetCommand::SetMode.full_name() == Some("set_mode"@),
        NetCommand::SetSplitVfo.full_name() == Some("set_split_vfo"@),
        NetCommand::SetPtt.full_name() == Some("set_ptt"@),
        NetCommand::SetVfo.full_name() == Some("set_vfo"@),
        NetCommand::GetRit.full_name() == Some("get_rit"@),
        NetCommand::GetXit.full_name() == Some("get_xit"@),
        NetCommand::SetRit.full_name() == Some("set_rit"@),
        NetCommand::SetXit.full_name() == Some("set_xit"@),
        NetCommand::Quit.full_name() is None,
        NetCommand::Unknown.full_name() is None,
{
    lemma_digests();
}

/// A line that starts with a plus sign is answered with a block of lines, one that starts with a
/// semicolon, a bar or a comma with a block that this character joins, and every other line
/// plainly.
pub proof fn law_line_prefixes(rest: Seq<char>, c: char)
    ensures
        erp_split(seq!['+'] + rest) == Some(('\n', rest)),
        erp_split(seq![';'] + rest) == Some((';', rest)),
        erp_split(seq!['|'] + rest) == Some(('|', rest)),
        erp_split(seq![','] + rest) == Some((',', rest)),
        c != '+' && c != ';' && c != '|' && c != ',' ==> erp_split(seq![c] + rest) is None,
        erp_split(Seq::empty()) is None,
{
    assert((seq!['+'] + rest).skip(1) =~= rest);
    assert((seq![';'] + rest).skip(1) =~= rest);
    assert((seq!['|'] + rest).skip(1) =~= rest);
    assert((seq![','] + rest).skip(1) =~= rest);
}

/// A block is its records in order, with the separator between each two, and a line end. The
/// echo that starts it is the name of the command, a colon, and the arguments.
pub proof fn law_blocks(
    sep: char,
    a: Seq<char>,
    b: Seq<char>,
    c: Seq<char>,
    token: Seq<char>,
    command: NetCommand,
    name: Seq<char>,
)
    ensures
        block(sep, seq![a]) == a + seq!['\n'],
        block(sep, seq![a, b]) == a + seq![sep] + b + seq!['\n'],
        block(sep, seq![a, b, c]) == a + seq![sep] + b + seq![sep] + c + seq!['\n'],
        NetCommand::named(token).full_name() == Some(name) ==> {
            &&& echoed(token, Seq::empty()) == name + ":"@
            &&& echoed(token, seq![a]) == name + ": "@ + a
            &&& echoed(token, seq![a, b]) == name + ": "@ + a + " "@ + b
        },
        NetCommand::named(token) == NetCommand::Unknown ==> echoed(token, Seq::empty()) == token
            + ":"@,
{
    reveal_with_fuel(joined, 4);
    let two = seq![a, b];
    let three = seq![a, b, c];
    assert(two.drop_last() =~= seq![a]);
    assert(three.drop_last() =~= two);
    assert(block(sep, seq![a]) =~= a + seq!['\n']);
    assert(block(sep, two) =~= a + seq![sep] + b + seq!['\n']);
    assert(block(sep, three) =~= a + seq![sep] + b + seq![sep] + c + seq!['\n']);
    reveal_strlit(" ");
    assert(joined(two, ' ') =~= a + " "@ + b);
    assert(name + ": "@ + joined(two, ' ') =~= name + ": "@ + a + " "@ + b);
}

/// An extended client that reads the frequency, the mode, the VFO or keying gets the name of the
/// command, the labeled value and the report, joined by its separator.
pub proof fn law_extended_reads(
    sep: char,
    rest: Seq<char>,
    ctx: ClientSessionContext,
    snapshot: Snapshot,
    dump: Seq<char>,
)
    requires
        ctx.perms.read,
        words_of(trimmed(rest)).len() > 0,
    ensures
        ({
            let command = NetCommand::named(words_of(trimmed(rest))[0]);
            let reply = ext_turn(sep, rest, ctx, snapshot, dump);
            &&& command == NetCommand::GetFreq ==> reply == LineTurn::Reply(
                "get_freq:"@ + seq![sep] + ("Frequency: "@ + decimal(
                    snapshot.operating().freq_hz as nat,
                )) + seq![sep] + "RPRT 0"@ + seq!['\n'],
            )
            &&& command == NetCommand::GetPtt ==> reply == LineTurn::Reply(
                "get_ptt:"@ + seq![sep] + (if snapshot.ptt {
                    "PTT: 1"@
                } else {
                    "PTT: 0"@
                }) + seq![sep] + "RPRT 0"@ + seq!['\n'],
            )
            &&& command == NetCommand::GetVfo ==> reply == LineTurn::Reply(
                "get_vfo:"@ + seq![sep] + (if !ctx.single_vfo && snapshot.rx_vfo
                    == crate::model::Vfo::B {
                    "VFO: VFOB"@
                } else {
                    "VFO: VFOA"@
                }) + seq![sep] + "RPRT 0"@ + seq!['\n'],
            )
        }),
{
    let command = NetCommand::named(words_of(trimmed(rest))[0]);
    reveal_strlit("PTT: ");
    reveal_strlit("PTT: 0");
    reveal_strlit("PTT: 1");
    reveal_strlit("VFO: ");
    reveal_strlit("VFOA");
    reveal_strlit("VFOB");
    reveal_strlit("VFO: VFOA");
    reveal_strlit("VFO: VFOB");
    assert("PTT: "@ + decimal(0) =~= "PTT: 0"@);
    assert("PTT: "@ + decimal(1) =~= "PTT: 1"@);
    assert("VFO: "@ + "VFOA"@ =~= "VFO: VFOA"@);
    assert("VFO: "@ + "VFOB"@ =~= "VFO: VFOB"@);
    if labeled_records(command, ctx.single_vfo, snapshot) is Some {
        let records = labeled_records(command, ctx.single_vfo, snapshot)->Some_0;
        if records.len() == 3 {
            law_blocks(
                sep,
                records[0],
                records[1],
                records[2],
                Seq::empty(),
                command,
                Seq::empty(),
            );
            assert(records =~= seq![records[0], records[1], records[2]]);
        }
    }
}

/// A write is reported once it is over: `RPRT 0` where it took effect and `RPRT -1` where it did
/// not, behind the echo for an extended client. A write that is made of two goes on to the second
/// one exactly when the first took effect, with the same wrapping.
pub proof fn law_writes_are_reported(
    mutation: StateMutation,
    class: CommandClass,
    next: StateMutation,
    sep: char,
    echo: Seq<char>,
    outcome: ApplyOutcome,
)
    requires
        after_prefix(echo, "RPRT"@) is None,
    ensures
        ({
            let plain = WriteTurn { mutation, class, follow: None, wrap: None };
            let wrapped = WriteTurn { mutation, class, follow: None, wrap: Some((sep, echo)) };
            let double = WriteTurn { mutation, class, follow: Some(next), wrap: None };
            let word = if outcome == ApplyOutcome::Applied {
                "RPRT 0"@
            } else {
                "RPRT -1"@
            };
            &&& after_write(plain, outcome) == LineTurn::Reply(word + seq!['\n'])
            &&& after_write(wrapped, outcome) == LineTurn::Reply(
                echo + seq![sep] + word + seq!['\n'],
            )
            &&& outcome == ApplyOutcome::Applied ==> after_write(double, outcome)
                == LineTurn::Apply(
                WriteTurn {
                    mutation: next,
                    class: CommandClass::ModeledWrite,
                    follow: None,
                    wrap: None,
                },
            )
            &&& outcome != ApplyOutcome::Applied ==> after_write(double, outcome)
                == LineTurn::Reply("RPRT -1"@ + seq!['\n'])
        }),
{
    reveal_strlit("RPRT");
    reveal_strlit("RPRT 0");
    reveal_strlit("RPRT -1");
    reveal_strlit("RPRT 0\n");
    reveal_strlit("RPRT -1\n");
    assert("RPRT 0"@.push('\n') =~= "RPRT 0\n"@);
    assert("RPRT -1"@.push('\n') =~= "RPRT -1\n"@);
    assert("RPRT 0"@ + seq!['\n'] =~= "RPRT 0\n"@);
    assert("RPRT -1"@ + seq!['\n'] =~= "RPRT -1\n"@);
    let word = if outcome == ApplyOutcome::Applied {
        "RPRT 0"@
    } else {
        "RPRT -1"@
    };
    assert(!word.contains('\n'));
    lemma_one_piece(Seq::empty(), word);
    assert(Seq::<char>::empty() + word =~= word);
    let records = seq![echo] + pieces(Seq::empty(), word.push('\n'));
    assert(records =~= seq![echo, word]);
    assert(word.take(4) =~= "RPRT"@);
    assert(after_prefix(records[1], "RPRT"@) is Some);
    assert(reported(records));
    law_blocks(sep, echo, word, word, word, NetCommand::Unknown, word);
}

/// A plain line does what its command does with the words that follow it, an extended one does
/// the same with the reply wrapped, and a line without words does nothing.
pub proof fn law_lines_are_dispatched(
    line: Seq<char>,
    ctx: ClientSessionContext,
    snapshot: Snapshot,
    dump: Seq<char>,
)
    requires
        erp_split(trimmed(line)) is None,
    ensures
        ({
            let words = words_of(trimmed(line));
            let turn = line_turn(line, ctx, snapshot, dump);
            &&& words.len() == 0 ==> turn == LineTurn::Reply(Seq::empty())
            &&& words.len() > 0 ==> match plain_turn(
                NetCommand::named(words[0]),
                words.skip(1),
                ctx,
                snapshot,
                dump,
            ) {
                PlainTurn::Quit => turn == LineTurn::Quit,
                PlainTurn::Reply(text) => turn == LineTurn::Reply(text),
                PlainTurn::Apply { mutation, class, follow } => turn == LineTurn::Apply(
                    WriteTurn { mutation, class, follow, wrap: None },
                ),
            }
        }),
{
}

/// The VFOs that a session can choose from: both, or VFO A alone for one that knows a single VFO.
pub proof fn law_vfo_list(sep: char)
    ensures
        vfo_list(sep, false) == "set_vfo: ?"@ + seq![sep] + "VFOA VFOB \nRPRT 0\n"@,
        vfo_list(sep, true) == "set_vfo: ?"@ + seq![sep] + "VFOA \nRPRT 0\n"@,
{
    reveal_strlit("set_vfo: ?");
    reveal_strlit("VFOA ");
    reveal_strlit("VFOA VFOB ");
    reveal_strlit("\nRPRT 0\n");
    reveal_strlit("VFOA VFOB \nRPRT 0\n");
    reveal_strlit("VFOA \nRPRT 0\n");
    assert(vfo_list(sep, false) =~= "set_vfo: ?"@ + seq![sep] + "VFOA VFOB \nRPRT 0\n"@);
    assert(vfo_list(sep, true) =~= "set_vfo: ?"@ + seq![sep] + "VFOA \nRPRT 0\n"@);
}

/// A line that comes in, with a carriage return before its end or without, is handed on without
/// either, and what follows it starts anew. A line of more than 4096 bytes ends the connection.
pub proof fn law_lines_come_in(partial: Seq<u8>, line: Seq<u8>, rest: Seq<u8>)
    requires
        forall|i: int| 0 <= i < line.len() ==> #[trigger] line[i] != 0x0a && line[i] != 0x0d,
        forall|i: int| 0 <= i < partial.len() ==> #[trigger] partial[i] != 0x0d,
        partial.len() + line.len() < 4096,
    ensures
        ({
            let (lines, left) = lines_fed(Seq::empty(), rest);
            let whole = partial + line;
            &&& lines_fed(partial, line + seq![0x0au8] + rest) == (seq![whole] + lines, left)
            &&& lines_fed(partial, line + seq![0x0du8, 0x0a] + rest) == (
                seq![whole] + lines,
                left,
            )
            &&& lines_fed(partial, line) == (Seq::<Seq<u8>>::empty(), Some(whole))
        }),
    decreases line.len(),
{
    let ended = line + seq![0x0au8] + rest;
    let returned = line + seq![0x0du8, 0x0a] + rest;
    if line.len() == 0 {
        assert(partial + line =~= partial);
        assert(line =~= Seq::empty());
        assert(ended[0] == 0x0a);
        assert(ended.skip(1) =~= rest);
        if partial.len() > 0 {
            assert(partial[partial.len() - 1] != 0x0d);
        }
        assert(returned[0] == 0x0d);
        let held = partial.push(0x0d);
        let after = returned.skip(1);
        assert(after[0] == 0x0a);
        assert(after.skip(1) =~= rest);
        assert(held.drop_last() =~= partial);
        reveal_with_fuel(lines_fed, 3);
    } else {
        let first = line[0];
        let others = line.skip(1);
        assert(first != 0x0a && first != 0x0d);
        let grown = partial.push(first);
        assert forall|i: int| 0 <= i < grown.len() implies #[trigger] grown[i] != 0x0d by {
            if i < partial.len() {
                assert(partial[i] != 0x0d);
            }
        }
        assert forall|i: int| 0 <= i < others.len() implies #[trigger] others[i] != 0x0a
            && others[i] != 0x0d by {
            assert(line[i + 1] != 0x0a && line[i + 1] != 0x0d);
        }
        law_lines_come_in(grown, others, rest);
        assert(grown + others =~= partial + line);
        assert(ended.skip(1) =~= others + seq![0x0au8] + rest);
        assert(returned.skip(1) =~= others + seq![0x0du8, 0x0a] + rest);
        assert(ended[0] == first && returned[0] == first);
    }
}

/// An extended client that asks for the VFOs is told them, whatever else its line says.
pub proof fn law_vfos_are_listed(
    sep: char,
    rest: Seq<char>,
    ctx: ClientSessionContext,
    snapshot: Snapshot,
    dump: Seq<char>,
)
    requires
        words_of(trimmed(rest)).len() > 1,
        NetCommand::named(words_of(trimmed(rest))[0]) == NetCommand::SetVfo,
        words_of(trimmed(rest))[1] == "?"@,
    ensures
        ext_turn(sep, rest, ctx, snapshot, dump) == LineTurn::Reply(vfo_list(sep, ctx.single_vfo)),
{
    let words = words_of(trimmed(rest));
    assert(words.skip(1)[0] == words[1]);
}

} // verus!
