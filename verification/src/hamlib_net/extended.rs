//! The Extended Response Protocol used by Log4OM-NG: replies made of records.

use vstd::prelude::*;

use crate::dialect::ApplyOutcome;
use crate::dialect::ClientSessionContext;
use crate::hamlib_net::command::NetCommand;
use crate::hamlib_net::plain::PlainStep;
use crate::hamlib_net::plain::PlainTurn;
use crate::hamlib_net::plain::dispatch_plain;
use crate::hamlib_net::plain::flag_line;
use crate::hamlib_net::plain::mode_lines;
use crate::hamlib_net::plain::number_line;
use crate::hamlib_net::plain::offset_line;
use crate::hamlib_net::plain::outcome_rprt;
use crate::hamlib_net::plain::parse_vfo_arg;
use crate::hamlib_net::plain::plain_turn;
use crate::hamlib_net::plain::presented_split;
use crate::hamlib_net::plain::presented_vfo;
use crate::hamlib_net::plain::presented_vfo_name;
use crate::hamlib_net::plain::read_text;
use crate::hamlib_net::plain::report;
use crate::hamlib_net::plain::rprt_einval;
use crate::hamlib_net::plain::rprt_enavail;
use crate::hamlib_net::plain::rprt_ok;
use crate::hamlib_net::plain::shown_name;
use crate::hamlib_net::plain::shown_split;
use crate::hamlib_net::plain::shown_vfo;
use crate::hamlib_net::plain::split_lines;
use crate::hamlib_net::plain::vfo_arg;
use crate::hamlib_net::plain::vfo_info_lines;
use crate::model::StateMutation;
use crate::model::Vfo;
use crate::permissions::CommandClass;
use crate::power::fraction_digits;
use crate::power::millionths_text;
use crate::power::parsed_millionths;
use crate::state::Snapshot;
use crate::state::VfoSnapshot;
use crate::text::after_prefix;
use crate::text::chars_of;
use crate::text::decimal;
use crate::text::is_empty_text;
use crate::text::push_decimal;
use crate::text::same_text;
use crate::text::signed_decimal;
use crate::text::string_of;
use crate::text::strip_prefix;
use crate::text::texts;
use crate::text::trim;
use crate::text::trimmed;
use crate::text::words;
use crate::text::words_of;

verus! {

/// How the reply to an extended command is wrapped.
#[derive(Debug, PartialEq, Eq)]
pub struct Wrap {
    /// What separates the records.
    pub sep: char,
    /// The first record.
    pub echo: String,
}

/// A write that a line asks for.
#[derive(Debug, PartialEq, Eq)]
pub struct NetWrite {
    /// The write.
    pub mutation: StateMutation,
    /// Its class.
    pub class: CommandClass,
    /// The modeled write that follows where it succeeds.
    pub follow: Option<StateMutation>,
    /// How the reply is wrapped.
    pub wrap: Option<Wrap>,
}

/// What a line does next.
#[derive(Debug, PartialEq, Eq)]
pub enum LineStep {
    /// Send the reply (nothing where it is empty).
    Reply(String),
    /// The client asked to quit; close the connection.
    Quit,
    /// Apply a write.
    Apply(NetWrite),
}

/// A write that a line asks for, as a value of the model.
pub struct WriteTurn {
    /// The write.
    pub mutation: StateMutation,
    /// Its class.
    pub class: CommandClass,
    /// The modeled write that follows where it succeeds.
    pub follow: Option<StateMutation>,
    /// How the reply is wrapped: the separator and the first record.
    pub wrap: Option<(char, Seq<char>)>,
}

/// What a line does next, as a value of the model.
pub enum LineTurn {
    /// Send the reply.
    Reply(Seq<char>),
    /// Close the connection.
    Quit,
    /// Apply a write.
    Apply(WriteTurn),
}

/// The separator and the first record of a wrapping.
pub open spec fn wrap_view(wrap: Option<Wrap>) -> Option<(char, Seq<char>)> {
    match wrap {
        Some(w) => Some((w.sep, w.echo@)),
        None => None,
    }
}

impl View for NetWrite {
    type V = WriteTurn;

    open spec fn view(&self) -> WriteTurn {
        WriteTurn {
            mutation: self.mutation,
            class: self.class,
            follow: self.follow,
            wrap: wrap_view(self.wrap),
        }
    }
}

impl View for LineStep {
    type V = LineTurn;

    open spec fn view(&self) -> LineTurn {
        match *self {
            LineStep::Reply(text) => LineTurn::Reply(text@),
            LineStep::Quit => LineTurn::Quit,
            LineStep::Apply(write) => LineTurn::Apply(write@),
        }
    }
}

/// The separator that a leading character of a line selects, and the rest of the line.
pub open spec fn erp_split(line: Seq<char>) -> Option<(char, Seq<char>)> {
    if line.len() == 0 {
        None
    } else if line[0] == '+' {
        Some(('\n', line.skip(1)))
    } else if line[0] == ';' || line[0] == '|' || line[0] == ',' {
        Some((line[0], line.skip(1)))
    } else {
        None
    }
}

/// Detect a leading Extended Response Protocol separator. A command prefixed with `+`
/// (newline-joined) or `;` / `|` / `,` (single-line, joined by that char) selects the
/// extended response format. Returns the record separator and the rest of the line.
#[must_use]
pub fn split_erp(line: &str) -> (r: Option<(char, String)>)
    ensures
        match r {
            Some((sep, rest)) => erp_split(line@) == Some((sep, rest@)),
            None => erp_split(line@) is None,
        },
{
    let v = chars_of(line);
    if v.len() == 0 {
        return None;
    }
    let sep: char = match v[0] {
        '+' => '\n',
        ';' | '|' | ',' => v[0],
        _ => return None,
    };
    let rest = string_of(&v, 1, v.len());
    proof {
        assert(rest@ =~= line@.skip(1));
    }
    Some((sep, rest))
}

/// Records with a separator between each two.
pub open spec fn joined(records: Seq<Seq<char>>, sep: char) -> Seq<char>
    decreases records.len(),
{
    if records.len() == 0 {
        Seq::empty()
    } else if records.len() == 1 {
        records[0]
    } else {
        joined(records.drop_last(), sep).push(sep) + records.last()
    }
}

fn push_joined(out: &mut String, records: &[String], sep: char)
    ensures
        final(out)@ == old(out)@ + joined(texts(records@), sep),
{
    let mut i: usize = 0;
    proof {
        assert(old(out)@ + joined(texts(records@).take(0), sep) =~= old(out)@);
    }
    while i < records.len()
        invariant
            i <= records@.len(),
            out@ == old(out)@ + joined(texts(records@).take(i as int), sep),
        decreases records@.len() - i,
    {
        if i > 0 {
            out.push(sep);
        }
        out.append(records[i].as_str());
        proof {
            let all = texts(records@);
            assert(all.take(i + 1).drop_last() =~= all.take(i as int));
            assert(all.take(i + 1).last() == records@[i as int]@);
            if i == 0 {
                assert(all.take(0) =~= Seq::empty());
                assert(out@ =~= old(out)@ + joined(all.take(1), sep));
            } else {
                assert(out@ =~= old(out)@ + joined(all.take(i + 1), sep));
            }
        }
        i = i + 1;
    }
    proof {
        assert(texts(records@).take(i as int) =~= texts(records@));
    }
}

/// A block of records, ended by a newline.
pub open spec fn block(sep: char, records: Seq<Seq<char>>) -> Seq<char> {
    joined(records, sep).push('\n')
}

/// Join Extended Response Protocol records (echo header, data records, `RPRT x`) with the
/// chosen separator and terminate the block with a newline, matching real `rigctld`.
#[must_use]
pub fn erp_records(sep: char, records: &[String]) -> (r: String)
    ensures
        r@ == block(sep, texts(records@)),
{
    let mut out = String::new();
    push_joined(&mut out, records, sep);
    out.push('\n');
    proof {
        assert(out@ =~= block(sep, texts(records@)));
    }
    out
}

/// The echo header of a command.
pub open spec fn echoed(token: Seq<char>, args: Seq<Seq<char>>) -> Seq<char> {
    let name = match NetCommand::named(token).full_name() {
        Some(name) => name,
        None => token,
    };
    if args.len() == 0 {
        name + ":"@
    } else {
        name + ": "@ + joined(args, ' ')
    }
}

/// Build the extended-response echo header for a command: the long name, a colon, and
/// (if any) the received arguments, e.g. `set_freq: 14200000` or `get_freq:`.
#[must_use]
pub fn ext_echo(token: &str, args: &[String]) -> (r: String)
    ensures
        r@ == echoed(token@, texts(args@)),
{
    let mut out = match NetCommand::resolve(token).long_name() {
        Some(name) => name.to_owned(),
        None => token.to_owned(),
    };
    if args.len() == 0 {
        out.append(":");
    } else {
        out.append(": ");
        push_joined(&mut out, args, ' ');
    }
    out
}

/// The pieces of a text between newlines, without the empty ones, where `start` has been
/// read of the first piece.
pub open spec fn pieces(start: Seq<char>, text: Seq<char>) -> Seq<Seq<char>>
    decreases text.len(),
{
    let done = if start.len() == 0 {
        Seq::empty()
    } else {
        seq![start]
    };
    if text.len() == 0 {
        done
    } else if text[0] == '\n' {
        done + pieces(Seq::empty(), text.skip(1))
    } else {
        pieces(start.push(text[0]), text.skip(1))
    }
}

fn push_pieces(records: &mut Vec<String>, text: &str)
    ensures
        texts(final(records)@) == texts(old(records)@) + pieces(Seq::empty(), text@),
{
    let v = chars_of(text);
    let mut start = String::new();
    let mut i: usize = 0;
    let ghost before = texts(records@);
    proof {
        assert(v@.skip(0) =~= v@);
        assert(start@ =~= Seq::empty());
    }
    while i < v.len()
        invariant
            i <= v@.len(),
            v@ == text@,
            texts(records@) + pieces(start@, v@.skip(i as int)) == before + pieces(
                Seq::empty(),
                text@,
            ),
        decreases v@.len() - i,
    {
        let ghost held = texts(records@);
        let ghost rest = v@.skip(i + 1);
        proof {
            assert(v@.skip(i as int).skip(1) =~= rest);
        }
        if v[i] == '\n' {
            let mut piece = String::new();
            std::mem::swap(&mut start, &mut piece);
            proof {
                assert(start@ =~= Seq::empty());
            }
            if !is_empty_text(piece.as_str()) {
                let ghost said = piece@;
                records.push(piece);
                proof {
                    assert(texts(records@) =~= held.push(said));
                    assert(held + (seq![said] + pieces(Seq::empty(), rest)) =~= held.push(said)
                        + pieces(Seq::empty(), rest));
                }
            } else {
                proof {
                    assert(Seq::<Seq<char>>::empty() + pieces(Seq::empty(), rest) =~= pieces(
                        Seq::empty(),
                        rest,
                    ));
                }
            }
        } else {
            start.push(v[i]);
        }
        i = i + 1;
    }
    let ghost held = texts(records@);
    proof {
        assert(v@.skip(i as int) =~= Seq::empty());
    }
    if !is_empty_text(start.as_str()) {
        let ghost said = start@;
        records.push(start);
        proof {
            assert(texts(records@) =~= held + seq![said]);
        }
    } else {
        proof {
            assert(held + Seq::<Seq<char>>::empty() =~= held);
        }
    }
}

/// Whether one of the records is a report.
pub open spec fn reported(records: Seq<Seq<char>>) -> bool {
    exists|i: int|
        0 <= i < records.len() && after_prefix(#[trigger] records[i], "RPRT"@) is Some
}

/// The records of a plain reply: the echo header, the lines of the reply, and a report where
/// there is none among them.
pub open spec fn closed_records(echo: Seq<char>, reply: Seq<char>) -> Seq<Seq<char>> {
    let records = seq![echo] + pieces(Seq::empty(), reply);
    if reported(records) {
        records
    } else {
        records.push("RPRT 0"@)
    }
}

/// A reply as it is sent: as it is, or wrapped into a block of records.
pub open spec fn wrapped(wrap: Option<(char, Seq<char>)>, reply: Seq<char>) -> Seq<char> {
    match wrap {
        Some((sep, echo)) => block(sep, closed_records(echo, reply)),
        None => reply,
    }
}

fn is_reported(records: &Vec<String>) -> (r: bool)
    ensures
        r == reported(texts(records@)),
{
    let mut i: usize = 0;
    while i < records.len()
        invariant
            i <= records@.len(),
            forall|j: int|
                0 <= j < i ==> after_prefix(#[trigger] texts(records@)[j], "RPRT"@) is None,
        decreases records@.len() - i,
    {
        if strip_prefix(records[i].as_str(), "RPRT").is_some() {
            proof {
                assert(after_prefix(texts(records@)[i as int], "RPRT"@) is Some);
            }
            return true;
        }
        i = i + 1;
    }
    false
}

/// The reply to a plain command as it is sent.
#[must_use]
pub fn wrap_reply(wrap: Option<Wrap>, reply: String) -> (r: String)
    ensures
        r@ == wrapped(wrap_view(wrap), reply@),
{
    match wrap {
        None => reply,
        Some(w) => {
            let mut records: Vec<String> = Vec::new();
            let ghost echo = w.echo@;
            records.push(w.echo);
            proof {
                assert(texts(records@) =~= seq![echo]);
            }
            push_pieces(&mut records, reply.as_str());
            // An extended client reads until it sees a terminating `RPRT` record. Plain gets
            // return data only, with no `RPRT`, so a client would block waiting for a
            // terminator that never arrives. Guarantee one.
            let ghost held = texts(records@);
            if !is_reported(&records) {
                records.push("RPRT 0".to_owned());
                proof {
                    assert(texts(records@) =~= held.push("RPRT 0"@));
                }
            }
            erp_records(w.sep, records.as_slice())
        },
    }
}

/// The answer to `set_vfo ?`: the supported VFOs. Their line ends with a newline whatever the
/// separator is, matching real `rigctld`.
pub open spec fn vfo_list(sep: char, single_vfo: bool) -> Seq<char> {
    "set_vfo: ?"@.push(sep) + (if single_vfo {
        "VFOA "@
    } else {
        "VFOA VFOB "@
    }) + "\nRPRT 0\n"@
}

/// The records of `get_vfo_info`.
pub open spec fn info_records(
    token: Seq<char>,
    args: Seq<Seq<char>>,
    reads: bool,
    single_vfo: bool,
    snapshot: Snapshot,
) -> Seq<Seq<char>> {
    if !reads {
        seq![echoed(token, args), "RPRT -1"@]
    } else {
        let vfo = shown_vfo(single_vfo, snapshot, vfo_arg(args, 0));
        let v = snapshot.of(vfo);
        seq![
            "get_vfo_info: "@ + shown_name(single_vfo, vfo),
            "Freq: "@ + decimal(v.freq_hz as nat),
            "Mode: "@ + v.mode.data_token(v.data),
            "Width: "@ + decimal(v.passband_hz as nat),
            "Split: "@ + decimal(
                if shown_split(single_vfo, snapshot) {
                    1
                } else {
                    0
                },
            ),
            "SatMode: 0"@,
            "RPRT 0"@,
        ]
    }
}

/// The records of the reads that label their values.
pub open spec fn labeled_records(command: NetCommand, single_vfo: bool, snapshot: Snapshot) -> Option<
    Seq<Seq<char>>,
> {
    let v = snapshot.operating();
    match command {
        NetCommand::GetFreq => Some(
            seq!["get_freq:"@, "Frequency: "@ + decimal(v.freq_hz as nat), "RPRT 0"@],
        ),
        NetCommand::GetMode => Some(
            seq![
                "get_mode:"@,
                "Mode: "@ + v.mode.data_token(v.data),
                "Passband: "@ + decimal(v.passband_hz as nat),
                "RPRT 0"@,
            ],
        ),
        NetCommand::GetVfo => Some(
            seq!["get_vfo:"@, "VFO: "@ + shown_name(single_vfo, snapshot.rx_vfo), "RPRT 0"@],
        ),
        NetCommand::GetPtt => Some(
            seq![
                "get_ptt:"@,
                "PTT: "@ + decimal(
                    if snapshot.ptt {
                        1
                    } else {
                        0
                    },
                ),
                "RPRT 0"@,
            ],
        ),
        _ => None,
    }
}

/// What a plain command does once its reply is wrapped. Within a block a request to quit is
/// answered with nothing.
pub open spec fn wrapped_turn(turn: PlainTurn, sep: char, echo: Seq<char>) -> LineTurn {
    match turn {
        PlainTurn::Quit => LineTurn::Reply(Seq::empty()),
        PlainTurn::Reply(text) => LineTurn::Reply(wrapped(Some((sep, echo)), text)),
        PlainTurn::Apply { mutation, class, follow } => LineTurn::Apply(
            WriteTurn { mutation, class, follow, wrap: Some((sep, echo)) },
        ),
    }
}

/// What an extended line does.
pub open spec fn ext_turn(
    sep: char,
    rest: Seq<char>,
    ctx: ClientSessionContext,
    snapshot: Snapshot,
    dump: Seq<char>,
) -> LineTurn {
    let tokens = words_of(trimmed(rest));
    if tokens.len() == 0 {
        LineTurn::Reply(Seq::empty())
    } else {
        let token = tokens[0];
        let args = tokens.skip(1);
        let command = NetCommand::named(token);
        let reads = ctx.perms.permits(CommandClass::ModeledRead);
        if command == NetCommand::SetVfo && args.len() > 0 && args[0] == "?"@ {
            LineTurn::Reply(vfo_list(sep, ctx.single_vfo))
        } else if command == NetCommand::GetVfoInfo {
            LineTurn::Reply(
                block(sep, info_records(token, args, reads, ctx.single_vfo, snapshot)),
            )
        } else if reads && labeled_records(command, ctx.single_vfo, snapshot) is Some {
            LineTurn::Reply(
                block(sep, labeled_records(command, ctx.single_vfo, snapshot)->Some_0),
            )
        } else {
            wrapped_turn(
                plain_turn(command, args, ctx, snapshot, dump),
                sep,
                echoed(token, args),
            )
        }
    }
}

fn labeled_text(label: &str, text: &str) -> (r: String)
    ensures
        r@ == label@ + text@,
{
    let mut out = label.to_owned();
    out.append(text);
    out
}

fn labeled_number(label: &str, n: u64) -> (r: String)
    ensures
        r@ == label@ + decimal(n as nat),
{
    let mut out = label.to_owned();
    push_decimal(&mut out, n);
    out
}

fn digit_of(on: bool) -> (r: u64)
    ensures
        r == if on {
            1u64
        } else {
            0u64
        },
{
    if on {
        1
    } else {
        0
    }
}

fn info_reply(
    token: &str,
    args: &[String],
    reads: bool,
    ctx: &ClientSessionContext,
    snapshot: &Snapshot,
) -> (r: Vec<String>)
    ensures
        texts(r@) == info_records(token@, texts(args@), reads, ctx.single_vfo, *snapshot),
{
    let mut records: Vec<String> = Vec::new();
    if !reads {
        records.push(ext_echo(token, args));
        records.push("RPRT -1".to_owned());
    } else {
        let vfo = presented_vfo(ctx, snapshot, parse_vfo_arg(args, 0));
        let v = snapshot.vfo(vfo);
        records.push(labeled_text("get_vfo_info: ", presented_vfo_name(ctx, vfo)));
        records.push(labeled_number("Freq: ", v.freq_hz));
        records.push(labeled_text("Mode: ", v.mode.hamlib_token_with_data(v.data)));
        records.push(labeled_number("Width: ", v.passband_hz as u64));
        records.push(labeled_number("Split: ", digit_of(presented_split(ctx, snapshot))));
        records.push("SatMode: 0".to_owned());
        records.push("RPRT 0".to_owned());
    }
    proof {
        assert(texts(records@) =~= info_records(
            token@,
            texts(args@),
            reads,
            ctx.single_vfo,
            *snapshot,
        ));
    }
    records
}

fn labeled_reply(command: NetCommand, ctx: &ClientSessionContext, snapshot: &Snapshot) -> (r:
    Option<Vec<String>>)
    ensures
        match r {
            Some(records) => labeled_records(command, ctx.single_vfo, *snapshot) == Some(
                texts(records@),
            ),
            None => labeled_records(command, ctx.single_vfo, *snapshot) is None,
        },
{
    let v = snapshot.vfo(snapshot.rx_vfo);
    let mut records: Vec<String> = Vec::new();
    match command {
        NetCommand::GetFreq => {
            records.push("get_freq:".to_owned());
            records.push(labeled_number("Frequency: ", v.freq_hz));
        },
        NetCommand::GetMode => {
            records.push("get_mode:".to_owned());
            records.push(labeled_text("Mode: ", v.mode.hamlib_token_with_data(v.data)));
            records.push(labeled_number("Passband: ", v.passband_hz as u64));
        },
        NetCommand::GetVfo => {
            records.push("get_vfo:".to_owned());
            records.push(labeled_text("VFO: ", presented_vfo_name(ctx, snapshot.rx_vfo)));
        },
        NetCommand::GetPtt => {
            records.push("get_ptt:".to_owned());
            records.push(labeled_number("PTT: ", digit_of(snapshot.ptt)));
        },
        _ => return None,
    }
    records.push("RPRT 0".to_owned());
    proof {
        assert(texts(records@) =~= labeled_records(command, ctx.single_vfo, *snapshot)->Some_0);
    }
    Some(records)
}

/// Handle one Extended Response Protocol line. Log4OM-NG opens every session with `;V ?` (list
/// supported VFOs) and then polls with `+\get_vfo_info VFOA`, so those two shapes are formatted
/// explicitly; the common labeled gets are also supported, and any other command (sets,
/// unknown) is wrapped generically as the echo and the plain reply.
#[must_use]
pub fn handle_ext(
    sep: char,
    rest: &str,
    ctx: &ClientSessionContext,
    snapshot: &Snapshot,
    dump: &str,
) -> (r: LineStep)
    ensures
        r@ == ext_turn(sep, rest@, *ctx, *snapshot, dump@),
{
    let line = trim(rest);
    let tokens = words(line.as_str());
    if tokens.len() == 0 {
        proof {
            reveal_strlit("");
            assert(""@ =~= Seq::empty());
        }
        return LineStep::Reply("".to_owned());
    }
    let token = tokens[0].as_str();
    let args = vstd::slice::slice_subrange(tokens.as_slice(), 1, tokens.len());
    proof {
        assert(texts(args@) =~= texts(tokens@).skip(1));
    }
    let command = NetCommand::resolve(token);
    let reads: bool = ctx.perms.allows(CommandClass::ModeledRead);
    if command == NetCommand::SetVfo && args.len() > 0 && same_text(args[0].as_str(), "?") {
        let mut out = "set_vfo: ?".to_owned();
        out.push(sep);
        out.append(
            if ctx.single_vfo() {
                "VFOA "
            } else {
                "VFOA VFOB "
            },
        );
        out.append("\nRPRT 0\n");
        return LineStep::Reply(out);
    }
    if command == NetCommand::GetVfoInfo {
        let records = info_reply(token, args, reads, ctx, snapshot);
        return LineStep::Reply(erp_records(sep, records.as_slice()));
    }
    if reads {
        if let Some(records) = labeled_reply(command, ctx, snapshot) {
            return LineStep::Reply(erp_records(sep, records.as_slice()));
        }
    }
    let echo = ext_echo(token, args);
    match dispatch_plain(command, args, ctx, snapshot, dump) {
        PlainStep::Quit => {
            proof {
                reveal_strlit("");
                assert(""@ =~= Seq::empty());
            }
            LineStep::Reply("".to_owned())
        },
        PlainStep::Reply(text) => LineStep::Reply(wrap_reply(Some(Wrap { sep, echo }), text)),
        PlainStep::Apply { mutation, class, follow } => LineStep::Apply(
            NetWrite { mutation, class, follow, wrap: Some(Wrap { sep, echo }) },
        ),
    }
}

/// What a line does.
pub open spec fn line_turn(
    line: Seq<char>,
    ctx: ClientSessionContext,
    snapshot: Snapshot,
    dump: Seq<char>,
) -> LineTurn {
    let text = trimmed(line);
    match erp_split(text) {
        Some((sep, rest)) => ext_turn(sep, rest, ctx, snapshot, dump),
        None => {
            let tokens = words_of(text);
            if tokens.len() == 0 {
                LineTurn::Reply(Seq::empty())
            } else {
                match plain_turn(
                    NetCommand::named(tokens[0]),
                    tokens.skip(1),
                    ctx,
                    snapshot,
                    dump,
                ) {
                    PlainTurn::Quit => LineTurn::Quit,
                    PlainTurn::Reply(reply) => LineTurn::Reply(reply),
                    PlainTurn::Apply { mutation, class, follow } => LineTurn::Apply(
                        WriteTurn { mutation, class, follow, wrap: None },
                    ),
                }
            }
        },
    }
}

/// Handle one rigctld protocol line against the universal state, dispatching the Extended
/// Response Protocol (separator-prefixed) path used by Log4OM-NG separately from the plain
/// protocol used by WSJT-X and N1MM.
#[must_use]
pub fn handle_line(line: &str, ctx: &ClientSessionContext, snapshot: &Snapshot, dump: &str) -> (r:
    LineStep)
    ensures
        r@ == line_turn(line@, *ctx, *snapshot, dump@),
{
    let text = trim(line);
    if let Some((sep, rest)) = split_erp(text.as_str()) {
        return handle_ext(sep, rest.as_str(), ctx, snapshot, dump);
    }
    let tokens = words(text.as_str());
    if tokens.len() == 0 {
        proof {
            reveal_strlit("");
            assert(""@ =~= Seq::empty());
        }
        return LineStep::Reply("".to_owned());
    }
    let args = vstd::slice::slice_subrange(tokens.as_slice(), 1, tokens.len());
    proof {
        assert(texts(args@) =~= texts(tokens@).skip(1));
    }
    match dispatch_plain(NetCommand::resolve(tokens[0].as_str()), args, ctx, snapshot, dump) {
        PlainStep::Quit => LineStep::Quit,
        PlainStep::Reply(reply) => LineStep::Reply(reply),
        PlainStep::Apply { mutation, class, follow } => LineStep::Apply(
            NetWrite { mutation, class, follow, wrap: None },
        ),
    }
}

/// What a line does once its write has an outcome: the write that follows, or the report.
pub open spec fn after_write(write: WriteTurn, outcome: ApplyOutcome) -> LineTurn {
    match write.follow {
        Some(next) if outcome == ApplyOutcome::Applied => LineTurn::Apply(
            WriteTurn {
                mutation: next,
                class: CommandClass::ModeledWrite,
                follow: None,
                wrap: write.wrap,
            },
        ),
        _ => LineTurn::Reply(wrapped(write.wrap, report(outcome))),
    }
}

/// What a line does once its write has an outcome.
#[must_use]
pub fn finish_write(write: NetWrite, outcome: ApplyOutcome) -> (r: LineStep)
    ensures
        r@ == after_write(write@, outcome),
{
    if outcome == ApplyOutcome::Applied {
        if let Some(next) = write.follow {
            return LineStep::Apply(
                NetWrite {
                    mutation: next,
                    class: CommandClass::ModeledWrite,
                    follow: None,
                    wrap: write.wrap,
                },
            );
        }
    }
    LineStep::Reply(wrap_reply(write.wrap, outcome_rprt(outcome)))
}

/// Whether a text ends with a newline and its last record, behind a separator or a newline,
/// is a report.
pub open spec fn ends_with_report(text: Seq<char>, sep: char) -> bool {
    exists|at: int| #[trigger] last_report_at(text, sep, at)
}

/// Whether the last record of a text is a report, starts at `at` and is ended by a newline.
pub open spec fn last_report_at(text: Seq<char>, sep: char, at: int) -> bool {
    &&& 0 < at < text.len()
    &&& text.last() == '\n'
    &&& text[at - 1] == sep || text[at - 1] == '\n'
    &&& report_record(text.subrange(at, text.len() - 1), sep)
}

/// Whether a record is a report, and one record only.
pub open spec fn report_record(record: Seq<char>, sep: char) -> bool {
    &&& after_prefix(record, "RPRT"@) is Some
    &&& !record.contains(sep)
    &&& !record.contains('\n')
}

/// Whether a character separates records.
pub open spec fn is_separator(sep: char) -> bool {
    sep == '\n' || sep == ';' || sep == '|' || sep == ','
}

/// A block whose last record is a report ends with it.
proof fn lemma_block_reports(sep: char, records: Seq<Seq<char>>)
    requires
        records.len() > 1,
        report_record(records.last(), sep),
    ensures
        ends_with_report(block(sep, records), sep),
{
    let head = joined(records.drop_last(), sep);
    let text = block(sep, records);
    let at = head.len() as int + 1;
    reveal_strlit("RPRT");
    assert(text.subrange(at, text.len() - 1) =~= records.last());
    assert(last_report_at(text, sep, at));
}

/// The reports that are sent are records.
proof fn lemma_reports(sep: char)
    requires
        is_separator(sep),
    ensures
        report_record("RPRT 0"@, sep),
        report_record("RPRT -1"@, sep),
        report_record("RPRT -11"@, sep),
{
    reveal_strlit("RPRT");
    reveal_strlit("RPRT 0");
    reveal_strlit("RPRT -1");
    reveal_strlit("RPRT -11");
    assert("RPRT 0"@.take(4) =~= "RPRT"@);
    assert("RPRT -1"@.take(4) =~= "RPRT"@);
    assert("RPRT -11"@.take(4) =~= "RPRT"@);
}

/// A line that is not empty is one piece.
pub(crate) proof fn lemma_one_piece(start: Seq<char>, line: Seq<char>)
    requires
        start.len() + line.len() > 0,
        !line.contains('\n'),
    ensures
        pieces(start, line.push('\n')) == seq![start + line],
    decreases line.len(),
{
    let text = line.push('\n');
    if line.len() == 0 {
        assert(text.skip(1) =~= Seq::empty());
        assert(start + line =~= start);
        assert(pieces(Seq::empty(), text.skip(1)) =~= Seq::empty());
        assert(seq![start] + Seq::<Seq<char>>::empty() =~= seq![start]);
    } else {
        assert(text[0] == line[0]);
        assert(line.contains(line[0]));
        assert(text.skip(1) =~= line.skip(1).push('\n'));
        assert(!line.skip(1).contains('\n')) by {
            if line.skip(1).contains('\n') {
                let j = line.skip(1).index_of('\n');
                assert(line[j + 1] == '\n');
            }
        }
        lemma_one_piece(start.push(line[0]), line.skip(1));
        assert(start.push(line[0]) + line.skip(1) =~= start + line);
    }
}

/// Whether no `R` is followed by a `P` in a text, so that no report can start in it.
spec fn quiet(text: Seq<char>) -> bool {
    forall|i: int| 0 <= i && i + 1 < text.len() && #[trigger] text[i] == 'R' ==> text[i + 1] != 'P'
}

#[verifier::spinoff_prover]
proof fn lemma_quiet_pieces(start: Seq<char>, text: Seq<char>)
    requires
        quiet(start + text),
    ensures
        !reported(pieces(start, text)),
    decreases text.len(),
{
    reveal_strlit("RPRT");
    let found = pieces(start, text);
    let done = if start.len() == 0 {
        Seq::empty()
    } else {
        seq![start]
    };
    assert(after_prefix(start, "RPRT"@) is None) by {
        if after_prefix(start, "RPRT"@) is Some {
            assert(start.take(4)[0] == 'R' && start.take(4)[1] == 'P');
            assert((start + text)[0] == 'R' && (start + text)[1] == 'P');
        }
    }
    if text.len() > 0 && text[0] == '\n' {
        let more = pieces(Seq::empty(), text.skip(1));
        let rest = Seq::<char>::empty() + text.skip(1);
        assert forall|i: int|
            0 <= i && i + 1 < rest.len() && #[trigger] rest[i] == 'R' implies rest[i + 1] != 'P' by {
            assert((start + text)[i + start.len() as int + 1] == rest[i]);
            assert((start + text)[i + start.len() as int + 2] == rest[i + 1]);
        }
        lemma_quiet_pieces(Seq::empty(), text.skip(1));
        assert forall|i: int| 0 <= i < found.len() implies after_prefix(
            #[trigger] found[i],
            "RPRT"@,
        ) is None by {
            if i >= done.len() {
                assert(found[i] == more[i - done.len()]);
            }
        }
    } else if text.len() > 0 {
        assert(start.push(text[0]) + text.skip(1) =~= start + text);
        lemma_quiet_pieces(start.push(text[0]), text.skip(1));
    }
}

proof fn lemma_quiet_sum(a: Seq<char>, b: Seq<char>)
    requires
        quiet(a),
        quiet(b),
        a.len() > 0,
        a.last() != 'R',
    ensures
        quiet(a + b),
{
    let all = a + b;
    assert forall|i: int| 0 <= i && i + 1 < all.len() && #[trigger] all[i] == 'R' implies all[i + 1]
        != 'P' by {
        if i + 1 < a.len() {
            assert(a[i] == 'R');
        } else if i >= a.len() {
            assert(b[i - a.len()] == 'R');
            assert(b[i - a.len() + 1] == all[i + 1]);
        }
    }
}

/// Numbers hold no letter.
proof fn lemma_decimal_chars(n: nat)
    ensures
        decimal(n).len() > 0,
        forall|i: int| 0 <= i < decimal(n).len() ==> #[trigger] decimal(n)[i] != 'R',
    decreases n,
{
    if n >= 10 {
        lemma_decimal_chars(n / 10);
    }
}

proof fn lemma_fraction_chars(n: nat, scale: nat)
    requires
        scale == 100_000 || scale == 10_000 || scale == 1_000 || scale == 100 || scale == 10
            || scale == 1 || scale == 0,
        n == 0 || n < scale * 10,
    ensures
        forall|i: int|
            0 <= i < fraction_digits(n, scale).len() ==> #[trigger] fraction_digits(n, scale)[i]
                != 'R',
    decreases scale,
{
    if n > 0 && scale > 0 {
        lemma_fraction_chars(n % scale, scale / 10);
        let digits = fraction_digits(n, scale);
        assert forall|i: int| 0 <= i < digits.len() implies #[trigger] digits[i] != 'R' by {
            if i > 0 {
                assert(digits[i] == fraction_digits(n % scale, scale / 10)[i - 1]);
            }
        }
    }
}

/// A line that holds a number holds no report.
proof fn lemma_number_quiet(n: nat)
    ensures
        quiet(number_line(n)),
        number_line(n).len() > 0,
        number_line(n).last() == '\n',
{
    lemma_decimal_chars(n);
}

/// A line without an `R` holds no report.
proof fn lemma_plain_quiet(line: Seq<char>)
    requires
        forall|i: int| 0 <= i < line.len() ==> #[trigger] line[i] != 'R',
    ensures
        quiet(line.push('\n')),
{
}

#[verifier::spinoff_prover]
proof fn lemma_mode_quiet(v: VfoSnapshot)
    ensures
        quiet(mode_lines(v)),
        mode_lines(v).len() > 0,
        mode_lines(v).last() == '\n',
{
    reveal_strlit("LSB");
    reveal_strlit("USB");
    reveal_strlit("CW");
    reveal_strlit("CWR");
    reveal_strlit("RTTY");
    reveal_strlit("RTTYR");
    reveal_strlit("AM");
    reveal_strlit("FM");
    reveal_strlit("PKTUSB");
    reveal_strlit("PKTLSB");
    reveal_strlit("PKTFM");
    reveal_strlit("PKTAM");
    lemma_number_quiet(v.passband_hz as nat);
    let mode = v.mode.data_token(v.data).push('\n');
    lemma_quiet_sum(mode, number_line(v.passband_hz as nat));
}

proof fn lemma_flag_quiet(on: bool)
    ensures
        quiet(flag_line(on)),
        flag_line(on).len() > 0,
        flag_line(on).last() == '\n',
{
    lemma_number_quiet(0);
    lemma_number_quiet(1);
}

proof fn lemma_name_quiet(single_vfo: bool, vfo: Vfo)
    ensures
        quiet(shown_name(single_vfo, vfo).push('\n')),
{
    reveal_strlit("VFOA");
    reveal_strlit("VFOB");
    lemma_plain_quiet(shown_name(single_vfo, vfo));
}

#[verifier::spinoff_prover]
proof fn lemma_info_quiet(single_vfo: bool, snapshot: Snapshot, requested: Vfo)
    ensures
        quiet(vfo_info_lines(single_vfo, snapshot, requested)),
{
    reveal_strlit("0\n");
    let v = snapshot.of(shown_vfo(single_vfo, snapshot, requested));
    let first = number_line(v.freq_hz as nat);
    let modes = mode_lines(v);
    let flag = flag_line(shown_split(single_vfo, snapshot));
    lemma_number_quiet(v.freq_hz as nat);
    lemma_mode_quiet(v);
    lemma_flag_quiet(shown_split(single_vfo, snapshot));
    lemma_quiet_sum(first, modes);
    lemma_quiet_sum(first + modes, flag);
    lemma_quiet_sum(first + modes + flag, "0\n"@);
}

#[verifier::spinoff_prover]
proof fn lemma_split_quiet(single_vfo: bool, snapshot: Snapshot)
    ensures
        quiet(split_lines(single_vfo, snapshot)),
{
    let split = shown_split(single_vfo, snapshot);
    let tx = if split {
        snapshot.tx_vfo
    } else {
        snapshot.rx_vfo
    };
    lemma_flag_quiet(split);
    lemma_name_quiet(single_vfo, tx);
    lemma_quiet_sum(flag_line(split), shown_name(single_vfo, tx).push('\n'));
}

#[verifier::spinoff_prover]
proof fn lemma_offset_quiet(enabled: bool, offset_hz: i32)
    ensures
        quiet(offset_line(enabled, offset_hz)),
{
    let n = if enabled {
        offset_hz as int
    } else {
        0
    };
    lemma_decimal_chars(n as nat);
    lemma_decimal_chars((-n) as nat);
    lemma_plain_quiet(signed_decimal(n));
}

#[verifier::spinoff_prover]
proof fn lemma_millionths_quiet(n: nat)
    ensures
        quiet(millionths_text(n).push('\n')),
{
    lemma_decimal_chars(n / 1_000_000);
    lemma_fraction_chars(n % 1_000_000, 100_000);
    lemma_plain_quiet(millionths_text(n));
}

/// What is read of the state is a report alone, or holds none.
#[verifier::spinoff_prover]
proof fn lemma_read_text(
    command: NetCommand,
    args: Seq<Seq<char>>,
    snapshot: Snapshot,
    single_vfo: bool,
)
    ensures
        read_text(command, args, snapshot, single_vfo) matches Some(text) ==> quiet(text) || text
            == rprt_enavail(),
{
    match command {
        NetCommand::GetFreq => lemma_number_quiet(snapshot.operating().freq_hz as nat),
        NetCommand::GetMode => lemma_mode_quiet(snapshot.operating()),
        NetCommand::GetVfo => lemma_name_quiet(single_vfo, snapshot.rx_vfo),
        NetCommand::GetVfoInfo => lemma_info_quiet(single_vfo, snapshot, vfo_arg(args, 0)),
        NetCommand::GetSplitVfo => lemma_split_quiet(single_vfo, snapshot),
        NetCommand::GetSplitFreq => lemma_number_quiet(
            snapshot.of(snapshot.tx_vfo).freq_hz as nat,
        ),
        NetCommand::GetSplitMode => lemma_mode_quiet(snapshot.of(snapshot.tx_vfo)),
        NetCommand::GetLevel => {
            if let Some(power) = snapshot.tx_power {
                lemma_millionths_quiet(power.relative());
            }
        },
        NetCommand::PowerToMilliwatts => {
            match (snapshot.tx_power, parsed_millionths(args[0])) {
                (Some(power), Some(relative)) => lemma_number_quiet(
                    power.max_watts as nat * relative / 1000,
                ),
                _ => {},
            }
        },
        NetCommand::GetPtt => lemma_flag_quiet(snapshot.ptt),
        NetCommand::GetPowerstat => lemma_flag_quiet(snapshot.power_on),
        NetCommand::GetRit => lemma_offset_quiet(snapshot.rit_enabled, snapshot.rit_offset_hz),
        NetCommand::GetXit => lemma_offset_quiet(snapshot.xit_enabled, snapshot.xit_offset_hz),
        _ => {},
    }
}

/// The echo of a command that is served is no report.
#[verifier::spinoff_prover]
proof fn lemma_echo(token: Seq<char>, args: Seq<Seq<char>>)
    requires
        NetCommand::named(token).full_name() is Some,
    ensures
        after_prefix(echoed(token, args), "RPRT"@) is None,
{
    reveal_strlit("RPRT");
    reveal_strlit("get_freq");
    reveal_strlit("get_mode");
    reveal_strlit("get_vfo");
    reveal_strlit("get_vfo_info");
    reveal_strlit("get_split_vfo");
    reveal_strlit("get_split_freq");
    reveal_strlit("get_split_mode");
    reveal_strlit("get_level");
    reveal_strlit("power2mW");
    reveal_strlit("get_ptt");
    reveal_strlit("get_powerstat");
    reveal_strlit("dump_state");
    reveal_strlit("chk_vfo");
    reveal_strlit("set_freq");
    reveal_strlit("set_mode");
    reveal_strlit("set_split_vfo");
    reveal_strlit("set_ptt");
    reveal_strlit("set_vfo");
    reveal_strlit("get_rit");
    reveal_strlit("get_xit");
    reveal_strlit("set_rit");
    reveal_strlit("set_xit");
    let echo = echoed(token, args);
    assert(echo.len() > 0 && echo[0] != 'R');
    if after_prefix(echo, "RPRT"@) is Some {
        assert(echo.take(4)[0] == 'R');
    }
}

/// A reply that is a report alone, or holds none, is closed by a report once it is wrapped.
#[verifier::spinoff_prover]
proof fn lemma_wrapped_reports(sep: char, echo: Seq<char>, reply: Seq<char>)
    requires
        is_separator(sep),
        ({
            ||| reply == rprt_ok()
            ||| reply == rprt_einval()
            ||| reply == rprt_enavail()
            ||| after_prefix(echo, "RPRT"@) is None && !reported(pieces(Seq::empty(), reply))
        }),
    ensures
        ends_with_report(wrapped(Some((sep, echo)), reply), sep),
{
    let found = pieces(Seq::empty(), reply);
    let records = seq![echo] + found;
    lemma_reports(sep);
    if reply == rprt_ok() || reply == rprt_einval() || reply == rprt_enavail() {
        reveal_strlit("RPRT 0");
        reveal_strlit("RPRT -1");
        reveal_strlit("RPRT -11");
        reveal_strlit("RPRT 0\n");
        reveal_strlit("RPRT -1\n");
        reveal_strlit("RPRT -11\n");
        let line = if reply == rprt_ok() {
            "RPRT 0"@
        } else if reply == rprt_einval() {
            "RPRT -1"@
        } else {
            "RPRT -11"@
        };
        assert(reply =~= line.push('\n'));
        lemma_one_piece(Seq::empty(), line);
        assert(Seq::<char>::empty() + line =~= line);
        assert(records.last() == line);
        assert(after_prefix(records[1], "RPRT"@) is Some);
        assert(reported(records));
        lemma_block_reports(sep, records);
    } else {
        assert forall|i: int| 0 <= i < records.len() implies after_prefix(
            #[trigger] records[i],
            "RPRT"@,
        ) is None by {
            if i > 0 {
                assert(records[i] == found[i - 1]);
            }
        }
        lemma_block_reports(sep, records.push("RPRT 0"@));
    }
}

/// An extended client reads until it sees the report that ends a reply, and it always gets
/// one: whatever reply is sent to an extended command ends with a newline, and its last record
/// is a report, at once or after its writes. The capability dump must hold no report itself.
#[verifier::spinoff_prover]
pub proof fn law_extended_replies_report(
    sep: char,
    rest: Seq<char>,
    ctx: ClientSessionContext,
    snapshot: Snapshot,
    dump: Seq<char>,
)
    requires
        is_separator(sep),
        words_of(trimmed(rest)).len() > 0,
        NetCommand::named(words_of(trimmed(rest))[0]) != NetCommand::Quit,
        NetCommand::named(words_of(trimmed(rest))[0]) == NetCommand::DumpState ==> !reported(
            pieces(Seq::empty(), dump),
        ),
    ensures
        match ext_turn(sep, rest, ctx, snapshot, dump) {
            LineTurn::Reply(text) => ends_with_report(text, sep),
            LineTurn::Quit => false,
            LineTurn::Apply(write) => {
                &&& write.wrap matches Some((s, _)) && s == sep
                &&& forall|outcome: ApplyOutcome|
                    match #[trigger] after_write(write, outcome) {
                        LineTurn::Reply(text) => ends_with_report(text, sep),
                        LineTurn::Quit => false,
                        LineTurn::Apply(next) => {
                            &&& next.wrap == write.wrap
                            &&& forall|later: ApplyOutcome|
                                (#[trigger] after_write(next, later)) matches LineTurn::Reply(text)
                                    && ends_with_report(text, sep)
                        },
                    }
            },
        },
{
    let tokens = words_of(trimmed(rest));
    let token = tokens[0];
    let args = tokens.skip(1);
    let command = NetCommand::named(token);
    let reads = ctx.perms.permits(CommandClass::ModeledRead);
    lemma_reports(sep);
    if command == NetCommand::SetVfo && args.len() > 0 && args[0] == "?"@ {
        let text = vfo_list(sep, ctx.single_vfo);
        reveal_strlit("RPRT 0");
        reveal_strlit("\nRPRT 0\n");
        let at = text.len() - 7;
        assert(text.subrange(at, text.len() - 1) =~= "RPRT 0"@);
        assert(text[at - 1] == '\n');
        assert(last_report_at(text, sep, at));
    } else if command == NetCommand::GetVfoInfo {
        lemma_block_reports(sep, info_records(token, args, reads, ctx.single_vfo, snapshot));
    } else if reads && labeled_records(command, ctx.single_vfo, snapshot) is Some {
        lemma_block_reports(sep, labeled_records(command, ctx.single_vfo, snapshot)->Some_0);
    } else {
        let echo = echoed(token, args);
        if command != NetCommand::Unknown {
            lemma_echo(token, args);
        }
        match plain_turn(command, args, ctx, snapshot, dump) {
            PlainTurn::Reply(text) => {
                lemma_read_text(command, args, snapshot, ctx.single_vfo);
                if quiet(text) {
                    assert(Seq::<char>::empty() + text =~= text);
                    lemma_quiet_pieces(Seq::empty(), text);
                }
                if command == NetCommand::ChkVfo {
                    reveal_strlit("0\n");
                }
                lemma_wrapped_reports(sep, echo, text);
            },
            PlainTurn::Quit => {},
            PlainTurn::Apply { .. } => {
                lemma_wrapped_reports(sep, echo, report(ApplyOutcome::Applied));
                lemma_wrapped_reports(sep, echo, report(ApplyOutcome::Denied));
            },
        }
    }
}

} // verus!
