//! What the observations of a conformance case mean.

use vstd::prelude::*;

use crate::ascii::same_bytes;
use crate::conformance::invalid_result;
use crate::conformance::profiles::ProfileCase;
use crate::conformance::CaseResult;
use crate::conformance::CaseStatus;
use crate::conformance::ConformanceError;
use crate::conformance::ConformanceReport;
use crate::text::decimal;
use crate::text::push_decimal;
use crate::text::same_text;

verus! {

/// The receive-character event.
pub const EV_RXCHAR: u32 = 1;

/// The stop-bit setting for one stop bit.
pub const ONE_STOP_BIT: u8 = 0;

/// The stop-bit setting for two stop bits.
pub const TWO_STOP_BITS: u8 = 2;

/// The parity setting for no parity.
pub const NO_PARITY: u8 = 0;

/// The shortest time that an empty read may take, in nanoseconds.
pub const SHORTEST_TIMEOUT_NS: u64 = 50_000_000;

/// The longest time that an empty read may take, in nanoseconds.
pub const LONGEST_TIMEOUT_NS: u64 = 1_000_000_000;

fn invalid<T>(why: String) -> (r: Result<T, ConformanceError>)
    ensures
        r matches Err(e) && invalid_result(e, why@),
{
    Err(ConformanceError::InvalidResult(why))
}

/// Record what a case came to.
#[must_use]
pub fn case_result(case: ProfileCase, outcome: Result<String, ConformanceError>) -> (r: CaseResult)
    ensures
        r.id == case.id,
        r.requirement == case.requirement,
        match outcome {
            Ok(detail) => r.status == CaseStatus::Passed && r.detail@ == detail@ && r.win32_error
                is None,
            Err(e) => r.status == CaseStatus::Failed && r.detail@ == e.text() && r.win32_error
                == match e {
                ConformanceError::Win32 { code, .. } => Some(code),
                _ => None::<u32>,
            },
        },
{
    match outcome {
        Ok(detail) => CaseResult {
            id: case.id,
            requirement: case.requirement,
            status: CaseStatus::Passed,
            detail,
            win32_error: None,
        },
        Err(e) => {
            let detail = e.message();
            let win32_error = match e {
                ConformanceError::Win32 { operation: _, code } => Some(code),
                _ => None,
            };
            CaseResult {
                id: case.id,
                requirement: case.requirement,
                status: CaseStatus::Failed,
                detail,
                win32_error,
            }
        },
    }
}

/// Put a report together. `seconds` is the time since the Unix epoch.
#[must_use]
pub fn report(
    profile: &str,
    application_port: &str,
    peer_port: &str,
    seconds: u64,
    results: Vec<CaseResult>,
) -> (r: ConformanceReport)
    ensures
        r.schema_version == 1,
        r.generated_at_utc@ == "unix:"@ + decimal(seconds as nat),
        r.profile@ == profile@,
        r.application_port@ == application_port@,
        r.peer_port@ == peer_port@,
        r.operating_system@ == "Windows"@,
        r.results == results,
{
    let mut generated_at_utc = "unix:".to_owned();
    push_decimal(&mut generated_at_utc, seconds);
    ConformanceReport {
        schema_version: 1,
        generated_at_utc,
        profile: profile.to_owned(),
        application_port: application_port.to_owned(),
        peer_port: peer_port.to_owned(),
        operating_system: "Windows".to_owned(),
        results,
    }
}

/// Demand that the bytes that arrived are those that were sent.
///
/// # Errors
///
/// Returns an error if they are not.
pub fn require_equal(operation: &str, actual: &[u8], expected: &[u8]) -> (r: Result<
    (),
    ConformanceError,
>)
    ensures
        if actual@ == expected@ {
            r is Ok
        } else {
            r matches Err(e) && invalid_result(
                e,
                operation@ + " returned "@ + decimal(actual@.len()) + " bytes, expected "@
                    + decimal(expected@.len()),
            )
        },
{
    if same_bytes(actual, expected) {
        return Ok(());
    }
    let mut why = operation.to_owned();
    why.append(" returned ");
    push_decimal(&mut why, actual.len() as u64);
    why.append(" bytes, expected ");
    push_decimal(&mut why, expected.len() as u64);
    invalid(why)
}

/// Judge an empty read: it returns nothing, neither at once nor too late.
///
/// # Errors
///
/// Returns an error if it returned bytes, or came too early or too late.
pub fn judge_timeout(read: u32, elapsed_ns: u64) -> (r: Result<String, ConformanceError>)
    ensures
        if read == 0 && SHORTEST_TIMEOUT_NS <= elapsed_ns <= LONGEST_TIMEOUT_NS {
            r matches Ok(detail) && detail@ == "empty read completed after "@ + decimal(
                elapsed_ns as nat / 1_000_000,
            ) + " ms"@
        } else {
            r matches Err(e) && invalid_result(
                e,
                "empty read returned "@ + decimal(read as nat) + " bytes after "@ + decimal(
                    elapsed_ns as nat / 1_000_000,
                ) + " ms"@,
            )
        },
{
    if read != 0 || elapsed_ns < SHORTEST_TIMEOUT_NS || elapsed_ns > LONGEST_TIMEOUT_NS {
        let mut why = "empty read returned ".to_owned();
        push_decimal(&mut why, read as u64);
        why.append(" bytes after ");
        push_decimal(&mut why, elapsed_ns / 1_000_000);
        why.append(" ms");
        return invalid(why);
    }
    let mut detail = "empty read completed after ".to_owned();
    push_decimal(&mut detail, elapsed_ns / 1_000_000);
    detail.append(" ms");
    Ok(detail)
}

/// Demand that there is something to purge.
///
/// # Errors
///
/// Returns an error if there is not.
pub fn judge_queued(before: u32) -> (r: Result<(), ConformanceError>)
    ensures
        if before != 0 {
            r is Ok
        } else {
            r matches Err(e) && invalid_result(
                e,
                "receive queue did not contain peer data before purge"@,
            )
        },
{
    if before == 0 {
        return invalid("receive queue did not contain peer data before purge".to_owned());
    }
    Ok(())
}

/// Judge a purge: nothing is left.
///
/// # Errors
///
/// Returns an error if something is left.
pub fn judge_purge(before: u32, after: u32) -> (r: Result<String, ConformanceError>)
    ensures
        if after == 0 {
            r matches Ok(detail) && detail@ == "purge removed "@ + decimal(before as nat)
                + " queued bytes"@
        } else {
            r matches Err(e) && invalid_result(
                e,
                "receive queue contains "@ + decimal(after as nat) + " bytes after purge"@,
            )
        },
{
    if after != 0 {
        let mut why = "receive queue contains ".to_owned();
        push_decimal(&mut why, after as u64);
        why.append(" bytes after purge");
        return invalid(why);
    }
    let mut detail = "purge removed ".to_owned();
    push_decimal(&mut detail, before as u64);
    detail.append(" queued bytes");
    Ok(detail)
}

/// The character of a hexadecimal digit.
pub open spec fn hex_char(d: nat) -> char {
    if d < 10 {
        (48 + d) as char
    } else {
        (87 + d) as char
    }
}

/// The lowest `width` hexadecimal digits of a number.
pub open spec fn hex(n: nat, width: nat) -> Seq<char>
    decreases width,
{
    if width == 0 {
        Seq::empty()
    } else {
        hex(n / 16, (width - 1) as nat).push(hex_char(n % 16))
    }
}

fn push_hex(out: &mut String, n: u32, width: u32)
    ensures
        final(out)@ == old(out)@ + hex(n as nat, width as nat),
    decreases width,
{
    if width == 0 {
        proof {
            assert(out@ =~= old(out)@ + Seq::<char>::empty());
        }
        return;
    }
    push_hex(out, n / 16, width - 1);
    let d: u8 = (n % 16) as u8;
    out.push(
        if d < 10 {
            (48 + d) as char
        } else {
            (87 + d) as char
        },
    );
    proof {
        assert(out@ =~= old(out)@ + hex(n as nat, width as nat));
    }
}

/// Judge the event that was waited for: bytes have arrived.
///
/// # Errors
///
/// Returns an error if the mask says something else.
pub fn judge_event(mask: u32) -> (r: Result<String, ConformanceError>)
    ensures
        if mask & EV_RXCHAR != 0 {
            r matches Ok(detail) && detail@
                == "WaitCommEvent reported EV_RXCHAR after peer data arrived"@
        } else {
            r matches Err(e) && invalid_result(
                e,
                "WaitCommEvent returned mask 0x"@ + hex(mask as nat, 8),
            )
        },
{
    if mask & EV_RXCHAR == 0 {
        let mut why = "WaitCommEvent returned mask 0x".to_owned();
        push_hex(&mut why, mask, 8);
        return invalid(why);
    }
    Ok("WaitCommEvent reported EV_RXCHAR after peer data arrived".to_owned())
}

/// Whether a profile is that of a keyer client.
pub open spec fn keyer_client(profile: Seq<char>) -> bool {
    profile == "n1mm-winkeyer"@ || profile == "wktools"@
}

/// The serial format that a profile asks for, as the device control string.
#[must_use]
pub fn format_command(profile: &str) -> (r: &'static str)
    ensures
        r@ == if keyer_client(profile@) {
            "baud=1200 parity=N data=8 stop=2"@
        } else {
            "baud=9600 parity=N data=8 stop=1"@
        },
{
    if same_text(profile, "n1mm-winkeyer") || same_text(profile, "wktools") {
        "baud=1200 parity=N data=8 stop=2"
    } else {
        "baud=9600 parity=N data=8 stop=1"
    }
}

/// Whether a device took the serial format that a profile asks for.
pub open spec fn format_taken(
    profile: Seq<char>,
    baud: u32,
    data_bits: u8,
    parity: u8,
    stop_bits: u8,
) -> bool {
    &&& baud == if keyer_client(profile) {
        1_200u32
    } else {
        9_600u32
    }
    &&& data_bits == 8
    &&& parity == NO_PARITY
    &&& stop_bits == if keyer_client(profile) {
        TWO_STOP_BITS
    } else {
        ONE_STOP_BIT
    }
}

/// Judge the serial format of a device.
///
/// # Errors
///
/// Returns an error if it is not the one that the profile asks for.
pub fn judge_format(profile: &str, baud: u32, data_bits: u8, parity: u8, stop_bits: u8) -> (r: Result<
    String,
    ConformanceError,
>)
    ensures
        if format_taken(profile@, baud, data_bits, parity, stop_bits) {
            r matches Ok(detail) && detail@ == "serial format accepted: "@ + if keyer_client(
                profile@,
            ) {
                "baud=1200 parity=N data=8 stop=2"@
            } else {
                "baud=9600 parity=N data=8 stop=1"@
            }
        } else {
            r matches Err(e) && invalid_result(
                e,
                "observed format baud="@ + decimal(baud as nat) + " data="@ + decimal(
                    data_bits as nat,
                ) + " parity="@ + decimal(parity as nat) + " stop="@ + decimal(stop_bits as nat),
            )
        },
{
    let keyer: bool = same_text(profile, "n1mm-winkeyer") || same_text(profile, "wktools");
    let expected_baud: u32 = if keyer {
        1_200
    } else {
        9_600
    };
    let expected_stop: u8 = if keyer {
        TWO_STOP_BITS
    } else {
        ONE_STOP_BIT
    };
    if baud != expected_baud || data_bits != 8 || parity != NO_PARITY || stop_bits
        != expected_stop {
        let mut why = "observed format baud=".to_owned();
        push_decimal(&mut why, baud as u64);
        why.append(" data=");
        push_decimal(&mut why, data_bits as u64);
        why.append(" parity=");
        push_decimal(&mut why, parity as u64);
        why.append(" stop=");
        push_decimal(&mut why, stop_bits as u64);
        return invalid(why);
    }
    let mut detail = "serial format accepted: ".to_owned();
    detail.append(format_command(profile));
    Ok(detail)
}

/// Judge the queue counter: it counts at least the bytes that were sent.
///
/// # Errors
///
/// Returns an error if it counts fewer.
pub fn judge_queue_depth(depth: u32, sent: usize) -> (r: Result<String, ConformanceError>)
    ensures
        if depth >= sent || (depth == u32::MAX && sent > u32::MAX) {
            r matches Ok(detail) && detail@ == "ClearCommError reported "@ + decimal(depth as nat)
                + " queued bytes"@
        } else {
            r matches Err(e) && invalid_result(
                e,
                "ClearCommError reported only "@ + decimal(depth as nat) + " queued bytes"@,
            )
        },
{
    let wanted: u32 = if sent as u64 > u32::MAX as u64 {
        u32::MAX
    } else {
        sent as u32
    };
    if depth < wanted {
        let mut why = "ClearCommError reported only ".to_owned();
        push_decimal(&mut why, depth as u64);
        why.append(" queued bytes");
        return invalid(why);
    }
    let mut detail = "ClearCommError reported ".to_owned();
    push_decimal(&mut detail, depth as u64);
    detail.append(" queued bytes");
    Ok(detail)
}

/// Judge a write: every byte was taken. `said` names the operation, as in `WriteFile accepted`.
///
/// # Errors
///
/// Returns an error if a byte was not taken.
pub fn judge_write(said: &str, written: u32, length: u32) -> (r: Result<(), ConformanceError>)
    ensures
        if written == length {
            r is Ok
        } else {
            r matches Err(e) && invalid_result(
                e,
                said@ + " "@ + decimal(written as nat) + " of "@ + decimal(length as nat)
                    + " bytes"@,
            )
        },
{
    if written == length {
        return Ok(());
    }
    let mut why = said.to_owned();
    why.append(" ");
    push_decimal(&mut why, written as u64);
    why.append(" of ");
    push_decimal(&mut why, length as u64);
    why.append(" bytes");
    invalid(why)
}

/// Judge a wait: the event was signalled, which the result 0 says.
///
/// # Errors
///
/// Returns an error if it was not.
pub fn judge_wait(operation: &str, timeout_ms: u32, result: u32) -> (r: Result<
    (),
    ConformanceError,
>)
    ensures
        if result == 0 {
            r is Ok
        } else {
            r matches Err(e) && invalid_result(
                e,
                operation@ + " did not complete within "@ + decimal(timeout_ms as nat)
                    + " ms, wait result "@ + decimal(result as nat),
            )
        },
{
    if result == 0 {
        return Ok(());
    }
    let mut why = operation.to_owned();
    why.append(" did not complete within ");
    push_decimal(&mut why, timeout_ms as u64);
    why.append(" ms, wait result ");
    push_decimal(&mut why, result as u64);
    invalid(why)
}

/// A hexadecimal number reads as the number: every digit counts sixteen times the one behind it,
/// with small letters from ten on.
pub proof fn law_hexadecimal(n: nat, width: nat, d: nat)
    requires
        width > 0,
        d < 16,
    ensures
        hex(n, width).len() == width,
        hex(n, width).drop_last() == hex(n / 16, (width - 1) as nat),
        hex(n, width).last() == hex_char(n % 16),
        hex_char(d) as int == if d < 10 {
            '0' as int + d
        } else {
            'a' as int + (d - 10)
        },
    decreases width,
{
    assert(hex(n, width).drop_last() =~= hex(n / 16, (width - 1) as nat));
    if width > 1 {
        law_hexadecimal(n / 16, (width - 1) as nat, d);
    }
}

/// The serial format of a keyer's client is 1200 baud with two stop bits, that of every other
/// client 9600 baud with one, both with eight data bits and without parity.
pub proof fn law_formats(
    profile: Seq<char>,
    baud: u32,
    data_bits: u8,
    parity: u8,
    stop_bits: u8,
)
    ensures
        profile == "n1mm-winkeyer"@ || profile == "wktools"@ ==> (format_taken(
            profile,
            baud,
            data_bits,
            parity,
            stop_bits,
        ) <==> baud == 1_200 && data_bits == 8 && parity == 0 && stop_bits == 2),
        profile != "n1mm-winkeyer"@ && profile != "wktools"@ ==> (format_taken(
            profile,
            baud,
            data_bits,
            parity,
            stop_bits,
        ) <==> baud == 9_600 && data_bits == 8 && parity == 0 && stop_bits == 0),
{
}

} // verus!
