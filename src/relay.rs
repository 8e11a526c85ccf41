//! The decisions of a session's background tasks: what each read of the
//! terminal's output turns into, and how a process's end is reported.

use vstd::prelude::*;
use vstd::utf8::{decode_utf8, valid_utf8};

verus! {

/// Bytes asked for by each read of a session's output.
pub const READ_CHUNK_SIZE: usize = 4096;

/// Exit code reported when a process's status cannot be had.
pub const UNKNOWN_EXIT_CODE: i64 = 1;

/// A chunk of a session's output, tagged with the session's id.
pub struct OutputEvent {
    pub id: String,
    pub data: String,
}

/// The end of a session's process.
pub struct ExitEvent {
    pub id: String,
    pub exit_code: i64,
}

/// What the output relay does after one read.
pub enum RelayStep {
    /// Hand this event to the consumer and read again.
    Emit(OutputEvent),
    /// The stream is closed or broken: the relay ends.
    Stop,
}

/// A name for what `String::from_utf8_lossy` makes of some bytes.
pub uninterp spec fn lossy_utf8(b: Seq<u8>) -> Seq<char>;

/// Relies on `String::from_utf8_lossy` over `buf[..n]`: invalid sequences
/// become U+FFFD, and valid UTF-8 decodes as itself.
#[verifier::external_body]
fn decode_lossy(buf: &[u8], n: usize) -> (r: String)
    requires
        n <= buf@.len(),
    ensures
        r@ == lossy_utf8(buf@.subrange(0, n as int)),
        valid_utf8(buf@.subrange(0, n as int)) ==> r@ == decode_utf8(buf@.subrange(0, n as int)),
{
    String::from_utf8_lossy(&buf[..n]).into_owned()
}

/// What a read of `read` bytes into `buf` (or `None`, a read error) leads
/// to for the session `id`: nothing read means the peer closed, and the
/// relay stops, as it does on an error; otherwise the bytes are decoded
/// and emitted under `id`.
pub fn relay_step(id: &String, buf: &[u8], read: Option<usize>) -> (r: RelayStep)
    requires
        read matches Some(n) ==> n <= buf@.len(),
    ensures
        match read {
            Some(n) if n > 0 => r matches RelayStep::Emit(e) && e.id@ == id@ && e.data@ == lossy_utf8(
                buf@.subrange(0, n as int),
            ),
            _ => r matches RelayStep::Stop,
        },
{
    match read {
        Some(n) => {
            if n == 0 {
                RelayStep::Stop
            } else {
                RelayStep::Emit(OutputEvent { id: id.clone(), data: decode_lossy(buf, n) })
            }
        },
        None => RelayStep::Stop,
    }
}

/// The notice emitted first by a session running on plain pipes.
pub fn fallback_banner(id: &String) -> (r: OutputEvent)
    ensures
        r.id@ == id@,
        r.data@ == "[Terminal - fallback mode]\r\n"@,
{
    OutputEvent { id: id.clone(), data: "[Terminal - fallback mode]\r\n".to_string() }
}

/// The exit code of a pseudo-terminal session: the status the wait gave,
/// or `UNKNOWN_EXIT_CODE` when waiting failed.
pub fn pty_exit_code(status: Option<u32>) -> (r: i64)
    ensures
        r == match status {
            Some(c) => c as i64,
            None => UNKNOWN_EXIT_CODE,
        },
{
    match status {
        Some(c) => c as i64,
        None => UNKNOWN_EXIT_CODE,
    }
}

/// The exit code of a pipe-backed session: `status` is `None` when waiting
/// failed and `Some(None)` when the process ended without a code (by a
/// signal); both report `UNKNOWN_EXIT_CODE`.
pub fn pipe_exit_code(status: Option<Option<i32>>) -> (r: i64)
    ensures
        r == match status {
            Some(Some(c)) => c as i64,
            _ => UNKNOWN_EXIT_CODE,
        },
{
    match status {
        Some(Some(c)) => c as i64,
        _ => UNKNOWN_EXIT_CODE,
    }
}

/// The exit event of session `id`.
pub fn exit_event(id: &String, exit_code: i64) -> (r: ExitEvent)
    ensures
        r.id@ == id@,
        r.exit_code == exit_code,
{
    ExitEvent { id: id.clone(), exit_code }
}

} // verus!
