//! The messages between the command-line tool and the daemon, and how they are
//! framed on the socket: a 4-byte little-endian length, then the payload.
use vstd::prelude::*;
use crate::error::NiriToolsError;
use crate::numbers::{decimal_digits, fmt_u64};
use crate::text::{chars_of, string_of};

verus! {

/// A request to the daemon.
#[derive(Debug, Clone, PartialEq)]
pub enum Command {
    Toggle { name: Option<String> },
    Hide,
    ToggleFloat { name: Option<String> },
    Float { name: Option<String> },
    Tile { name: Option<String> },
    DaemonStop,
    DaemonRestart,
    DaemonStatus,
}

/// The daemon's answer.
#[derive(Debug, Clone, PartialEq)]
pub enum Response {
    /// The request was carried out.
    Success,
    Status { pid: u32, cmdline: String, ppid: u32, parent_cmdline: String, socket: String },
    Error(String),
}

/// Largest payload a reader accepts (16 MiB): a guard against corrupt length prefixes.
pub const MAX_MESSAGE_SIZE: u32 = 16777216;

/// The number that four bytes write in little-endian order.
pub open spec fn le_value(b: Seq<u8>) -> nat {
    b[0] as nat + 256 * (b[1] as nat) + 65536 * (b[2] as nat) + 16777216 * (b[3] as nat)
}

/// The little-endian bytes of `n`.
pub open spec fn le_bytes(n: u32) -> Seq<u8> {
    seq![
        (n % 256) as u8,
        ((n / 256) % 256) as u8,
        ((n / 65536) % 256) as u8,
        (n / 16777216) as u8,
    ]
}

/// `payload` with its length in front.
pub open spec fn framed(payload: Seq<u8>) -> Seq<u8> {
    le_bytes(payload.len() as u32) + payload
}

/// The payload of a framed buffer: the length prefix tells how many of the bytes
/// after it belong to the message; `None` when the buffer is too short for the
/// prefix or for the payload.
pub open spec fn unframed(buf: Seq<u8>) -> Option<Seq<u8>> {
    if buf.len() < 4 {
        None
    } else if buf.len() - 4 < le_value(buf) {
        None
    } else {
        Some(buf.subrange(4, 4 + le_value(buf) as int))
    }
}

/// The message of a buffer too short for its declared payload.
pub open spec fn short_buffer_message(expected: nat, got: nat) -> Seq<char> {
    "buffer too short: expected "@ + decimal_digits(expected) + " bytes, got "@ + decimal_digits(
        got,
    )
}

/// The message of a length prefix above [`MAX_MESSAGE_SIZE`].
pub open spec fn oversize_message(len: nat) -> Seq<char> {
    "message size "@ + decimal_digits(len) + " exceeds maximum "@ + decimal_digits(
        MAX_MESSAGE_SIZE as nat,
    )
}

fn le_of(b0: u8, b1: u8, b2: u8, b3: u8) -> (res: u32)
    ensures
        res as nat == le_value(seq![b0, b1, b2, b3]),
{
    (b0 as u32) + 256 * (b1 as u32) + 65536 * (b2 as u32) + 16777216 * (b3 as u32)
}

fn concat_text(parts: &[&str]) -> (res: String)
    ensures
        res@ == parts@.fold_left(Seq::<char>::empty(), |acc: Seq<char>, p: &str| acc + p@),
{
    let mut out: Vec<char> = Vec::new();
    let mut i: usize = 0;
    while i < parts.len()
        invariant
            i <= parts@.len(),
            out@ == parts@.take(i as int).fold_left(
                Seq::<char>::empty(),
                |acc: Seq<char>, p: &str| acc + p@,
            ),
        decreases parts@.len() - i,
    {
        let mut cs = chars_of(parts[i]);
        out.append(&mut cs);
        assert(parts@.take(i + 1).drop_last() =~= parts@.take(i as int));
        i = i + 1;
    }
    assert(parts@.take(parts@.len() as int) =~= parts@);
    string_of(&out)
}

/// Prefixes `payload` with its length.
pub fn frame(payload: &[u8]) -> (res: Result<Vec<u8>, NiriToolsError>)
    ensures
        payload@.len() <= u32::MAX ==> (res matches Ok(b) && b@ == framed(payload@)),
        payload@.len() > u32::MAX ==> (res matches Err(NiriToolsError::Serialization(m)) && m@
            == "payload too large"@),
{
    if payload.len() > 0xffff_ffffusize {
        return Err(NiriToolsError::Serialization("payload too large".to_owned()));
    }
    let len: u32 = payload.len() as u32;
    let mut buf: Vec<u8> = Vec::new();
    buf.push((len % 256) as u8);
    buf.push(((len / 256) % 256) as u8);
    buf.push(((len / 65536) % 256) as u8);
    buf.push((len / 16777216) as u8);
    let mut i: usize = 0;
    while i < payload.len()
        invariant
            i <= payload@.len(),
            len == payload@.len(),
            buf@ == le_bytes(len) + payload@.take(i as int),
        decreases payload@.len() - i,
    {
        buf.push(payload[i]);
        assert(payload@.take(i + 1) =~= payload@.take(i as int).push(payload@[i as int]));
        assert(buf@ =~= le_bytes(len) + payload@.take(i + 1));
        i = i + 1;
    }
    assert(payload@.take(payload@.len() as int) =~= payload@);
    Ok(buf)
}

/// The payload of a framed buffer (see [`unframed`]); bytes after the payload are
/// ignored.
pub fn unframe(buf: &[u8]) -> (res: Result<Vec<u8>, NiriToolsError>)
    ensures
        match unframed(buf@) {
            Some(p) => res matches Ok(v) && v@ == p,
            None => res matches Err(NiriToolsError::Serialization(m)) && (if buf@.len() < 4 {
                m@ == "buffer too short for length prefix"@
            } else {
                m@ == short_buffer_message(le_value(buf@), (buf@.len() - 4) as nat)
            }),
        },
{
    if buf.len() < 4 {
        return Err(NiriToolsError::Serialization("buffer too short for length prefix".to_owned()));
    }
    let len = le_of(buf[0], buf[1], buf[2], buf[3]);
    assert(seq![buf@[0], buf@[1], buf@[2], buf@[3]] =~= buf@.take(4));
    assert(le_value(buf@) == le_value(buf@.take(4)));
    let avail: usize = buf.len() - 4;
    if (avail as u64) < (len as u64) {
        let expected = fmt_u64(len as u64);
        let got = fmt_u64(avail as u64);
        let msg = concat_text(
            &[
                "buffer too short: expected ",
                expected.as_str(),
                " bytes, got ",
                got.as_str(),
            ],
        );
        proof {
            reveal_with_fuel(Seq::fold_left, 5);
        }
        return Err(NiriToolsError::Serialization(msg));
    }
    let mut out: Vec<u8> = Vec::new();
    let mut i: usize = 0;
    let n: usize = len as usize;
    while i < n
        invariant
            n == le_value(buf@),
            4 + n <= buf@.len(),
            buf@.len() == buf.len(),
            i <= n,
            out@ == buf@.subrange(4, 4 + i),
        decreases n - i,
    {
        out.push(buf[4 + i]);
        assert(out@ =~= buf@.subrange(4, 4 + i + 1));
        i = i + 1;
    }
    Ok(out)
}

/// The payload length that a reader reads after the prefix `prefix`, unless it
/// exceeds [`MAX_MESSAGE_SIZE`].
pub fn message_size(prefix: [u8; 4]) -> (res: Result<u32, NiriToolsError>)
    ensures
        le_value(prefix@) <= MAX_MESSAGE_SIZE ==> res == Ok::<u32, NiriToolsError>(
            le_value(prefix@) as u32,
        ),
        le_value(prefix@) > MAX_MESSAGE_SIZE ==> (res matches Err(NiriToolsError::Serialization(m))
            && m@ == oversize_message(le_value(prefix@))),
{
    let len = le_of(prefix[0], prefix[1], prefix[2], prefix[3]);
    assert(seq![prefix@[0], prefix@[1], prefix@[2], prefix@[3]] =~= prefix@);
    if len > MAX_MESSAGE_SIZE {
        let l = fmt_u64(len as u64);
        let m = fmt_u64(MAX_MESSAGE_SIZE as u64);
        let msg = concat_text(&["message size ", l.as_str(), " exceeds maximum ", m.as_str()]);
        proof {
            reveal_with_fuel(Seq::fold_left, 5);
        }
        return Err(NiriToolsError::Serialization(msg));
    }
    Ok(len)
}

/// Reading back a framed payload gives the payload.
pub proof fn law_unframe_frame(payload: Seq<u8>)
    requires
        payload.len() <= u32::MAX,
    ensures
        unframed(framed(payload)) == Some(payload),
{
    let n = payload.len() as u32;
    let b = framed(payload);
    assert(b[0] == (n % 256) as u8);
    assert(b[1] == ((n / 256) % 256) as u8);
    assert(b[2] == ((n / 65536) % 256) as u8);
    assert(b[3] == (n / 16777216) as u8);
    assert(le_value(b) == n) by (nonlinear_arith)
        requires
            b[0] == (n % 256) as u8,
            b[1] == ((n / 256) % 256) as u8,
            b[2] == ((n / 65536) % 256) as u8,
            b[3] == (n / 16777216) as u8,
    {
    }
    assert(b.subrange(4, 4 + n as int) =~= payload);
}

} // verus!
