//! The payload of a push: one backend change event in a small versioned frame.
//!
//! A frame is the version byte, then one byte for the operation, then the URL in
//! UTF-8. The push call carries the payload as one delimited byte string, so the
//! URL runs to the end of the frame.
use vstd::prelude::*;
use vstd::utf8::{decode_utf8, encode_utf8, valid_utf8};

verus! {

/// The version byte that opens every frame this library writes.
pub const FRAME_VERSION: u8 = 1;

/// Length of the frame header: the version byte and the operation byte.
pub const HEADER_LEN: usize = 2;

/// What a change event does to a worker's backend pool.
#[derive(Clone, Copy, Debug, PartialEq, Eq, Structural)]
pub enum Operation {
    Add,
    Remove,
}

/// A change to the backend pool, as pushed to the workers.
#[derive(Debug)]
pub struct BackendChangeEvent {
    pub operation: Operation,
    pub url: String,
}

/// Why a payload is not a change event.
#[derive(Clone, Copy, Debug, PartialEq, Eq, Structural)]
pub enum DecodeError {
    /// Shorter than the header.
    Truncated,
    /// The first byte is not a version this library reads.
    UnknownVersion,
    /// The operation byte names no operation.
    UnknownOperation,
    /// The URL bytes are not UTF-8.
    InvalidUrl,
}

/// The byte that stands for an operation in a frame.
pub open spec fn op_tag(op: Operation) -> u8 {
    match op {
        Operation::Add => 0,
        Operation::Remove => 1,
    }
}

/// The operation a tag byte stands for, if any.
pub open spec fn op_of_tag(t: u8) -> Option<Operation> {
    if t == 0 {
        Some(Operation::Add)
    } else if t == 1 {
        Some(Operation::Remove)
    } else {
        None
    }
}

/// The frame of an event with operation `op` and URL `url`.
pub open spec fn frame_of(op: Operation, url: Seq<char>) -> Seq<u8> {
    seq![FRAME_VERSION, op_tag(op)] + encode_utf8(url)
}

/// What a frame decodes to: the operation and the URL, or the first fault found.
pub open spec fn parse_frame(b: Seq<u8>) -> Result<(Operation, Seq<char>), DecodeError> {
    if b.len() < HEADER_LEN {
        Err(DecodeError::Truncated)
    } else if b[0] != FRAME_VERSION {
        Err(DecodeError::UnknownVersion)
    } else if op_of_tag(b[1]) is None {
        Err(DecodeError::UnknownOperation)
    } else if !valid_utf8(b.subrange(2, b.len() as int)) {
        Err(DecodeError::InvalidUrl)
    } else {
        Ok((op_of_tag(b[1])->Some_0, decode_utf8(b.subrange(2, b.len() as int))))
    }
}

/// Relies on std's `String::from_utf8`: it succeeds exactly on valid UTF-8, and
/// the string then holds the characters those bytes encode.
#[verifier::external_body]
fn string_from_utf8(bytes: Vec<u8>) -> (r: Option<String>)
    ensures
        r is Some <==> valid_utf8(bytes@),
        r matches Some(s) ==> s@ == decode_utf8(bytes@),
{
    String::from_utf8(bytes).ok()
}

impl BackendChangeEvent {
    /// An event that adds `url` to the pool.
    pub fn add(url: String) -> (r: Self)
        ensures
            r.operation == Operation::Add,
            r.url@ == url@,
    {
        BackendChangeEvent { operation: Operation::Add, url }
    }

    /// An event that removes `url` from the pool.
    pub fn remove(url: String) -> (r: Self)
        ensures
            r.operation == Operation::Remove,
            r.url@ == url@,
    {
        BackendChangeEvent { operation: Operation::Remove, url }
    }
}

fn tag_byte(op: Operation) -> (r: u8)
    ensures
        r == op_tag(op),
{
    match op {
        Operation::Add => 0,
        Operation::Remove => 1,
    }
}

/// Writes `event` as a frame.
pub fn encode(event: &BackendChangeEvent) -> (r: Vec<u8>)
    ensures
        r@ == frame_of(event.operation, event.url@),
{
    let bytes = event.url.as_str().as_bytes();
    let mut out: Vec<u8> = Vec::new();
    out.push(FRAME_VERSION);
    out.push(tag_byte(event.operation));
    let mut i: usize = 0;
    while i < bytes.len()
        invariant
            i <= bytes@.len(),
            bytes@ == encode_utf8(event.url@),
            out@ == seq![FRAME_VERSION, op_tag(event.operation)] + bytes@.subrange(0, i as int),
        decreases bytes@.len() - i,
    {
        out.push(bytes[i]);
        i = i + 1;
        proof {
            assert(bytes@.subrange(0, i as int) == bytes@.subrange(0, i - 1).push(bytes@[i - 1]));
        }
    }
    proof {
        assert(bytes@.subrange(0, bytes@.len() as int) == bytes@);
    }
    out
}

/// Reads a frame back into an event, or says what is wrong with it.
pub fn decode(payload: &[u8]) -> (r: Result<BackendChangeEvent, DecodeError>)
    ensures
        match r {
            Ok(e) => parse_frame(payload@) == Ok::<(Operation, Seq<char>), DecodeError>(
                (e.operation, e.url@),
            ),
            Err(err) => parse_frame(payload@) == Err::<(Operation, Seq<char>), DecodeError>(
                err,
            ),
        },
{
    if payload.len() < HEADER_LEN {
        return Err(DecodeError::Truncated);
    }
    if payload[0] != FRAME_VERSION {
        return Err(DecodeError::UnknownVersion);
    }
    let operation = if payload[1] == 0 {
        Operation::Add
    } else if payload[1] == 1 {
        Operation::Remove
    } else {
        return Err(DecodeError::UnknownOperation);
    };
    let mut rest: Vec<u8> = Vec::new();
    let mut i: usize = HEADER_LEN;
    while i < payload.len()
        invariant
            HEADER_LEN <= i <= payload@.len(),
            rest@ == payload@.subrange(2, i as int),
        decreases payload@.len() - i,
    {
        rest.push(payload[i]);
        i = i + 1;
        proof {
            assert(payload@.subrange(2, i as int) == payload@.subrange(2, i - 1).push(
                payload@[i - 1],
            ));
        }
    }
    match string_from_utf8(rest) {
        Some(url) => Ok(BackendChangeEvent { operation, url }),
        None => Err(DecodeError::InvalidUrl),
    }
}

/// Decoding the frame of an event gives back the event's operation and URL, for
/// every URL.
pub proof fn lemma_frame_round_trip(op: Operation, url: Seq<char>)
    ensures
        parse_frame(frame_of(op, url)) == Ok::<(Operation, Seq<char>), DecodeError>((op, url)),
{
    let f = frame_of(op, url);
    assert(f.subrange(2, f.len() as int) == encode_utf8(url));
    vstd::utf8::encode_utf8_valid_utf8(url);
    vstd::utf8::encode_utf8_decode_utf8(url);
}

} // verus!
