//! How frames stand on the wire: `[u32 little-endian length][utf-8 JSON bytes]`.

use vstd::prelude::*;

use crate::bytes::{
    append, le, le_value, lemma_le_len, lemma_le_read_back, lemma_le_value_bound, lemma_pow256,
    part, push_le, read_le,
};
use crate::text::{dec, push_u64};
use crate::views::outcome;

verus! {

/// The longest body that a reader takes, in bytes.
pub const MAX_BODY_LEN: usize = 16 * 1024 * 1024;

/// What [`read_frame`] says of a length over the limit, before the length.
pub const FRAME_LEN_TOO_LARGE: &'static str = "frame len too large: ";

/// A body with its length in front.
pub open spec fn framed(json: Seq<u8>) -> Seq<u8> {
    le(json.len(), 4) + json
}

/// What a writer makes of a body.
pub open spec fn frame_encoded(json: Seq<u8>) -> Result<Seq<u8>, Seq<char>> {
    if json.len() > u32::MAX {
        Err("frame too large"@)
    } else {
        Ok(framed(json))
    }
}

/// What a reader makes of four bytes of length.
pub open spec fn body_len(header: Seq<u8>, refusal: Seq<char>) -> Result<usize, Seq<char>> {
    if le_value(header) > MAX_BODY_LEN {
        Err(refusal + dec(le_value(header)))
    } else {
        Ok(le_value(header) as usize)
    }
}

/// A body that was read, and how many bytes it took.
pub struct Taken {
    pub body: Vec<u8>,
    pub used: usize,
}

impl View for Taken {
    type V = (Seq<u8>, int);

    open spec fn view(&self) -> (Seq<u8>, int) {
        (self.body@, self.used as int)
    }
}

/// What a reader makes of the bytes that it is given.
pub open spec fn frame_taken(input: Seq<u8>) -> Result<(Seq<u8>, int), Seq<char>> {
    if input.len() < 4 {
        Err("read len: failed to fill whole buffer"@)
    } else {
        match body_len(input.take(4), FRAME_LEN_TOO_LARGE@) {
            Err(e) => Err(e),
            Ok(n) => if input.len() < 4 + n {
                Err("read body: failed to fill whole buffer"@)
            } else {
                Ok((input.subrange(4, 4 + n), 4 + n))
            },
        }
    }
}

/// Puts the length in front of a body.
pub fn encode_frame(json: &[u8]) -> (out: Result<Vec<u8>, String>)
    ensures
        outcome(out) == frame_encoded(json@),
{
    if json.len() > u32::MAX as usize {
        return Err("frame too large".to_owned());
    }
    let mut out: Vec<u8> = Vec::new();
    push_le(&mut out, json.len() as u64, 4);
    append(&mut out, json);
    assert(out@ =~= framed(json@));
    Ok(out)
}

/// Reads the length in front of a body, and refuses one that is over the limit: `refusal`, then the
/// length.
pub fn decode_len(header: &[u8; 4], refusal: &str) -> (out: Result<usize, String>)
    ensures
        outcome(out) == body_len(header@, refusal@),
{
    let slice: &[u8] = header.as_slice();
    proof {
        assert(slice@.subrange(0, 4) =~= header@);
        lemma_le_value_bound(header@);
        lemma_pow256();
    }
    let len: u64 = read_le(slice, 0, 4);
    if len > MAX_BODY_LEN as u64 {
        let mut text = refusal.to_owned();
        push_u64(&mut text, len);
        return Err(text);
    }
    Ok(len as usize)
}

/// Reads one frame's body from the start of the input.
pub fn read_frame(input: &[u8]) -> (out: Result<Taken, String>)
    ensures
        outcome(out) == frame_taken(input@),
{
    if input.len() < 4 {
        return Err("read len: failed to fill whole buffer".to_owned());
    }
    let header: [u8; 4] = crate::bytes::array_at(input, 0);
    assert(header@ =~= input@.take(4));
    let len: usize = match decode_len(&header, FRAME_LEN_TOO_LARGE) {
        Ok(len) => len,
        Err(e) => return Err(e),
    };
    if input.len() - 4 < len {
        return Err("read body: failed to fill whole buffer".to_owned());
    }
    Ok(Taken { body: part(input, 4, 4 + len), used: 4 + len })
}

/// Writes one frame behind what was written before.
pub fn write_frame(writer: &mut Vec<u8>, json: &[u8]) -> (out: Result<(), String>)
    ensures
        match frame_encoded(json@) {
            Ok(bytes) => out is Ok && final(writer)@ == old(writer)@ + bytes,
            Err(e) => outcome(out) == Err::<(), Seq<char>>(e) && final(writer)@ == old(writer)@,
        },
{
    match encode_frame(json) {
        Ok(bytes) => {
            append(writer, bytes.as_slice());
            Ok(())
        },
        Err(e) => Err(e),
    }
}

/// A body within the limit is read as it was written, whatever stands behind it, and the reader
/// goes on right behind it.
pub proof fn law_read_gives_back_write(json: Seq<u8>, rest: Seq<u8>)
    requires
        json.len() <= MAX_BODY_LEN,
    ensures
        frame_encoded(json) == Ok::<Seq<u8>, Seq<char>>(framed(json)),
        frame_taken(framed(json) + rest) == Ok::<(Seq<u8>, int), Seq<char>>(
            (json, framed(json).len() as int),
        ),
        (framed(json) + rest).skip(framed(json).len() as int) == rest,
{
    broadcast use lemma_le_len;

    lemma_pow256();
    lemma_le_read_back(json.len(), 4);
    let s = framed(json) + rest;
    assert(s.take(4) =~= le(json.len(), 4));
    assert(s.subrange(4, 4 + json.len() as int) =~= json);
    assert(s.skip(framed(json).len() as int) =~= rest);
}

/// A frame that was cut short is never taken for a whole one.
pub proof fn law_cut_frame_is_refused(json: Seq<u8>, n: int)
    requires
        json.len() <= MAX_BODY_LEN,
        0 <= n < framed(json).len(),
    ensures
        frame_taken(framed(json).take(n)) is Err,
{
    broadcast use lemma_le_len;

    lemma_pow256();
    lemma_le_read_back(json.len(), 4);
    let s = framed(json).take(n);
    if n >= 4 {
        assert(s.take(4) =~= le(json.len(), 4));
    }
}

/// A frame on the wire is four bytes that write the length of the body, the lowest first, and the
/// body; a writer refuses a body whose length does not fit in them, and no other.
pub proof fn law_frame_is_length_and_body(json: Seq<u8>)
    ensures
        json.len() <= 0xffff_ffff ==> {
            &&& frame_encoded(json) matches Ok(bytes)
            &&& bytes.len() == 4 + json.len()
            &&& le_value(bytes.take(4)) == json.len()
            &&& bytes.skip(4) == json
        },
        json.len() > 0xffff_ffff ==> frame_encoded(json) == Err::<Seq<u8>, Seq<char>>(
            "frame too large"@,
        ),
{
    broadcast use lemma_le_len;

    lemma_pow256();
    if json.len() <= 0xffff_ffff {
        lemma_le_read_back(json.len(), 4);
        assert(framed(json).take(4) =~= le(json.len(), 4));
        assert(framed(json).skip(4) =~= json);
    }
}

/// What a reader takes is a whole frame of at most 16 MiB from the start of the input; and what it
/// refuses is too short, or announces a longer body.
pub proof fn law_reader_takes_whole_frames_only(input: Seq<u8>)
    ensures
        match frame_taken(input) {
            Ok((body, used)) => {
                &&& used == 4 + body.len()
                &&& used <= input.len()
                &&& body.len() <= 16777216
                &&& le_value(input.take(4)) == body.len()
                &&& body == input.subrange(4, used)
            },
            Err(e) => {
                ||| input.len() < 4 && e == "read len: failed to fill whole buffer"@
                ||| input.len() >= 4 && le_value(input.take(4)) > 16777216 && e
                    == "frame len too large: "@ + dec(le_value(input.take(4)))
                ||| input.len() >= 4 && le_value(input.take(4)) <= 16777216 && input.len() < 4
                    + le_value(input.take(4)) && e == "read body: failed to fill whole buffer"@
            },
        },
{
}

/// Four bytes of length are read as they stand, and refused over 16 MiB, with the length behind the
/// words that the reader has for it.
pub proof fn law_length_is_limited(header: Seq<u8>, refusal: Seq<char>)
    ensures
        match body_len(header, refusal) {
            Ok(n) => n == le_value(header) && n <= 16777216,
            Err(e) => le_value(header) > 16777216 && e == refusal + dec(le_value(header)),
        },
{
}

} // verus!
