//! Line framing of byte chunks with standard base64.
//!
//! A chunk travels as its base64 text followed by one newline byte; the
//! receiving side reads one line, drops its last byte and decodes the rest.

use base64::engine::general_purpose::STANDARD;
use base64::Engine;
use vstd::prelude::*;

verus! {

/// The byte that ends every frame.
pub const NEWLINE: u8 = 10u8;

/// The standard base64 text of `data` (RFC 4648 alphabet, `=` padding),
/// as produced by the `base64` crate's `STANDARD` engine.
pub uninterp spec fn base64_standard_encoding(data: Seq<u8>) -> Seq<u8>;

/// What the `base64` crate's `STANDARD` engine decodes `text` to, or `None`
/// where it reports an error.
pub uninterp spec fn base64_standard_decoding(text: Seq<u8>) -> Option<Seq<u8>>;

/// A symbol of the standard base64 alphabet, or the padding symbol `=`.
pub open spec fn is_base64_symbol(b: u8) -> bool {
    ||| (65 <= b && b <= 90)
    ||| (97 <= b && b <= 122)
    ||| (48 <= b && b <= 57)
    ||| b == 43
    ||| b == 47
    ||| b == 61
}

/// Length of the padded base64 text of `n` bytes: four symbols for each
/// started group of three bytes.
pub open spec fn encoded_len(n: nat) -> nat {
    4 * ((n + 2) / 3)
}

/// `base64::DecodeError`, the error of a failed decoding.
#[verifier::external_type_specification]
#[verifier::external_body]
pub struct ExDecodeError(base64::DecodeError);

/// Calls `Engine::encode` of the `base64` crate's `STANDARD` engine and
/// takes the text as bytes. Claimed of it: the result is the named encoding
/// of the input; decoding it with the same engine gives the input back;
/// every byte is an alphabet symbol or `=`; the length is four bytes per
/// started group of three input bytes. The `requires` leaves out inputs on
/// which the crate's length computation overflows and panics.
#[verifier::external_body]
fn standard_encode(data: &[u8]) -> (text: Vec<u8>)
    requires
        encoded_len(data@.len()) <= usize::MAX,
    ensures
        text@ == base64_standard_encoding(data@),
        base64_standard_decoding(text@) == Some(data@),
        forall|i: int| 0 <= i < text@.len() ==> is_base64_symbol(#[trigger] text@[i]),
        text@.len() == encoded_len(data@.len()),
{
    STANDARD.encode(data).into_bytes()
}

/// Calls `Engine::decode` of the `base64` crate's `STANDARD` engine.
/// Claimed of it: it succeeds exactly where the named decoding is defined,
/// and then returns that decoding.
#[verifier::external_body]
pub(crate) fn standard_decode(text: &[u8]) -> (r: Result<Vec<u8>, base64::DecodeError>)
    ensures
        match r {
            Ok(v) => base64_standard_decoding(text@) == Some(v@),
            Err(_) => base64_standard_decoding(text@) is None,
        },
{
    STANDARD.decode(text)
}

/// The frame that carries `msg`: its base64 text and a newline.
pub open spec fn frame_of(msg: Seq<u8>) -> Seq<u8> {
    base64_standard_encoding(msg).push(NEWLINE)
}

/// A line as the reading side expects it: non-empty, ending in the only
/// newline it holds.
pub open spec fn is_frame(line: Seq<u8>) -> bool {
    &&& line.len() > 0
    &&& line.last() == NEWLINE
    &&& forall|i: int| 0 <= i < line.len() - 1 ==> #[trigger] line[i] != NEWLINE
}

/// What the reading side gets out of a non-empty line: the decoding of all
/// but its last byte.
pub open spec fn line_payload(line: Seq<u8>) -> Option<Seq<u8>> {
    base64_standard_decoding(line.drop_last())
}

/// `n` is the length of the first line of `stream`, newline included: what
/// a line reader hands out first.
pub open spec fn is_first_line_len(stream: Seq<u8>, n: int) -> bool {
    &&& 0 < n <= stream.len()
    &&& stream[n - 1] == NEWLINE
    &&& forall|i: int| 0 <= i < n - 1 ==> #[trigger] stream[i] != NEWLINE
}

/// Why a line could not be turned back into a chunk.
#[derive(Debug, PartialEq, Eq, Structural)]
pub enum FrameError {
    /// The line without its last byte is not valid standard base64.
    InvalidBase64,
}

/// What one line read from the pipe stands for.
#[derive(Debug)]
pub enum LineEvent {
    /// Nothing was read: the pipe is at its end.
    Closed,
    /// The chunk that the line carried.
    Payload(Vec<u8>),
}

/// `r` is what reading `line` gives: an empty line means the pipe has
/// ended; otherwise the decoding of all but the last byte, or an error where
/// that is not valid base64.
pub open spec fn line_result(line: Seq<u8>, r: Result<LineEvent, FrameError>) -> bool {
    if line.len() == 0 {
        r matches Ok(LineEvent::Closed)
    } else {
        match line_payload(line) {
            Some(p) => r matches Ok(LineEvent::Payload(v)) && v@ == p,
            None => r == Err::<LineEvent, FrameError>(FrameError::InvalidBase64),
        }
    }
}

/// Frames a chunk for a line-oriented pipe: base64 text, then a newline.
/// The frame holds no other newline, and reading it back gives the chunk.
pub fn encode_frame(msg: &[u8]) -> (frame: Vec<u8>)
    requires
        encoded_len(msg@.len()) < usize::MAX,
    ensures
        frame@ == frame_of(msg@),
        frame@.len() == encoded_len(msg@.len()) + 1,
        is_frame(frame@),
        line_payload(frame@) == Some(msg@),
{
    let mut frame = standard_encode(msg);
    let ghost text = frame@;
    frame.push(NEWLINE);
    proof {
        assert(frame@.drop_last() =~= text);
        assert forall|i: int| 0 <= i < frame@.len() - 1 implies #[trigger] frame@[i] != NEWLINE by {
            assert(frame@[i] == text[i]);
            assert(is_base64_symbol(text[i]));
        }
    }
    frame
}

/// Turns one line read from the pipe back into a chunk. An empty line means
/// the pipe has ended. Otherwise the last byte (the newline, where the line
/// has one) is dropped and the rest decoded.
pub fn decode_line(line: &[u8]) -> (r: Result<LineEvent, FrameError>)
    ensures
        line_result(line@, r),
{
    let len = line.len();
    if len == 0 {
        return Ok(LineEvent::Closed);
    }
    let body = &line[0..len - 1];
    assert(body@ =~= line@.drop_last());
    match standard_decode(body) {
        Ok(v) => Ok(LineEvent::Payload(v)),
        Err(_) => Err(FrameError::InvalidBase64),
    }
}

/// A frame followed by anything is read back as that frame first: the line
/// reader stops exactly at the frame's newline.
pub proof fn lemma_frame_is_first_line(frame: Seq<u8>, rest: Seq<u8>)
    requires
        is_frame(frame),
    ensures
        is_first_line_len(frame + rest, frame.len() as int),
        (frame + rest).subrange(0, frame.len() as int) == frame,
{
    let s = frame + rest;
    assert forall|i: int| 0 <= i < frame.len() - 1 implies #[trigger] s[i] != NEWLINE by {
        assert(s[i] == frame[i]);
    }
    assert(s.subrange(0, frame.len() as int) =~= frame);
}

/// Index of the first newline in `s`, or -1 where it holds none.
pub open spec fn first_newline(s: Seq<u8>) -> int
    decreases s.len(),
{
    if s.len() == 0 {
        -1
    } else if s[0] == NEWLINE {
        0
    } else {
        let k = first_newline(s.drop_first());
        if k < 0 {
            -1
        } else {
            k + 1
        }
    }
}

/// The first newline, where there is one, lies inside the sequence.
pub proof fn lemma_first_newline_bound(s: Seq<u8>)
    ensures
        -1 <= first_newline(s) < s.len(),
        first_newline(s) >= 0 ==> s[first_newline(s)] == NEWLINE,
    decreases s.len(),
{
    if s.len() > 0 && s[0] != NEWLINE {
        lemma_first_newline_bound(s.drop_first());
    }
}

/// The lines a line reader hands out, one after the other, when it reads
/// `stream` to its end: each up to and including a newline, and a last one
/// without newline where the stream does not end in one.
pub open spec fn read_lines(stream: Seq<u8>) -> Seq<Seq<u8>>
    decreases stream.len(),
{
    if stream.len() == 0 {
        Seq::empty()
    } else {
        let k = first_newline(stream);
        proof {
            lemma_first_newline_bound(stream);
        }
        if k < 0 {
            seq![stream]
        } else {
            seq![stream.take(k + 1)] + read_lines(stream.skip(k + 1))
        }
    }
}

proof fn lemma_first_newline_of_frame(frame: Seq<u8>, rest: Seq<u8>)
    requires
        is_frame(frame),
    ensures
        first_newline(frame + rest) == frame.len() - 1,
    decreases frame.len(),
{
    let s = frame + rest;
    if frame.len() == 1 {
        assert(s[0] == frame[0]);
    } else {
        assert(s[0] == frame[0]);
        let tail = frame.drop_first();
        assert forall|i: int| 0 <= i < tail.len() - 1 implies #[trigger] tail[i] != NEWLINE by {
            assert(tail[i] == frame[i + 1]);
        }
        assert(tail.last() == frame.last());
        lemma_first_newline_of_frame(tail, rest);
        assert(s.drop_first() =~= tail + rest);
    }
}

/// Frames written one after the other are read back as the same lines, in
/// the same order, and nothing else: no chunk is split, merged, lost or
/// reordered by the line reader.
pub proof fn lemma_frames_read_back(frames: Seq<Seq<u8>>)
    requires
        forall|i: int| 0 <= i < frames.len() ==> is_frame(#[trigger] frames[i]),
    ensures
        read_lines(frames.flatten()) == frames,
    decreases frames.len(),
{
    if frames.len() == 0 {
        assert(read_lines(frames.flatten()) =~= frames);
    } else {
        let f = frames[0];
        let rest = frames.drop_first();
        assert forall|i: int| 0 <= i < rest.len() implies is_frame(#[trigger] rest[i]) by {
            assert(rest[i] == frames[i + 1]);
        }
        lemma_frames_read_back(rest);
        let s = frames.flatten();
        assert(s == f + rest.flatten());
        lemma_first_newline_of_frame(f, rest.flatten());
        assert(s.take(f.len() as int) =~= f);
        assert(s.skip(f.len() as int) =~= rest.flatten());
        assert(read_lines(s) =~= seq![f] + rest);
        assert(seq![f] + rest =~= frames);
    }
}

/// Chunks sent one after the other as frames (each line as `encode_frame`
/// makes it: a frame that reads back as its chunk) arrive as the same chunks,
/// in the same order, when the stream is read line by line.
pub proof fn lemma_chunks_read_back(frames: Seq<Seq<u8>>, chunks: Seq<Seq<u8>>)
    requires
        frames.len() == chunks.len(),
        forall|i: int| 0 <= i < frames.len() ==> is_frame(#[trigger] frames[i]),
        forall|i: int| 0 <= i < frames.len() ==> line_payload(#[trigger] frames[i]) == Some(chunks[i]),
    ensures
        read_lines(frames.flatten()).len() == chunks.len(),
        forall|i: int|
            0 <= i < chunks.len() ==> line_payload(#[trigger] read_lines(frames.flatten())[i])
                == Some(chunks[i]),
{
    lemma_frames_read_back(frames);
}

/// The chunks a reading loop hands on when its successive reads give
/// `results`: the payloads, in order, up to the first read that ends the
/// pipe or fails.
pub open spec fn delivered_by(results: Seq<Result<LineEvent, FrameError>>) -> Seq<Seq<u8>>
    decreases results.len(),
{
    if results.len() == 0 {
        Seq::empty()
    } else {
        match results[0] {
            Ok(LineEvent::Payload(v)) => seq![v@] + delivered_by(results.drop_first()),
            _ => Seq::empty(),
        }
    }
}

/// The chunks carried by successive `lines` of the pipe: the payload of
/// each line, in order, up to the first empty line or the first line that
/// is not valid base64.
pub open spec fn pipe_delivers(lines: Seq<Seq<u8>>) -> Seq<Seq<u8>>
    decreases lines.len(),
{
    if lines.len() == 0 || lines[0].len() == 0 {
        Seq::empty()
    } else {
        match line_payload(lines[0]) {
            Some(p) => seq![p] + pipe_delivers(lines.drop_first()),
            None => Seq::empty(),
        }
    }
}

/// Read line after line with `decode_line`, the pipe's reading side hands
/// on exactly the chunks the lines carry, in order, up to the first line
/// that ends or breaks the pipe.
pub proof fn lemma_pipe_reads_in_order(lines: Seq<Seq<u8>>, results: Seq<Result<LineEvent, FrameError>>)
    requires
        lines.len() == results.len(),
        forall|i: int| 0 <= i < lines.len() ==> line_result(#[trigger] lines[i], results[i]),
    ensures
        delivered_by(results) == pipe_delivers(lines),
    decreases lines.len(),
{
    if lines.len() > 0 {
        assert(line_result(lines[0], results[0]));
        let (l, r) = (lines.drop_first(), results.drop_first());
        assert forall|i: int| 0 <= i < l.len() implies line_result(#[trigger] l[i], r[i]) by {
            assert(l[i] == lines[i + 1]);
            assert(r[i] == results[i + 1]);
        }
        lemma_pipe_reads_in_order(l, r);
    }
}

/// Chunks written to the pipe as frames (each as `encode_frame` makes it)
/// are handed on by the reading side as the same chunks, in order, none
/// lost, split, merged or repeated.
pub proof fn lemma_pipe_delivers_chunks(frames: Seq<Seq<u8>>, chunks: Seq<Seq<u8>>)
    requires
        frames.len() == chunks.len(),
        forall|i: int| 0 <= i < frames.len() ==> is_frame(#[trigger] frames[i]),
        forall|i: int| 0 <= i < frames.len() ==> line_payload(#[trigger] frames[i]) == Some(chunks[i]),
    ensures
        pipe_delivers(read_lines(frames.flatten())) == chunks,
{
    lemma_frames_read_back(frames);
    lemma_frames_deliver(frames, chunks);
}

proof fn lemma_frames_deliver(frames: Seq<Seq<u8>>, chunks: Seq<Seq<u8>>)
    requires
        frames.len() == chunks.len(),
        forall|i: int| 0 <= i < frames.len() ==> is_frame(#[trigger] frames[i]),
        forall|i: int| 0 <= i < frames.len() ==> line_payload(#[trigger] frames[i]) == Some(chunks[i]),
    ensures
        pipe_delivers(frames) == chunks,
    decreases frames.len(),
{
    if frames.len() == 0 {
        assert(chunks =~= Seq::<Seq<u8>>::empty());
    } else {
        assert(is_frame(frames[0]));
        assert(line_payload(frames[0]) == Some(chunks[0]));
        let (f, c) = (frames.drop_first(), chunks.drop_first());
        assert forall|i: int| 0 <= i < f.len() implies is_frame(#[trigger] f[i]) && line_payload(f[i]) == Some(c[i]) by {
            assert(f[i] == frames[i + 1]);
            assert(c[i] == chunks[i + 1]);
            assert(is_frame(frames[i + 1]));
        }
        lemma_frames_deliver(f, c);
        assert(seq![chunks[0]] + c =~= chunks);
    }
}

} // verus!
