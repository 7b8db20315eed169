//! Frames: a `Content-Length` header, a blank line, then exactly that many
//! bytes of message body.
use vstd::prelude::*;
use vstd::slice::{slice_subrange, slice_to_vec};
use crate::bytes::push_all;
use crate::decimal::{all_digits, decimal, digits_value, lemma_decimal, parse_decimal, push_decimal};

verus! {

pub const CR: u8 = 13;

pub const LF: u8 = 10;

/// Length of the header prefix `Content-Length: `.
pub const PREFIX_LEN: usize = 16;

/// The bytes of `Content-Length: `.
pub open spec fn length_prefix() -> Seq<u8> {
    seq![67u8, 111u8, 110u8, 116u8, 101u8, 110u8, 116u8, 45u8, 76u8, 101u8, 110u8, 103u8, 116u8, 104u8, 58u8, 32u8]
}

pub open spec fn crlf() -> Seq<u8> {
    seq![CR, LF]
}

/// The frame that carries `body`.
pub open spec fn frame_of(body: Seq<u8>) -> Seq<u8> {
    length_prefix() + decimal(body.len()) + crlf() + crlf() + body
}

/// Why a byte stream does not start with a complete, well-formed frame.
#[derive(Debug, Clone, Copy, PartialEq, Eq, Structural)]
pub enum FrameError {
    /// The bytes end before the blank line or before the end of the body.
    Incomplete,
    /// The headers ended without a `Content-Length` header.
    MissingLength,
    /// A `Content-Length` header whose value is not a decimal `usize`.
    BadLength,
    /// A body that is not a JSON-RPC message.
    BadMessage,
}

/// A decoded frame: its body, and how many bytes of the input it took.
pub struct Frame {
    pub body: Vec<u8>,
    pub consumed: usize,
}

/// The index of the first CR LF pair at or after `from`, or -1.
pub open spec fn find_crlf(s: Seq<u8>, from: int) -> int
    decreases s.len() - from,
{
    if from < 0 || from + 1 >= s.len() {
        -1
    } else if s[from] == CR && s[from + 1] == LF {
        from
    } else {
        find_crlf(s, from + 1)
    }
}

/// Whether a header line starts with the `Content-Length: ` prefix, exactly
/// as written.
pub open spec fn declares_length(line: Seq<u8>) -> bool {
    line.len() >= PREFIX_LEN && line.take(PREFIX_LEN as int) == length_prefix()
}

/// A declared length is a nonempty run of digits whose value fits a `usize`.
pub open spec fn valid_length(v: Seq<u8>) -> bool {
    v.len() > 0 && all_digits(v) && digits_value(v) <= usize::MAX
}

/// Reads header lines from `pos` on, with `len` the last length declared so
/// far, up to the blank line: the index where the body starts and its length.
pub open spec fn scan_headers(s: Seq<u8>, pos: int, len: Option<nat>) -> Result<(int, nat), FrameError>
    decreases s.len() - pos,
{
    let e = find_crlf(s, pos);
    if e < pos || e + 2 > s.len() {
        Err(FrameError::Incomplete)
    } else if e == pos {
        match len {
            Some(n) => Ok((pos + 2, n)),
            None => Err(FrameError::MissingLength),
        }
    } else {
        let line = s.subrange(pos, e);
        if declares_length(line) {
            let v = line.skip(PREFIX_LEN as int);
            if valid_length(v) {
                scan_headers(s, e + 2, Some(digits_value(v)))
            } else {
                Err(FrameError::BadLength)
            }
        } else {
            scan_headers(s, e + 2, len)
        }
    }
}

/// The first frame of `s`: its body and the number of bytes it spans.
pub open spec fn decode_spec(s: Seq<u8>) -> Result<(Seq<u8>, int), FrameError> {
    match scan_headers(s, 0, None) {
        Ok((start, n)) => if start + n <= s.len() {
            Ok((s.subrange(start, start + n), start + n))
        } else {
            Err(FrameError::Incomplete)
        },
        Err(e) => Err(e),
    }
}

/// `find_crlf` from `from` lands on `e` when no CR stands between them and a
/// CR LF pair starts at `e`.
proof fn lemma_find_crlf_at(s: Seq<u8>, from: int, e: int)
    requires
        0 <= from <= e,
        e + 1 < s.len(),
        s[e] == CR,
        s[e + 1] == LF,
        forall|i: int| from <= i < e ==> s[i] != CR,
    ensures
        find_crlf(s, from) == e,
    decreases e - from,
{
    if from < e {
        lemma_find_crlf_at(s, from + 1, e);
    }
}

/// Decoding a frame, whatever follows it, gives back the body it carries and
/// the frame's exact length.
pub proof fn lemma_frame_round_trip(body: Seq<u8>, rest: Seq<u8>)
    requires
        body.len() <= usize::MAX,
    ensures
        decode_spec(frame_of(body) + rest) == Ok::<(Seq<u8>, int), FrameError>(
            (body, frame_of(body).len() as int),
        ),
{
    let n = body.len();
    let d = decimal(n);
    lemma_decimal(n);
    let s = frame_of(body) + rest;
    let l = PREFIX_LEN as int + d.len();
    assert(s.len() == l + 4 + n + rest.len());
    assert forall|i: int| 0 <= i < l implies s[i] != CR by {
        if i < PREFIX_LEN as int {
            assert(s[i] == length_prefix()[i]);
        } else {
            assert(s[i] == d[i - PREFIX_LEN as int]);
            assert(crate::decimal::is_digit(d[i - PREFIX_LEN as int]));
        }
    }
    assert(s[l] == CR && s[l + 1] == LF);
    lemma_find_crlf_at(s, 0, l);
    let line = s.subrange(0, l);
    assert(line.take(PREFIX_LEN as int) =~= length_prefix());
    assert(line.skip(PREFIX_LEN as int) =~= d);
    assert(s[l + 2] == CR && s[l + 3] == LF);
    assert(find_crlf(s, l + 2) == l + 2);
    assert(scan_headers(s, l + 2, Some(n)) == Ok::<(int, nat), FrameError>((l + 4, n)));
    assert(scan_headers(s, 0, None) == Ok::<(int, nat), FrameError>((l + 4, n)));
    assert(s.subrange(l + 4, l + 4 + n) =~= body);
}

pub open spec fn nat_of(len: Option<usize>) -> Option<nat> {
    match len {
        Some(n) => Some(n as nat),
        None => None,
    }
}

fn length_prefix_bytes() -> (r: [u8; 16])
    ensures
        r@ == length_prefix(),
{
    let r: [u8; 16] = [67, 111, 110, 116, 101, 110, 116, 45, 76, 101, 110, 103, 116, 104, 58, 32];
    assert(r@ =~= length_prefix());
    r
}

fn push_length_prefix(out: &mut Vec<u8>)
    ensures
        final(out)@ == old(out)@ + length_prefix(),
{
    let prefix = length_prefix_bytes();
    push_all(out, &prefix);
}

/// Frames `body`: `Content-Length: <n>`, CR LF, CR LF, then the body itself.
pub fn encode_frame(body: &[u8]) -> (r: Vec<u8>)
    ensures
        r@ == frame_of(body@),
{
    let mut out: Vec<u8> = Vec::new();
    push_length_prefix(&mut out);
    push_decimal(body.len(), &mut out);
    out.push(CR);
    out.push(LF);
    out.push(CR);
    out.push(LF);
    let mut rest = slice_to_vec(body);
    out.append(&mut rest);
    assert(out@ =~= frame_of(body@));
    out
}

/// Finds the first CR LF pair at or after `from`.
fn find_line_end(s: &[u8], from: usize) -> (r: Option<usize>)
    ensures
        match r {
            Some(e) => find_crlf(s@, from as int) == e as int && from <= e && e + 2 <= s@.len(),
            None => find_crlf(s@, from as int) == -1,
        },
{
    if from >= s.len() {
        return None;
    }
    let n = s.len();
    let mut i = from;
    while i + 1 < n
        invariant
            n == s@.len(),
            from <= i < s@.len(),
            find_crlf(s@, from as int) == find_crlf(s@, i as int),
        decreases s@.len() - i,
    {
        if s[i] == CR && s[i + 1] == LF {
            return Some(i);
        }
        i = i + 1;
    }
    None
}

/// Whether `s[start..end]` starts with `Content-Length: `.
fn line_declares_length(s: &[u8], start: usize, end: usize) -> (r: bool)
    requires
        start <= end <= s@.len(),
    ensures
        r == declares_length(s@.subrange(start as int, end as int)),
{
    if end - start < PREFIX_LEN {
        return false;
    }
    let prefix = length_prefix_bytes();
    let ghost line = s@.subrange(start as int, end as int);
    let mut i: usize = 0;
    while i < PREFIX_LEN
        invariant
            0 <= i <= PREFIX_LEN,
            start + PREFIX_LEN <= end <= s@.len(),
            prefix@ == length_prefix(),
            line == s@.subrange(start as int, end as int),
            forall|j: int| 0 <= j < i ==> line[j] == length_prefix()[j],
        decreases PREFIX_LEN - i,
    {
        if s[start + i] != prefix[i] {
            assert(line.take(PREFIX_LEN as int)[i as int] != length_prefix()[i as int]);
            return false;
        }
        i = i + 1;
    }
    assert(line.take(PREFIX_LEN as int) =~= length_prefix());
    true
}

/// Decodes the first frame of `buf`: header lines end with CR LF, unknown
/// headers are skipped, the last `Content-Length` counts, and the body is the
/// declared number of bytes after the blank line. `Incomplete` asks for more
/// bytes; at the end of the stream it is a framing fault like the others.
pub fn decode_frame(buf: &[u8]) -> (r: Result<Frame, FrameError>)
    ensures
        match r {
            Ok(f) => decode_spec(buf@) == Ok::<(Seq<u8>, int), FrameError>((f.body@, f.consumed as int)),
            Err(e) => decode_spec(buf@) == Err::<(Seq<u8>, int), FrameError>(e),
        },
{
    let mut pos: usize = 0;
    let mut len: Option<usize> = None;
    let ghost s = buf@;
    let total = buf.len();
    loop
        invariant
            s == buf@,
            total == buf@.len(),
            pos <= buf@.len(),
            scan_headers(s, 0, None) == scan_headers(s, pos as int, nat_of(len)),
        decreases buf@.len() - pos,
    {
        let found = find_line_end(buf, pos);
        match found {
            None => {
                return Err(FrameError::Incomplete);
            },
            Some(e) => {
                if e == pos {
                    match len {
                        None => {
                            return Err(FrameError::MissingLength);
                        },
                        Some(n) => {
                            let start = pos + 2;
                            if n > buf.len() - start {
                                return Err(FrameError::Incomplete);
                            }
                            let body = slice_to_vec(slice_subrange(buf, start, start + n));
                            return Ok(Frame { body, consumed: start + n });
                        },
                    }
                }
                if line_declares_length(buf, pos, e) {
                    let digits = slice_subrange(buf, pos + PREFIX_LEN, e);
                    assert(digits@ =~= s.subrange(pos as int, e as int).skip(PREFIX_LEN as int));
                    match parse_decimal(digits) {
                        None => {
                            return Err(FrameError::BadLength);
                        },
                        Some(v) => {
                            len = Some(v);
                        },
                    }
                }
                pos = e + 2;
            },
        }
    }
}

} // verus!
