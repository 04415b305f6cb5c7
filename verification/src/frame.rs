//! The frame format: a header that declares a byte length, a blank line, and
//! exactly that many bytes of body.

use vstd::prelude::*;
use vstd::string::StringExecFns;
use vstd::utf8::encode_utf8;
use vstd::utf8::is_ascii_chars;
use vstd::utf8::is_ascii_chars_encode_utf8;
use crate::decimal::all_digits;
use crate::decimal::append_decimal;
use crate::decimal::ascii_text;
use crate::decimal::decimal;
use crate::decimal::is_digit;
use crate::decimal::declared_length;
use crate::decimal::lemma_decimal_digits;
use crate::decimal::lemma_declared_decimal;
use crate::decimal::parse_length;
use crate::header::header_scan;
use crate::header::is_length_header;
use crate::header::scan_headers;
use crate::header::HeaderScan;
use crate::header::HeaderScanView;
use crate::header::HeaderView;
use vstd::slice::slice_subrange;

verus! {

/// The bytes of `Content-Length`, the name of the header that declares the
/// length of a body.
pub open spec fn length_name() -> Seq<u8> {
    seq![67u8, 111, 110, 116, 101, 110, 116, 45, 76, 101, 110, 103, 116, 104]
}

/// The bytes of `Content-Length: `, which open the header of every frame
/// that the encoder writes.
pub open spec fn length_prefix() -> Seq<u8> {
    length_name() + seq![58u8, 32]
}

/// The lower-case form of an ASCII letter; any other byte is itself.
pub open spec fn lower(b: u8) -> u8 {
    if 65 <= b <= 90 {
        (b + 32) as u8
    } else {
        b
    }
}

/// Whether `name` is the name of the length header. The case of its letters
/// does not count: `content-length` and `CONTENT-LENGTH` name it too.
pub open spec fn names_length(name: Seq<u8>) -> bool {
    &&& name.len() == length_name().len()
    &&& forall|i: int| 0 <= i < name.len() ==> lower(#[trigger] name[i]) == lower(length_name()[i])
}

/// The lower-case form of the byte at place `i` of `Content-Length`.
fn name_byte(i: usize) -> (r: u8)
    requires
        i < 14,
    ensures
        r == lower(length_name()[i as int]),
{
    match i {
        0 => 99,
        1 => 111,
        2 => 110,
        3 => 116,
        4 => 101,
        5 => 110,
        6 => 116,
        7 => 45,
        8 => 108,
        9 => 101,
        10 => 110,
        11 => 103,
        12 => 116,
        _ => 104,
    }
}

/// Whether `name` is the name of the length header, whatever the case of
/// its letters.
pub fn is_length_name(name: &[u8]) -> (r: bool)
    ensures
        r == names_length(name@),
{
    if name.len() != 14 {
        return false;
    }
    let mut i: usize = 0;
    while i < 14
        invariant
            i <= 14 == name.len(),
            forall|j: int| 0 <= j < i ==> lower(#[trigger] name@[j]) == lower(length_name()[j]),
        decreases 14 - i,
    {
        let b = name[i];
        let low = if 65 <= b && b <= 90 {
            b + 32
        } else {
            b
        };
        if low != name_byte(i) {
            assert(lower(name@[i as int]) != lower(length_name()[i as int]));
            return false;
        }
        i = i + 1;
    }
    true
}

/// The blank line that ends a header: carriage return and line feed, twice.
pub open spec fn delimiter() -> Seq<u8> {
    seq![13u8, 10, 13, 10]
}

/// The header of a frame whose body has `n` bytes.
pub open spec fn frame_header(n: nat) -> Seq<u8> {
    length_prefix() + decimal(n) + delimiter()
}

/// The number of bytes in the header of a frame whose body has `n` bytes.
pub open spec fn header_length(n: nat) -> int {
    frame_header(n).len() as int
}

/// The frame that carries `body`.
pub open spec fn frame_bytes(body: Seq<u8>) -> Seq<u8> {
    frame_header(body.len()) + body
}

/// Whether every byte of `bytes` is below 128.
pub open spec fn is_ascii_bytes(bytes: Seq<u8>) -> bool {
    forall|i: int| 0 <= i < bytes.len() ==> #[trigger] bytes[i] < 128
}

/// Encoding a text in two parts gives the two encodings, one after the other.
pub proof fn lemma_encode_concat(a: Seq<char>, b: Seq<char>)
    ensures
        encode_utf8(a + b) == encode_utf8(a) + encode_utf8(b),
    decreases a.len(),
{
    if a.len() == 0 {
        assert(a + b =~= b);
        assert(encode_utf8(a) + encode_utf8(b) =~= encode_utf8(b));
    } else {
        lemma_encode_concat(a.drop_first(), b);
        assert((a + b).drop_first() =~= a.drop_first() + b);
        assert((a + b)[0] == a[0]);
        assert(encode_utf8(a + b) =~= encode_utf8(a) + encode_utf8(b));
    }
}

/// ASCII bytes are the encoding of the characters that stand for them.
pub proof fn lemma_encode_ascii(bytes: Seq<u8>)
    requires
        is_ascii_bytes(bytes),
    ensures
        encode_utf8(ascii_text(bytes)) == bytes,
{
    let text = ascii_text(bytes);
    assert forall|i: int| 0 <= i < text.len() implies '\0' <= #[trigger] text[i] <= '\u{7f}' by {
        assert(bytes[i] < 128);
    }
    assert(is_ascii_chars(text));
    is_ascii_chars_encode_utf8(text);
    assert forall|i: int| 0 <= i < bytes.len() implies encode_utf8(text)[i] == bytes[i] by {
        assert(bytes[i] < 128);
        assert(text[i] as u8 == encode_utf8(text)[i]);
        assert(text[i] == bytes[i] as char);
    }
    assert(encode_utf8(text) =~= bytes);
}

/// A frame header holds ASCII bytes only.
pub proof fn lemma_header_ascii(n: nat)
    ensures
        is_ascii_bytes(frame_header(n)),
{
    lemma_decimal_digits(n);
    let digits = decimal(n);
    let header = frame_header(n);
    assert forall|i: int| 0 <= i < header.len() implies #[trigger] header[i] < 128 by {
        if i < 16 {
            assert(header[i] == length_prefix()[i]);
        } else if i < 16 + digits.len() {
            assert(header[i] == digits[i - 16]);
            assert(is_digit(digits[i - 16]));
        } else {
            assert(header[i] == delimiter()[i - 16 - digits.len()]);
        }
    }
}

/// Frames `data`: the text `Content-Length: `, the number of bytes that `data`
/// takes in UTF-8, a blank line, and `data` itself, with nothing after it.
pub fn make_payload(data: &str) -> (r: String)
    ensures
        r@ == ascii_text(frame_header(encode_utf8(data@).len())) + data@,
        encode_utf8(r@) == frame_bytes(encode_utf8(data@)),
{
    let mut out = "Content-Length: ".to_owned();
    append_decimal(data.as_bytes().len(), &mut out);
    out.append("\r\n\r\n");
    out.append(data);
    proof {
        reveal_strlit("Content-Length: ");
        reveal_strlit("\r\n\r\n");
        let n = encode_utf8(data@).len();
        let header = frame_header(n);
        assert("Content-Length: "@ =~= ascii_text(length_prefix()));
        assert("\r\n\r\n"@ =~= ascii_text(delimiter()));
        assert(ascii_text(header) =~= ascii_text(length_prefix()) + ascii_text(decimal(n))
            + ascii_text(delimiter()));
        assert(out@ =~= ascii_text(header) + data@);
        lemma_header_ascii(n);
        lemma_encode_ascii(header);
        lemma_encode_concat(ascii_text(header), data@);
    }
    out
}

/// Why a buffer cannot be cut into a frame.
#[derive(Clone, Copy, Debug, PartialEq, Eq, Structural)]
pub enum FrameError {
    /// The bytes up to the first blank line are not a well-formed header
    /// section with a single header that ends exactly with that blank line.
    MalformedHeader,
    /// The header section does not begin with the length header, so no
    /// length is declared.
    MissingLength,
    /// The value of the length header is not a length.
    InvalidLength,
    /// The stream ended before the frame was complete.
    Truncated,
    /// The body is not UTF-8 text that holds one JSON value.
    InvalidBody,
}

/// What a buffer is, seen as the start of a stream of frames.
pub enum Cut {
    /// The buffer ends before its first frame does.
    Wanting,
    /// The buffer starts with a frame that carries `body`, and `rest` follows it.
    Frame { body: Seq<u8>, rest: Seq<u8> },
    /// The buffer does not start with a frame, whatever may follow.
    Failed(FrameError),
}

/// Where the first frame of a buffer lies.
#[derive(Clone, Copy, Debug, PartialEq, Eq, Structural)]
pub enum Located {
    /// The buffer ends before its first frame does.
    Wanting,
    /// The body of the first frame runs from `start` up to `end`.
    Frame { start: usize, end: usize },
    /// The buffer does not start with a frame.
    Failed(FrameError),
}

impl Located {
    /// This answer, given of `buffer`, in terms of the bytes themselves.
    pub open spec fn cut(self, buffer: Seq<u8>) -> Cut {
        match self {
            Located::Wanting => Cut::Wanting,
            Located::Frame { start, end } => Cut::Frame {
                body: buffer.subrange(start as int, end as int),
                rest: buffer.subrange(end as int, buffer.len() as int),
            },
            Located::Failed(e) => Cut::Failed(e),
        }
    }

    /// Whether the positions of this answer lie inside `buffer`, in order.
    pub open spec fn within(self, buffer: Seq<u8>) -> bool {
        self matches Located::Frame { start, end } ==> start <= end <= buffer.len()
    }
}

/// Whether the blank line stands in `buffer` at position `p`.
pub open spec fn delimiter_at(buffer: Seq<u8>, p: int) -> bool {
    &&& 0 <= p
    &&& p + 4 <= buffer.len()
    &&& buffer[p] == 13
    &&& buffer[p + 1] == 10
    &&& buffer[p + 2] == 13
    &&& buffer[p + 3] == 10
}

/// The first position at or after `from` at which the blank line stands.
pub open spec fn delimiter_from(buffer: Seq<u8>, from: int) -> Option<int>
    decreases buffer.len() - from,
{
    if from < 0 || from + 4 > buffer.len() {
        None
    } else if delimiter_at(buffer, from) {
        Some(from)
    } else {
        delimiter_from(buffer, from + 1)
    }
}

/// The position of the first blank line in `buffer`.
pub open spec fn first_delimiter(buffer: Seq<u8>) -> Option<int> {
    delimiter_from(buffer, 0)
}

/// What `delimiter_from` finds is the first blank line from `from` on, and
/// it finds none only where there is none.
pub proof fn lemma_delimiter_from(buffer: Seq<u8>, from: int)
    requires
        0 <= from,
    ensures
        match delimiter_from(buffer, from) {
            Some(p) => from <= p && delimiter_at(buffer, p) && forall|q: int|
                from <= q < p ==> !delimiter_at(buffer, q),
            None => forall|q: int| from <= q ==> !delimiter_at(buffer, q),
        },
    decreases buffer.len() - from,
{
    if from + 4 > buffer.len() {
    } else if delimiter_at(buffer, from) {
    } else {
        lemma_delimiter_from(buffer, from + 1);
    }
}

/// A position at which the blank line stands, with none before it from
/// `from` on, is what `delimiter_from` finds.
pub proof fn lemma_delimiter_found(buffer: Seq<u8>, from: int, p: int)
    requires
        0 <= from <= p,
        delimiter_at(buffer, p),
        forall|q: int| from <= q < p ==> !delimiter_at(buffer, q),
    ensures
        delimiter_from(buffer, from) == Some(p),
    decreases p - from,
{
    if from < p {
        lemma_delimiter_found(buffer, from + 1, p);
    }
}

/// Finds the first blank line in `buffer`.
pub fn find_delimiter(buffer: &[u8]) -> (r: Option<usize>)
    ensures
        match r {
            Some(p) => first_delimiter(buffer@) == Some(p as int),
            None => first_delimiter(buffer@) is None,
        },
{
    let n = buffer.len();
    if n < 4 {
        return None;
    }
    let mut p: usize = 0;
    while p <= n - 4
        invariant
            4 <= n == buffer.len(),
            p <= n,
            delimiter_from(buffer@, 0) == delimiter_from(buffer@, p as int),
        decreases n - p,
    {
        if buffer[p] == 13 && buffer[p + 1] == 10 && buffer[p + 2] == 13 && buffer[p + 3] == 10 {
            return Some(p);
        }
        p = p + 1;
    }
    None
}

/// What to make of `buffer` once the scanner has answered `scan` on its
/// header block, the bytes before `start`.
///
/// A section that does not begin with the length header declares no
/// length: it has no header at all, or its first header has another name than
/// `Content-Length`, the case of letters aside. Otherwise only a section that
/// is complete exactly at `start` counts, and the value of the length header
/// declares how many bytes of body follow.
pub open spec fn after_header(buffer: Seq<u8>, start: int, scan: HeaderScanView) -> Cut {
    match scan {
        HeaderScanView::Malformed => Cut::Failed(FrameError::MalformedHeader),
        HeaderScanView::Partial => Cut::Failed(FrameError::MalformedHeader),
        HeaderScanView::Complete { end, headers } => {
            if headers.len() == 0 || !names_length(headers[0].name) {
                Cut::Failed(FrameError::MissingLength)
            } else if end != start {
                Cut::Failed(FrameError::MalformedHeader)
            } else {
                match declared_length(headers[0].value) {
                    None => Cut::Failed(FrameError::InvalidLength),
                    Some(n) => {
                        if buffer.len() < start + n {
                            Cut::Wanting
                        } else {
                            Cut::Frame {
                                body: buffer.subrange(start, start + n),
                                rest: buffer.subrange(start + n, buffer.len() as int),
                            }
                        }
                    },
                }
            }
        },
    }
}

/// What `buffer` is, seen as the start of a stream of frames.
///
/// The header block runs up to and including the first blank line. Until a
/// blank line has arrived nothing is decided. The block is then scanned as a
/// header section with room for a single header.
pub open spec fn cut_frame(buffer: Seq<u8>) -> Cut {
    match first_delimiter(buffer) {
        None => Cut::Wanting,
        Some(p) => after_header(buffer, p + 4, header_scan(buffer.subrange(0, p + 4), 1)),
    }
}

/// Decides where the body lies in `buffer`, whose header block is the
/// `start` bytes on which the scanner answered `scan`.
pub fn frame_after(buffer: &[u8], start: usize, scan: &HeaderScan) -> (r: Located)
    ensures
        r.cut(buffer@) == after_header(buffer@, start as int, scan@),
        r.within(buffer@),
{
    match scan {
        HeaderScan::Malformed => Located::Failed(FrameError::MalformedHeader),
        HeaderScan::Partial => Located::Failed(FrameError::MalformedHeader),
        HeaderScan::Complete { end, headers } => {
            if headers.len() == 0 || !is_length_name(headers[0].name.as_slice()) {
                Located::Failed(FrameError::MissingLength)
            } else if *end != start {
                Located::Failed(FrameError::MalformedHeader)
            } else {
                match parse_length(headers[0].value.as_slice()) {
                    None => Located::Failed(FrameError::InvalidLength),
                    Some(n) => {
                        if buffer.len() < start || buffer.len() - start < n {
                            Located::Wanting
                        } else {
                            Located::Frame { start, end: start + n }
                        }
                    },
                }
            }
        },
    }
}

/// The first frame of a buffer that begins with an encoded frame is that
/// frame, provided the scanner reports its header as what it is: complete at
/// its end, with the digits of the length as the only value.
pub proof fn lemma_cut_encoded(body: Seq<u8>, rest: Seq<u8>)
    requires
        body.len() <= usize::MAX,
    ensures
        first_delimiter(frame_bytes(body) + rest) == Some(header_length(body.len()) - 4),
        (frame_bytes(body) + rest).subrange(0, header_length(body.len())) == frame_header(
            body.len(),
        ),
        is_length_header(frame_header(body.len())),
        frame_header(body.len()).subrange(16, header_length(body.len()) - 4) == decimal(
            body.len(),
        ),
        after_header(
            frame_bytes(body) + rest,
            header_length(body.len()),
            HeaderScanView::Complete {
                end: frame_header(body.len()).len(),
                headers: seq![HeaderView { name: length_name(), value: decimal(body.len()) }],
            },
        ) == (Cut::Frame { body, rest }),
{
    let n = body.len();
    let digits = decimal(n);
    let header = frame_header(n);
    let buffer = frame_bytes(body) + rest;
    let p: int = digits.len() as int + 16;
    lemma_decimal_digits(n);
    lemma_declared_decimal(n);
    assert(header.len() == p + 4);
    assert forall|q: int| 0 <= q < p implies !delimiter_at(buffer, q) by {
        if q < 16 {
            assert(buffer[q] == length_prefix()[q]);
        } else {
            assert(buffer[q] == digits[q - 16]);
            assert(is_digit(digits[q - 16]));
        }
    }
    assert(delimiter_at(buffer, p)) by {
        assert(buffer[p] == delimiter()[0]);
        assert(buffer[p + 1] == delimiter()[1]);
        assert(buffer[p + 2] == delimiter()[2]);
        assert(buffer[p + 3] == delimiter()[3]);
    }
    lemma_delimiter_found(buffer, 0, p);
    assert(buffer.subrange(0, p + 4) =~= header);
    assert(header.subrange(0, 16) =~= length_prefix());
    assert(header.subrange(16, header.len() - 4) =~= digits);
    assert(header.subrange(header.len() - 4, header.len() as int) =~= delimiter());
    assert(buffer.subrange(p + 4, p + 4 + n) =~= body);
    assert(buffer.subrange(p + 4 + n, buffer.len() as int) =~= rest);
}

/// What a buffer is that begins a stream whose first frame is the encoding
/// of `body`: nothing yet while the frame is incomplete, and from then on the
/// body and whatever the buffer holds after the frame.
pub open spec fn cut_of_encoded(buffer: Seq<u8>, body: Seq<u8>) -> Cut {
    let end = frame_bytes(body).len() as int;
    if buffer.len() < end {
        Cut::Wanting
    } else {
        Cut::Frame { body, rest: buffer.subrange(end, buffer.len() as int) }
    }
}

/// A buffer that begins a stream whose first frame is the encoding of `body`
/// has no blank line before the header of that frame is complete. From then on
/// its header block is that header, and it is cut as such a buffer should be,
/// provided the scanner reports the header as what it is.
pub proof fn lemma_cut_encoded_prefix(buffer: Seq<u8>, body: Seq<u8>, rest: Seq<u8>)
    requires
        buffer.is_prefix_of(frame_bytes(body) + rest),
        body.len() <= usize::MAX,
    ensures
        buffer.len() < header_length(body.len()) ==> first_delimiter(buffer) is None,
        buffer.len() >= header_length(body.len()) ==> first_delimiter(buffer) == Some(
            header_length(body.len()) - 4,
        ),
        buffer.len() >= header_length(body.len()) ==> buffer.subrange(
            0,
            header_length(body.len()),
        ) == frame_header(body.len()),
        buffer.len() >= header_length(body.len()) ==> after_header(
            buffer,
            header_length(body.len()),
            HeaderScanView::Complete {
                end: frame_header(body.len()).len(),
                headers: seq![HeaderView { name: length_name(), value: decimal(body.len()) }],
            },
        ) == cut_of_encoded(buffer, body),
{
    let n = body.len();
    let whole = frame_bytes(body) + rest;
    let hl = header_length(n);
    let p = hl - 4;
    lemma_cut_encoded(body, rest);
    lemma_delimiter_from(whole, 0);
    lemma_declared_decimal(n);
    assert forall|q: int| 0 <= q < p implies !delimiter_at(buffer, q) by {
        assert(!delimiter_at(whole, q));
        if q + 4 <= buffer.len() {
            assert(buffer[q] == whole[q]);
            assert(buffer[q + 1] == whole[q + 1]);
            assert(buffer[q + 2] == whole[q + 2]);
            assert(buffer[q + 3] == whole[q + 3]);
        }
    }
    lemma_delimiter_from(buffer, 0);
    if buffer.len() >= hl {
        assert(delimiter_at(buffer, p)) by {
            assert(buffer[p] == whole[p]);
            assert(buffer[p + 1] == whole[p + 1]);
            assert(buffer[p + 2] == whole[p + 2]);
            assert(buffer[p + 3] == whole[p + 3]);
        }
        lemma_delimiter_found(buffer, 0, p);
        assert(buffer.subrange(0, hl) =~= whole.subrange(0, hl));
        if buffer.len() >= hl + n {
            assert(buffer.subrange(hl, hl + n) =~= body);
        }
    }
}

/// Finds the first frame of `buffer`.
///
/// Decoding undoes encoding. A buffer that begins with a frame written by
/// the encoder is cut into the body that was framed and the bytes that follow
/// the frame, so that a second frame that came along is left untouched. And
/// while such a frame is still arriving, in whatever pieces, the buffer is
/// wanting and never refused.
pub fn next_frame(buffer: &[u8]) -> (r: Located)
    ensures
        r.cut(buffer@) == cut_frame(buffer@),
        r.within(buffer@),
        forall|body: Seq<u8>, rest: Seq<u8>|
            buffer@ == #[trigger] (frame_bytes(body) + rest) ==> r.cut(buffer@) == (Cut::Frame {
                body,
                rest,
            }),
        forall|body: Seq<u8>, rest: Seq<u8>|
            body.len() <= usize::MAX && buffer@.is_prefix_of(
                #[trigger] (frame_bytes(body) + rest),
            ) ==> r.cut(buffer@) == cut_of_encoded(buffer@, body),
{
    let len = buffer.len();
    let r = match find_delimiter(buffer) {
        None => {
            proof {
                assert forall|body: Seq<u8>, rest: Seq<u8>|
                    body.len() <= usize::MAX && buffer@.is_prefix_of(
                        #[trigger] (frame_bytes(body) + rest),
                    ) implies cut_of_encoded(buffer@, body) is Wanting by {
                    lemma_cut_encoded_prefix(buffer@, body, rest);
                }
            }
            Located::Wanting
        },
        Some(p) => {
            proof {
                lemma_delimiter_from(buffer@, 0);
                assert(delimiter_at(buffer@, p as int));
                assert(p + 4 <= len);
            }
            let block = slice_subrange(buffer, 0, p + 4);
            let scan = scan_headers(block, 1);
            let r = frame_after(buffer, p + 4, &scan);
            proof {
                assert forall|body: Seq<u8>, rest: Seq<u8>|
                    body.len() <= usize::MAX && buffer@.is_prefix_of(
                        #[trigger] (frame_bytes(body) + rest),
                    ) implies r.cut(buffer@) == cut_of_encoded(buffer@, body) by {
                    lemma_cut_encoded_prefix(buffer@, body, rest);
                    lemma_cut_encoded(body, rest);
                }
            }
            r
        },
    };
    proof {
        assert forall|body: Seq<u8>, rest: Seq<u8>|
            buffer@ == #[trigger] (frame_bytes(body) + rest) implies r.cut(buffer@) == (
            Cut::Frame { body, rest }) by {
            let whole = frame_bytes(body) + rest;
            assert(body.len() <= len);
            assert(whole.is_prefix_of(whole));
            assert(whole.subrange(frame_bytes(body).len() as int, whole.len() as int) =~= rest);
        }
    }
    r
}

/// Bytes that arrive later do not move the first blank line.
pub proof fn lemma_delimiter_stable(buffer: Seq<u8>, more: Seq<u8>)
    ensures
        first_delimiter(buffer) matches Some(p) ==> first_delimiter(buffer + more) == Some(p),
{
    if let Some(p) = first_delimiter(buffer) {
        lemma_delimiter_from(buffer, 0);
        let longer = buffer + more;
        assert(delimiter_at(longer, p)) by {
            assert(longer[p] == buffer[p]);
            assert(longer[p + 1] == buffer[p + 1]);
            assert(longer[p + 2] == buffer[p + 2]);
            assert(longer[p + 3] == buffer[p + 3]);
        }
        assert forall|q: int| 0 <= q < p implies !delimiter_at(longer, q) by {
            assert(!delimiter_at(buffer, q));
            assert(longer[q] == buffer[q]);
            assert(longer[q + 1] == buffer[q + 1]);
            assert(longer[q + 2] == buffer[q + 2]);
            assert(longer[q + 3] == buffer[q + 3]);
        }
        lemma_delimiter_found(longer, 0, p);
    }
}

/// Bytes that arrive later change nothing that is decided: a buffer that
/// starts with a frame keeps that frame, with the new bytes joining what
/// follows it, and a buffer that fails keeps failing in the same way.
pub proof fn lemma_cut_stable(buffer: Seq<u8>, more: Seq<u8>)
    ensures
        cut_frame(buffer) matches Cut::Frame { body, rest } ==> cut_frame(buffer + more) == (
        Cut::Frame { body, rest: rest + more }),
        cut_frame(buffer) matches Cut::Failed(e) ==> cut_frame(buffer + more) == Cut::Failed(e),
{
    if let Some(p) = first_delimiter(buffer) {
        lemma_delimiter_from(buffer, 0);
        lemma_delimiter_stable(buffer, more);
        let longer = buffer + more;
        assert(longer.subrange(0, p + 4) =~= buffer.subrange(0, p + 4));
        if let Cut::Frame { body, rest } = cut_frame(buffer) {
            let end = p + 4 + body.len();
            assert(longer.subrange(p + 4, end) =~= body);
            assert(longer.subrange(end, longer.len() as int) =~= rest + more);
        }
    }
}

} // verus!
