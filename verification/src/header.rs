//! The header scanner: the one place where a block of header bytes is handed
//! to the HTTP header parser.

use vstd::prelude::*;
use crate::decimal::all_digits;
use crate::frame::delimiter;
use crate::frame::length_name;
use crate::frame::length_prefix;

verus! {

/// One header of a header section: the bytes of its name, and the bytes
/// of its value.
#[derive(Debug, PartialEq, Eq)]
pub struct Header {
    pub name: Vec<u8>,
    pub value: Vec<u8>,
}

/// A `Header` as a mathematical value.
pub struct HeaderView {
    pub name: Seq<u8>,
    pub value: Seq<u8>,
}

impl View for Header {
    type V = HeaderView;

    open spec fn view(&self) -> HeaderView {
        HeaderView { name: self.name@, value: self.value@ }
    }
}

/// What the header scanner made of a block of bytes.
#[derive(Debug, PartialEq, Eq)]
pub enum HeaderScan {
    /// The block breaks the header grammar, or holds more headers than there
    /// was room for.
    Malformed,
    /// The block breaks no rule so far, but its header section does not end.
    Partial,
    /// The header section ends after `end` bytes, and `headers` holds its
    /// headers, in the order in which they stand.
    Complete { end: usize, headers: Vec<Header> },
}

/// A `HeaderScan` as a mathematical value.
pub enum HeaderScanView {
    Malformed,
    Partial,
    Complete { end: nat, headers: Seq<HeaderView> },
}

impl View for HeaderScan {
    type V = HeaderScanView;

    open spec fn view(&self) -> HeaderScanView {
        match *self {
            HeaderScan::Malformed => HeaderScanView::Malformed,
            HeaderScan::Partial => HeaderScanView::Partial,
            HeaderScan::Complete { end, headers } => HeaderScanView::Complete {
                end: end as nat,
                headers: Seq::new(headers@.len(), |i: int| headers@[i]@),
            },
        }
    }
}

/// What the header parser makes of `block` when it is given room for `room`
/// headers.
pub uninterp spec fn header_scan(block: Seq<u8>, room: usize) -> HeaderScanView;

/// Whether `block` is exactly the header that the encoder writes:
/// `Content-Length: `, one or more decimal digits, and the blank line.
pub open spec fn is_length_header(block: Seq<u8>) -> bool {
    &&& block.len() > 20
    &&& block.subrange(0, 16) == length_prefix()
    &&& all_digits(block.subrange(16, block.len() - 4))
    &&& block.subrange(block.len() - 4, block.len() as int) == delimiter()
}

/// Runs `httparse::parse_headers` on `block`, with room for `room` headers.
///
/// Trusted, not proved. The contract claims that the parser's answer depends on
/// `block` and `room` alone, and that for the one header that the encoder
/// writes (the name `Content-Length`, a colon, one space, digits, and the blank
/// line) the parser reports the section as complete at the end of the block,
/// with that name and the digits as its only header. Of any other block it
/// claims nothing. The three outcomes of the parser are handed on one for one,
/// and each header with its name and its value.
#[verifier::external_body]
pub(crate) fn scan_headers(block: &[u8], room: usize) -> (r: HeaderScan)
    ensures
        r@ == header_scan(block@, room),
        room >= 1 && is_length_header(block@) ==> r@ == (HeaderScanView::Complete {
            end: block@.len(),
            headers: seq![
                HeaderView { name: length_name(), value: block@.subrange(16, block@.len() - 4) },
            ],
        }),
{
    let mut headers = vec![httparse::EMPTY_HEADER; room];
    match httparse::parse_headers(block, &mut headers) {
        Ok(httparse::Status::Complete((end, parsed))) => HeaderScan::Complete {
            end,
            headers: parsed.iter().map(
                |header| Header { name: header.name.as_bytes().to_vec(), value: header.value.to_vec() },
            ).collect(),
        },
        Ok(httparse::Status::Partial) => HeaderScan::Partial,
        Err(_) => HeaderScan::Malformed,
    }
}

} // verus!
