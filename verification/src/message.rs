//! What the session reads of a message that the peer sent.

use vstd::prelude::*;
use vstd::slice::slice_subrange;
use vstd::slice::slice_to_vec;
use vstd::utf8::decode_utf8;
use vstd::utf8::valid_utf8;
use crate::frame::cut_frame;
use crate::frame::cut_of_encoded;
use crate::frame::frame_bytes;
use crate::frame::lemma_cut_stable;
use crate::frame::next_frame;
use crate::frame::Cut;
use crate::frame::FrameError;
use crate::frame::Located;
use crate::wire::parse_message;
use crate::wire::parsed_message;
use crate::wire::text_of;

verus! {

/// The two members of an incoming message that decide what becomes of it.
#[derive(Debug, PartialEq, Eq)]
pub struct Message {
    /// The `id` member, where the message is a JSON object that has one and it
    /// is a whole number that a `u64` can hold. A notification has none.
    pub id: Option<u64>,
    /// The `result` member as JSON text, where the message is a JSON object
    /// that has one. An error response has none.
    pub result: Option<String>,
}

/// A `Message` as a mathematical value.
pub struct MessageView {
    pub id: Option<u64>,
    pub result: Option<Seq<char>>,
}

impl View for Message {
    type V = MessageView;

    open spec fn view(&self) -> MessageView {
        MessageView {
            id: self.id,
            result: match self.result {
                Some(text) => Some(text@),
                None => None,
            },
        }
    }
}

/// The message that the bytes `body` hold: they must be UTF-8 text, and the
/// text one JSON value, of which the members `id` and `result` are read.
pub open spec fn message_of(body: Seq<u8>) -> Option<MessageView> {
    if valid_utf8(body) {
        parsed_message(decode_utf8(body), "id"@, "result"@)
    } else {
        None
    }
}

/// What a buffer holds at its start.
pub enum Decoded {
    /// The buffer ends before its first frame does.
    Wanting,
    /// The first frame holds `message`, and `rest` follows the frame.
    Message { message: MessageView, rest: Seq<u8> },
    /// The buffer does not start with a frame that holds a message.
    Failed(FrameError),
}

/// A cut buffer with the body of its frame read as a message. A body that
/// holds none makes the frame invalid.
pub open spec fn with_message(cut: Cut) -> Decoded {
    match cut {
        Cut::Wanting => Decoded::Wanting,
        Cut::Failed(e) => Decoded::Failed(e),
        Cut::Frame { body, rest } => match message_of(body) {
            Some(message) => Decoded::Message { message, rest },
            None => Decoded::Failed(FrameError::InvalidBody),
        },
    }
}

/// What `buffer` holds at its start: its first frame, with the body read as
/// a message.
pub open spec fn decoded(buffer: Seq<u8>) -> Decoded {
    with_message(cut_frame(buffer))
}

/// What decoding a buffer gave.
#[derive(Debug)]
pub enum Reading {
    /// The buffer ends before its first frame does: more bytes are needed.
    Wanting,
    /// The first frame held `message`; `carry` is what followed the frame.
    Message { message: Message, carry: Vec<u8> },
    /// The buffer does not start with a frame that holds a message.
    Failed(FrameError),
}

impl View for Reading {
    type V = Decoded;

    open spec fn view(&self) -> Decoded {
        match *self {
            Reading::Wanting => Decoded::Wanting,
            Reading::Message { message, carry } => Decoded::Message {
                message: message@,
                rest: carry@,
            },
            Reading::Failed(e) => Decoded::Failed(e),
        }
    }
}

/// Reads the bytes of a body as a message.
pub fn read_body(body: &[u8]) -> (r: Option<Message>)
    ensures
        match r {
            Some(m) => message_of(body@) == Some(m@),
            None => message_of(body@) is None,
        },
{
    match text_of(body) {
        None => None,
        Some(text) => parse_message(text, "id", "result"),
    }
}

/// Decodes the first frame of `buffer`, and hands back the bytes after it.
///
/// Where `buffer` begins with a frame that the encoder wrote, the message is
/// the one that the framed body holds, and the carry is exactly what follows
/// the frame. While such a frame is still arriving, the buffer is wanting.
pub fn decode(buffer: &[u8]) -> (r: Reading)
    ensures
        r@ == decoded(buffer@),
        forall|body: Seq<u8>, rest: Seq<u8>|
            buffer@ == #[trigger] (frame_bytes(body) + rest) ==> r@ == with_message(
                Cut::Frame { body, rest },
            ),
        forall|body: Seq<u8>, rest: Seq<u8>|
            body.len() <= usize::MAX && buffer@.is_prefix_of(
                #[trigger] (frame_bytes(body) + rest),
            ) ==> r@ == with_message(cut_of_encoded(buffer@, body)),
{
    match next_frame(buffer) {
        Located::Wanting => Reading::Wanting,
        Located::Failed(e) => Reading::Failed(e),
        Located::Frame { start, end } => {
            let body = slice_subrange(buffer, start, end);
            match read_body(body) {
                None => Reading::Failed(FrameError::InvalidBody),
                Some(message) => {
                    let carry = slice_to_vec(slice_subrange(buffer, end, buffer.len()));
                    Reading::Message { message, carry }
                },
            }
        },
    }
}

/// Bytes that arrive later change nothing that is decided: a decoded message
/// stays, with the new bytes joining the carry, and a failure stays.
pub proof fn lemma_decoded_stable(buffer: Seq<u8>, more: Seq<u8>)
    ensures
        decoded(buffer) matches Decoded::Message { message, rest } ==> decoded(buffer + more) == (
        Decoded::Message { message, rest: rest + more }),
        decoded(buffer) matches Decoded::Failed(e) ==> decoded(buffer + more) == Decoded::Failed(
            e,
        ),
{
    lemma_cut_stable(buffer, more);
}

} // verus!
