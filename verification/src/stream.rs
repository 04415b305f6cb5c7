//! Reading a message from a byte source that delivers its bytes in pieces.

use vstd::prelude::*;
use crate::frame::frame_bytes;
use crate::frame::FrameError;
use crate::message::decode;
use crate::message::decoded;
use crate::message::lemma_decoded_stable;
use crate::message::message_of;
use crate::message::Decoded;
use crate::message::Message;
use crate::message::MessageView;
use crate::message::Reading;

verus! {

/// A byte source that was recorded: it hands out the pieces in which the
/// bytes once arrived, one piece for each read, and ends after the last.
pub struct Recorded {
    reads: Vec<Vec<u8>>,
    taken: usize,
}

impl Recorded {
    /// The source has handed out no more reads than it holds.
    #[verifier::type_invariant]
    spec fn in_order(&self) -> bool {
        self.taken <= self.reads.len()
    }

    /// The reads that the source has still to hand out, in order.
    pub closed spec fn remaining(&self) -> Seq<Seq<u8>> {
        Seq::new((self.reads.len() - self.taken) as nat, |i: int| self.reads[self.taken + i]@)
    }

    /// A source that will hand out `reads`, one after the other.
    pub fn new(reads: Vec<Vec<u8>>) -> (r: Recorded)
        ensures
            r.remaining() == Seq::new(reads.len() as nat, |i: int| reads[i]@),
    {
        let r = Recorded { reads, taken: 0 };
        assert(r.remaining() =~= Seq::new(reads.len() as nat, |i: int| reads[i]@));
        r
    }

    /// The next read, or nothing at the end of the stream.
    pub fn next(&mut self) -> (r: Option<&Vec<u8>>)
        ensures
            match r {
                Some(read) => old(self).remaining().len() > 0 && read@ == old(
                    self,
                ).remaining()[0] && final(self).remaining() == old(self).remaining().drop_first(),
                None => old(self).remaining().len() == 0 && final(self).remaining() == old(
                    self,
                ).remaining(),
            },
    {
        proof {
            use_type_invariant(&*self);
        }
        if self.taken < self.reads.len() {
            self.taken = self.taken + 1;
            assert(final(self).remaining() =~= old(self).remaining().drop_first());
            Some(&self.reads[self.taken - 1])
        } else {
            None
        }
    }
}

/// What reading a message gives to one who holds `carry` and then receives
/// `reads`, one by one, for as long as the bytes at hand decide nothing: the
/// message and the bytes left over, or the reason why there is no message. A
/// stream that ends before it has decided anything is truncated.
pub open spec fn read_outcome(carry: Seq<u8>, reads: Seq<Seq<u8>>) -> Result<
    (Seq<u8>, MessageView),
    FrameError,
>
    decreases reads.len(),
{
    match decoded(carry) {
        Decoded::Message { message, rest } => Ok((rest, message)),
        Decoded::Failed(e) => Err(e),
        Decoded::Wanting => {
            if reads.len() == 0 {
                Err(FrameError::Truncated)
            } else {
                read_outcome(carry + reads[0], reads.drop_first())
            }
        },
    }
}

/// How many of `reads` the reading of one message takes from the source.
pub open spec fn reads_taken(carry: Seq<u8>, reads: Seq<Seq<u8>>) -> nat
    decreases reads.len(),
{
    if decoded(carry) is Wanting && reads.len() > 0 {
        1 + reads_taken(carry + reads[0], reads.drop_first())
    } else {
        0
    }
}

/// The message that a reading gave, without the bytes left over.
pub open spec fn message_read(outcome: Result<(Seq<u8>, MessageView), FrameError>) -> Result<
    MessageView,
    FrameError,
> {
    match outcome {
        Ok((_, message)) => Ok(message),
        Err(e) => Err(e),
    }
}

/// What a buffer holds once its stream has ended: a buffer that is still
/// wanting is truncated.
pub open spec fn message_at_end(buffer: Seq<u8>) -> Result<MessageView, FrameError> {
    match decoded(buffer) {
        Decoded::Message { message, rest } => Ok(message),
        Decoded::Failed(e) => Err(e),
        Decoded::Wanting => Err(FrameError::Truncated),
    }
}

/// Reads one message: from `payload` alone where it already holds a frame,
/// else from `payload` and as many reads of `source` as it takes to decide.
/// Gives the message and the bytes that were read but belong to what follows.
///
/// Where the bytes at hand and the reads to come begin with a frame that the
/// encoder wrote, the message is the one that the framed body holds, however
/// the frame is cut into reads.
pub fn read(payload: Vec<u8>, source: &mut Recorded) -> (r: Result<(Vec<u8>, Message), FrameError>)
    ensures
        match r {
            Ok((carry, message)) => read_outcome(payload@, old(source).remaining()) == Ok::<
                (Seq<u8>, MessageView),
                FrameError,
            >((carry@, message@)),
            Err(e) => read_outcome(payload@, old(source).remaining()) == Err::<
                (Seq<u8>, MessageView),
                FrameError,
            >(e),
        },
        final(source).remaining() == old(source).remaining().skip(
            reads_taken(payload@, old(source).remaining()) as int,
        ),
        forall|body: Seq<u8>, rest: Seq<u8>|
            body.len() <= usize::MAX && payload@ + old(source).remaining().flatten()
                == #[trigger] (frame_bytes(body) + rest) ==> match r {
                Ok((carry, message)) => message_of(body) == Some(message@),
                Err(e) => message_of(body) is None && e == FrameError::InvalidBody,
            },
{
    let mut buffer = payload;
    let ghost whole = payload@ + old(source).remaining().flatten();
    let ghost mut skipped: nat = 0;
    loop
        invariant
            whole == payload@ + old(source).remaining().flatten(),
            buffer@ + source.remaining().flatten() == whole,
            read_outcome(buffer@, source.remaining()) == read_outcome(
                payload@,
                old(source).remaining(),
            ),
            skipped <= old(source).remaining().len(),
            source.remaining() == old(source).remaining().skip(skipped as int),
            skipped + reads_taken(buffer@, source.remaining()) == reads_taken(
                payload@,
                old(source).remaining(),
            ),
        decreases source.remaining().len(),
    {
        proof {
            assert(whole.subrange(0, buffer@.len() as int) =~= buffer@);
            assert(buffer@.is_prefix_of(whole));
        }
        match decode(buffer.as_slice()) {
            Reading::Message { message, carry } => {
                return Ok((carry, message));
            },
            Reading::Failed(e) => {
                return Err(e);
            },
            Reading::Wanting => {
                let ghost before = source.remaining();
                let ghost held = buffer@;
                match source.next() {
                    None => {
                        proof {
                            assert(before.flatten() =~= Seq::<u8>::empty());
                            assert(buffer@ =~= whole);
                        }
                        return Err(FrameError::Truncated);
                    },
                    Some(read) => {
                        buffer.extend_from_slice(read.as_slice());
                        proof {
                            assert(held + before.flatten() =~= (held + before[0])
                                + before.drop_first().flatten());
                            assert(buffer@ == held + before[0]);
                            assert(read_outcome(held, before) == read_outcome(
                                held + before[0],
                                before.drop_first(),
                            ));
                            assert(reads_taken(held, before) == 1 + reads_taken(
                                held + before[0],
                                before.drop_first(),
                            ));
                            assert(before.drop_first() =~= old(source).remaining().skip(
                                skipped as int + 1,
                            ));
                            skipped = skipped + 1;
                        }
                    },
                }
            },
        }
    }
}

/// A buffer that holds its first frame whole, or cannot be decoded, is read
/// without a read of the source: what came along with an earlier frame is
/// decoded as it lies.
pub proof fn lemma_read_at_hand(carry: Seq<u8>, reads: Seq<Seq<u8>>)
    requires
        !(decoded(carry) is Wanting),
    ensures
        reads_taken(carry, reads) == 0,
        read_outcome(carry, reads) == read_outcome(carry, Seq::empty()),
{
}

/// Reading a message in pieces gives what the whole gives: the message, or
/// the failure, is the one that the bytes at hand and all the reads, taken
/// together as one buffer at the end of the stream, hold.
pub proof fn lemma_read_whole(carry: Seq<u8>, reads: Seq<Seq<u8>>)
    ensures
        message_read(read_outcome(carry, reads)) == message_at_end(carry + reads.flatten()),
    decreases reads.len(),
{
    if reads.len() == 0 {
        assert(carry + reads.flatten() =~= carry);
    } else {
        let tail = reads.drop_first();
        assert(carry + reads.flatten() =~= (carry + reads[0]) + tail.flatten());
        if decoded(carry) is Wanting {
            lemma_read_whole(carry + reads[0], tail);
        } else {
            lemma_decoded_stable(carry, reads.flatten());
        }
    }
}

/// A reading takes no more reads than there are.
pub proof fn lemma_reads_taken_bound(carry: Seq<u8>, reads: Seq<Seq<u8>>)
    ensures
        reads_taken(carry, reads) <= reads.len(),
    decreases reads.len(),
{
    if decoded(carry) is Wanting && reads.len() > 0 {
        lemma_reads_taken_bound(carry + reads[0], reads.drop_first());
    }
}

/// Reading in pieces loses no byte: the bytes left over by a reading,
/// followed by the reads that it did not take, are what follows the frame in
/// the whole.
pub proof fn lemma_read_carry(carry: Seq<u8>, reads: Seq<Seq<u8>>)
    ensures
        read_outcome(carry, reads) matches Ok((left, read)) ==> decoded(carry + reads.flatten())
            == (Decoded::Message {
            message: read,
            rest: left + reads.skip(reads_taken(carry, reads) as int).flatten(),
        }),
    decreases reads.len(),
{
    if decoded(carry) is Wanting {
        if reads.len() > 0 {
            let tail = reads.drop_first();
            lemma_read_carry(carry + reads[0], tail);
            lemma_reads_taken_bound(carry + reads[0], tail);
            assert(carry + reads.flatten() =~= (carry + reads[0]) + tail.flatten());
            assert(reads.skip(1 + reads_taken(carry + reads[0], tail) as int) =~= tail.skip(
                reads_taken(carry + reads[0], tail) as int,
            ));
        }
    } else {
        lemma_decoded_stable(carry, reads.flatten());
        assert(reads.skip(0) =~= reads);
    }
}

/// How a stream is cut into reads does not matter: two sequences of reads
/// that deliver the same bytes give the same message, or fail alike.
pub proof fn lemma_fragmentation(carry: Seq<u8>, one: Seq<Seq<u8>>, other: Seq<Seq<u8>>)
    requires
        one.flatten() == other.flatten(),
    ensures
        message_read(read_outcome(carry, one)) == message_read(read_outcome(carry, other)),
{
    lemma_read_whole(carry, one);
    lemma_read_whole(carry, other);
}

/// A stream that ends while the bytes at hand are short of a frame gives no
/// message: the reading is truncated.
pub proof fn lemma_truncated(carry: Seq<u8>, reads: Seq<Seq<u8>>)
    requires
        decoded(carry + reads.flatten()) is Wanting,
    ensures
        read_outcome(carry, reads) == Err::<(Seq<u8>, MessageView), FrameError>(
            FrameError::Truncated,
        ),
{
    lemma_read_whole(carry, reads);
}

} // verus!
