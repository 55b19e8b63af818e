//! The consumer side of the event stream: what is done with what comes out
//! of the decoder.
//!
//! A connection ends when the stream does, when a frame says that the
//! emulator has finished, or when the bytes are no frames. Reading from the
//! socket and writing to the sink are the caller's; the decisions are made
//! here.

use crate::codec::{
    decode_frame, frames_wire, lemma_decode_encoded, lemma_wire_len, DecodeError,
    Decoded, QemuMsgCodec,
};
use crate::qemu_event::{QemuEventMsg, ToBytes, FINISHED};
use crate::wire::buffered;
use bytes::BytesMut;
use vstd::prelude::*;

verus! {

/// The exit code of a consumer that has seen the end of the stream or the
/// finished flag.
pub const EXIT_CLEAN: i32 = 0;

/// The exit code of a consumer that was handed bytes that are no frame.
pub const EXIT_DECODE_ERROR: i32 = 1;

/// What the stream of decoded frames hands over next.
#[derive(Clone, Copy, Debug, PartialEq, Eq)]
pub enum StreamItem {
    /// A frame.
    Frame(QemuEventMsg),
    /// The bytes are no frame.
    Failed(DecodeError),
    /// The producer has closed the stream.
    End,
}

/// What the consumer does with one item of the stream.
#[derive(Clone, Copy, Debug, PartialEq, Eq)]
pub enum ConsumerAction {
    /// Hand the frame to the sink and go on reading.
    Emit(QemuEventMsg),
    /// Hand the frame to the sink, then close the connection: it was the
    /// last one.
    EmitAndClose(QemuEventMsg),
    /// Close the connection, with the exit code that a consumer of a single
    /// connection ends with.
    Close(i32),
}

/// What the consumer does with `item`.
pub open spec fn spec_on_item(item: StreamItem) -> ConsumerAction {
    match item {
        StreamItem::Frame(msg) => if msg.flags.bits & FINISHED == FINISHED {
            ConsumerAction::EmitAndClose(msg)
        } else {
            ConsumerAction::Emit(msg)
        },
        StreamItem::Failed(_) => ConsumerAction::Close(EXIT_DECODE_ERROR),
        StreamItem::End => ConsumerAction::Close(EXIT_CLEAN),
    }
}

/// Decides what to do with one item of the stream. Every frame goes to the
/// sink; a finished frame, the end of the stream and a decode error close
/// the connection.
pub fn on_item(item: StreamItem) -> (r: ConsumerAction)
    ensures
        r == spec_on_item(item),
{
    match item {
        StreamItem::Frame(msg) => {
            if msg.is_finished() {
                ConsumerAction::EmitAndClose(msg)
            } else {
                ConsumerAction::Emit(msg)
            }
        },
        StreamItem::Failed(_) => ConsumerAction::Close(EXIT_DECODE_ERROR),
        StreamItem::End => ConsumerAction::Close(EXIT_CLEAN),
    }
}

/// How a drain of a buffer ended.
#[derive(Clone, Copy, Debug, PartialEq, Eq, Structural)]
pub enum DrainEnd {
    /// The buffer holds no whole frame any more: more bytes are needed.
    NeedMore,
    /// The last frame taken said that the emulator has finished.
    Finished,
    /// The front of the buffer is no frame.
    Invalid,
}

/// The frames that a consumer takes from `s`: frame after frame, up to and
/// including the first that says the emulator has finished.
pub open spec fn drained(s: Seq<u8>) -> Seq<QemuEventMsg>
    decreases s.len(),
{
    match decode_frame(s) {
        Decoded::Frame(msg, n) => if !(0 < n <= s.len()) {
            Seq::<QemuEventMsg>::empty()
        } else if msg.flags.bits & FINISHED == FINISHED {
            seq![msg]
        } else {
            seq![msg] + drained(s.skip(n as int))
        },
        _ => Seq::<QemuEventMsg>::empty(),
    }
}

/// The bytes that stay in the buffer when the consumer has taken its frames.
pub open spec fn drained_rest(s: Seq<u8>) -> Seq<u8>
    decreases s.len(),
{
    match decode_frame(s) {
        Decoded::Frame(msg, n) => if !(0 < n <= s.len()) {
            s
        } else if msg.flags.bits & FINISHED == FINISHED {
            s.skip(n as int)
        } else {
            drained_rest(s.skip(n as int))
        },
        _ => s,
    }
}

/// How the drain of `s` ends.
pub open spec fn drained_end(s: Seq<u8>) -> DrainEnd
    decreases s.len(),
{
    match decode_frame(s) {
        Decoded::Frame(msg, n) => if !(0 < n <= s.len()) {
            DrainEnd::NeedMore
        } else if msg.flags.bits & FINISHED == FINISHED {
            DrainEnd::Finished
        } else {
            drained_end(s.skip(n as int))
        },
        Decoded::Incomplete => DrainEnd::NeedMore,
        Decoded::Invalid => DrainEnd::Invalid,
    }
}

/// Takes from `src` every frame that is there, in order, and stops after a
/// frame that says the emulator has finished. What is no whole frame yet
/// stays in `src`.
pub fn drain(codec: &mut QemuMsgCodec, src: &mut BytesMut) -> (r: (Vec<QemuEventMsg>, DrainEnd))
    ensures
        r.0@ == drained(buffered(*old(src))),
        r.1 == drained_end(buffered(*old(src))),
        buffered(*final(src)) == drained_rest(buffered(*old(src))),
{
    let mut frames: Vec<QemuEventMsg> = Vec::new();
    let ghost start = buffered(*src);
    loop
        invariant
            start == buffered(*old(src)),
            drained(start) == frames@ + drained(buffered(*src)),
            drained_end(start) == drained_end(buffered(*src)),
            drained_rest(start) == drained_rest(buffered(*src)),
        decreases buffered(*src).len(),
    {
        let ghost before = buffered(*src);
        match codec.decode(src) {
            Ok(Some(msg)) => {
                proof {
                    lemma_frame_takes_bytes(before);
                }
                let finished = msg.is_finished();
                frames.push(msg);
                if finished {
                    assert(drained(start) =~= frames@);
                    return (frames, DrainEnd::Finished);
                }
                assert(drained(start) =~= frames@ + drained(buffered(*src)));
            },
            Ok(None) => {
                assert(drained(start) =~= frames@);
                return (frames, DrainEnd::NeedMore);
            },
            Err(_) => {
                assert(drained(start) =~= frames@);
                return (frames, DrainEnd::Invalid);
            },
        }
    }
}

/// A frame at the front of a buffer takes at least one byte and no more
/// than the buffer holds.
pub proof fn lemma_frame_takes_bytes(s: Seq<u8>)
    ensures
        decode_frame(s) matches Decoded::Frame(_, n) ==> 0 < n <= s.len(),
{
}

/// A run of emitted frames, of which none but the last may say that the
/// emulator has finished, is taken whole and in order by a consumer, and
/// nothing stays in the buffer.
pub proof fn lemma_drain_frames(msgs: Seq<QemuEventMsg>)
    requires
        forall|i: int| 0 <= i < msgs.len() ==> (#[trigger] msgs[i]).wf(),
        forall|i: int|
            0 <= i < msgs.len() - 1 ==> (#[trigger] msgs[i]).flags.bits & FINISHED != FINISHED,
    ensures
        drained(frames_wire(msgs)) == msgs,
        drained_rest(frames_wire(msgs)).len() == 0,
        drained_end(frames_wire(msgs)) == (if msgs.len() > 0 && msgs.last().flags.bits & FINISHED
            == FINISHED {
            DrainEnd::Finished
        } else {
            DrainEnd::NeedMore
        }),
    decreases msgs.len(),
{
    if msgs.len() == 0 {
        assert(drained(frames_wire(msgs)) =~= msgs);
    } else {
        let first = msgs.first();
        let others = msgs.drop_first();
        let s = frames_wire(msgs);
        assert(first.wf());
        assert forall|i: int| 0 <= i < others.len() implies (#[trigger] others[i]).wf() by {
            assert(others[i] == msgs[i + 1]);
        }
        assert forall|i: int| 0 <= i < others.len() - 1 implies (#[trigger] others[i]).flags.bits
            & FINISHED != FINISHED by {
            assert(others[i] == msgs[i + 1]);
        }
        lemma_drain_frames(others);
        lemma_decode_encoded(first, frames_wire(others));
        lemma_wire_len(first);
        assert(s.skip(first.wire().len() as int) =~= frames_wire(others));
        if others.len() == 0 {
            assert(frames_wire(others) =~= Seq::<u8>::empty());
            assert(drained(s) =~= msgs);
        } else {
            assert(first == msgs[0]);
            assert(others.last() == msgs.last());
            assert(drained(s) =~= seq![first] + others);
            assert(seq![first] + others =~= msgs);
        }
    }
}

} // verus!
