//! The stream codec: frames in, frames out.
//!
//! Encoding appends one frame to a buffer. Decoding looks at the front of a
//! buffer and either takes one whole frame from it, or reports that more
//! bytes are needed, or that the flag word names no kind of event.

use crate::qemu_event::{
    be_u64s, lemma_args_of, lemma_be_u64s_round_trip, lemma_emitted, lemma_opcode_of,
    lemma_single_kind_bit, EventFlags, EventKind, FromBytes, QemuEvent, QemuEventMsg, QemuInstr,
    QemuLoad, QemuMemAccess, QemuPc, QemuSyscall, ToBytes, ALL_BITS,
};
use crate::wire::{
    be_i64, be_u32, be_u64, bool_byte, buffer_bytes, buffered, i64_of_be, lemma_i64_be_round_trip,
    lemma_u32_be_round_trip, lemma_u64_be_round_trip, u32_of_be, u64_of_be,
};
use bytes::BytesMut;
use vstd::prelude::*;

verus! {

/// The length of the shortest frame: a flag word and a program counter
/// event.
pub const MIN_FRAME_LEN: usize = 13;

/// The length of the longest frame: a flag word and a syscall event.
pub const MAX_FRAME_LEN: usize = 84;

/// Why a frame could not be appended.
#[derive(Clone, Copy, Debug, PartialEq, Eq, Structural)]
pub enum EncodeError {
    /// The buffer would grow beyond the largest size a buffer can have.
    BufferFull,
}

/// Why the front of a buffer is no frame.
#[derive(Clone, Copy, Debug, PartialEq, Eq, Structural)]
pub enum DecodeError {
    /// The flag word has none of the five kind bits set.
    NoEventKind,
}

/// What the front of a byte sequence holds.
pub enum Decoded {
    /// Too few bytes to tell, or the frame is not complete yet.
    Incomplete,
    /// A flag word that names no kind of event.
    Invalid,
    /// One whole frame, and the number of bytes it takes.
    Frame(QemuEventMsg, nat),
}

/// What a decoder finds at the front of `s`. Fewer bytes than the shortest
/// frame has are never enough. With that many, the flag word decides: no
/// kind bit is a protocol violation; otherwise the kind gives the length of
/// the frame, and the frame is read once all of it is there.
pub open spec fn decode_frame(s: Seq<u8>) -> Decoded {
    if s.len() < MIN_FRAME_LEN {
        Decoded::Incomplete
    } else {
        match EventKind::spec_of_bits(u32_of_be(s) & ALL_BITS) {
            None => Decoded::Invalid,
            Some(kind) => if s.len() < 4 + kind.spec_payload_len() {
                Decoded::Incomplete
            } else {
                Decoded::Frame(QemuEventMsg::parse(s), 4 + kind.spec_payload_len())
            },
        }
    }
}

/// The bytes of a run of frames, one after the other.
pub open spec fn frames_wire(msgs: Seq<QemuEventMsg>) -> Seq<u8>
    decreases msgs.len(),
{
    if msgs.len() == 0 {
        Seq::<u8>::empty()
    } else {
        msgs.first().wire() + frames_wire(msgs.drop_first())
    }
}

/// The frames that a decoder takes from `s` when it decodes until it can
/// take no more.
pub open spec fn decode_greedy(s: Seq<u8>) -> Seq<QemuEventMsg>
    decreases s.len(),
{
    match decode_frame(s) {
        Decoded::Frame(msg, n) => if 0 < n <= s.len() {
            seq![msg] + decode_greedy(s.skip(n as int))
        } else {
            Seq::<QemuEventMsg>::empty()
        },
        _ => Seq::<QemuEventMsg>::empty(),
    }
}

/// The bytes that are left when a decoder has taken all the frames it can.
pub open spec fn decode_greedy_rest(s: Seq<u8>) -> Seq<u8>
    decreases s.len(),
{
    match decode_frame(s) {
        Decoded::Frame(msg, n) => if 0 < n <= s.len() {
            decode_greedy_rest(s.skip(n as int))
        } else {
            s
        },
        _ => s,
    }
}

/// The codec of event frames. It keeps no state between calls.
pub struct QemuMsgCodec {}

impl QemuMsgCodec {
    /// Appends the frame `item` to `dst`, as it is written: with the kind
    /// bit of its event and no other. So every frame that is encoded may be
    /// emitted, and one that might be emitted as it was is written as it
    /// was. It fails, and leaves `dst` as it was, only where the buffer
    /// would outgrow the largest allocation.
    pub fn encode(&mut self, item: QemuEventMsg, dst: &mut BytesMut) -> (r: Result<
        (),
        EncodeError,
    >)
        ensures
            r.is_ok() <==> buffered(*old(dst)).len() + item.wire().len() <= isize::MAX,
            r.is_ok() ==> buffered(*final(dst)) == buffered(*old(dst)) + item.spec_emitted().wire(),
            r.is_ok() ==> buffered(*final(dst)) == buffered(*old(dst)) + item.wire(),
            r.is_ok() ==> buffered(*final(dst)).len() == buffered(*old(dst)).len() + 4
                + item.event.spec_kind().spec_payload_len(),
            r.is_ok() ==> item.spec_emitted().wf() && (item.wf() ==> item.spec_emitted() == item),
            r.is_err() ==> buffered(*final(dst)) == buffered(*old(dst)),
            r.is_err() ==> r == Err::<(), EncodeError>(EncodeError::BufferFull),
    {
        proof {
            lemma_wire_len(item);
            lemma_emitted(item);
        }
        let need: usize = 4 + item.event.kind().payload_len();
        let have: usize = dst.len();
        if have > (isize::MAX as usize) - need {
            return Err(EncodeError::BufferFull);
        }
        item.to_bytes(dst);
        Ok(())
    }

    /// Takes one frame from the front of `src`, if a whole one is there.
    /// Otherwise `src` is left as it was: `Ok(None)` asks for more bytes, the
    /// error reports a flag word without a kind bit. A frame that comes out
    /// is one that may be emitted: its flags hold the bit of its kind and no
    /// other, and the size of an opcode is no more than sixteen.
    pub fn decode(&mut self, src: &mut BytesMut) -> (r: Result<Option<QemuEventMsg>, DecodeError>)
        ensures
            match decode_frame(buffered(*old(src))) {
                Decoded::Incomplete => r == Ok::<Option<QemuEventMsg>, DecodeError>(None)
                    && buffered(*final(src)) == buffered(*old(src)),
                Decoded::Invalid => r == Err::<Option<QemuEventMsg>, DecodeError>(
                    DecodeError::NoEventKind,
                ) && buffered(*final(src)) == buffered(*old(src)),
                Decoded::Frame(msg, n) => r == Ok::<Option<QemuEventMsg>, DecodeError>(Some(msg))
                    && buffered(*final(src)) == buffered(*old(src)).skip(n as int),
            },
            r matches Ok(Some(msg)) ==> msg.wf(),
    {
        let have = src.len();
        if have < MIN_FRAME_LEN {
            return Ok(None);
        }
        let head = buffer_bytes(src);
        let raw: u32 = ((head[0] as u32) << 24) | ((head[1] as u32) << 16) | ((head[2] as u32)
            << 8) | (head[3] as u32);
        let flags = EventFlags::from_bits_truncate(raw);
        match EventKind::of_flags(flags) {
            None => Err(DecodeError::NoEventKind),
            Some(kind) => {
                if have < 4 + kind.payload_len() {
                    Ok(None)
                } else {
                    let msg = QemuEventMsg::from_bytes(src);
                    Ok(Some(msg))
                }
            },
        }
    }
}

/// The length of a frame depends on the kind of its event alone.
pub proof fn lemma_wire_len(msg: QemuEventMsg)
    ensures
        msg.event.wire().len() == msg.event.spec_kind().spec_payload_len(),
        msg.wire().len() == 4 + msg.event.spec_kind().spec_payload_len(),
        MIN_FRAME_LEN <= msg.wire().len() <= MAX_FRAME_LEN,
{
    match msg.event {
        QemuEvent::Syscall(e) => {
            lemma_be_u64s_round_trip(e.args@, Seq::<u8>::empty());
        },
        _ => {},
    }
}

/// A 64-bit number written after `pre` and before `post` is read back at
/// the place where it was written.
proof fn lemma_u64_at(pre: Seq<u8>, n: u64, post: Seq<u8>)
    ensures
        u64_of_be((pre + be_u64(n) + post).skip(pre.len() as int)) == n,
{
    lemma_u64_be_round_trip(n);
    let t = (pre + be_u64(n) + post).skip(pre.len() as int);
    assert forall|k: int| 0 <= k < 8 implies t[k] == be_u64(n)[k] by {
        assert(t[k] == (pre + be_u64(n) + post)[pre.len() + k]);
    }
}

/// The same for a signed number.
proof fn lemma_i64_at(pre: Seq<u8>, n: i64, post: Seq<u8>)
    ensures
        i64_of_be((pre + be_i64(n) + post).skip(pre.len() as int)) == n,
{
    lemma_u64_at(pre, n as u64, post);
    lemma_i64_be_round_trip(n);
}

/// A program counter event is read back from its bytes, whatever follows
/// them.
pub proof fn lemma_pc_round_trip(e: QemuPc, rest: Seq<u8>)
    ensures
        e.wire().len() == 9,
        QemuPc::parse(e.wire() + rest) == e,
{
    let s = e.wire() + rest;
    let empty = Seq::<u8>::empty();
    lemma_u64_at(empty, e.pc, seq![bool_byte(e.branch)] + rest);
    assert(s =~= empty + be_u64(e.pc) + (seq![bool_byte(e.branch)] + rest));
    assert(s.skip(0) =~= s);
    assert(s[8] == bool_byte(e.branch));
}

/// An instruction event is read back from its bytes, whatever follows
/// them: as it was, where its size is one that an opcode can have, and
/// with the largest such size otherwise.
pub proof fn lemma_instr_round_trip(e: QemuInstr, rest: Seq<u8>)
    ensures
        e.wire().len() == 24,
        QemuInstr::parse(e.wire() + rest) == e.spec_emitted(),
        QemuInstr::parse(e.wire() + rest).wf(),
        e.wf() ==> QemuInstr::parse(e.wire() + rest) == e,
{
    let s = e.wire() + rest;
    let size = e.spec_emitted().opcode_size;
    lemma_opcode_of(e.opcode);
    lemma_u64_at(e.opcode@, size as u64, rest);
    assert(s =~= e.opcode@ + be_u64(size as u64) + rest);
    assert(s.take(16) =~= e.opcode@);
    assert((size as u64) as usize == size);
}

/// A memory access event is read back from its bytes, whatever follows
/// them.
pub proof fn lemma_mem_access_round_trip(e: QemuMemAccess, rest: Seq<u8>)
    ensures
        e.wire().len() == 17,
        QemuMemAccess::parse(e.wire() + rest) == e,
{
    let s = e.wire() + rest;
    let empty = Seq::<u8>::empty();
    let last = seq![bool_byte(e.is_write)] + rest;
    lemma_u64_at(empty, e.pc, be_u64(e.addr) + last);
    lemma_u64_at(be_u64(e.pc), e.addr, last);
    assert(s =~= empty + be_u64(e.pc) + (be_u64(e.addr) + last));
    assert(s =~= be_u64(e.pc) + be_u64(e.addr) + last);
    assert(s.skip(0) =~= s);
    assert(s[16] == bool_byte(e.is_write));
}

/// A load event is read back from its bytes, whatever follows them.
pub proof fn lemma_load_round_trip(e: QemuLoad, rest: Seq<u8>)
    ensures
        e.wire().len() == 25,
        QemuLoad::parse(e.wire() + rest) == e,
{
    let s = e.wire() + rest;
    let empty = Seq::<u8>::empty();
    let last = seq![e.prot] + rest;
    assert(u64_of_be(s) == e.min) by {
        lemma_u64_at(empty, e.min, be_u64(e.max) + be_u64(e.entry) + last);
        assert(s =~= empty + be_u64(e.min) + (be_u64(e.max) + be_u64(e.entry) + last));
        assert(s.skip(0) =~= s);
    }
    assert(u64_of_be(s.skip(8)) == e.max) by {
        lemma_u64_at(be_u64(e.min), e.max, be_u64(e.entry) + last);
        assert(s =~= be_u64(e.min) + be_u64(e.max) + (be_u64(e.entry) + last));
    }
    assert(u64_of_be(s.skip(16)) == e.entry) by {
        lemma_u64_at(be_u64(e.min) + be_u64(e.max), e.entry, last);
        assert(s =~= be_u64(e.min) + be_u64(e.max) + be_u64(e.entry) + last);
    }
    assert(s[24] == e.prot);
}

/// A syscall event is read back from its bytes, whatever follows them.
pub proof fn lemma_syscall_round_trip(e: QemuSyscall, rest: Seq<u8>)
    ensures
        e.wire().len() == 80,
        QemuSyscall::parse(e.wire() + rest) == e,
{
    let s = e.wire() + rest;
    let empty = Seq::<u8>::empty();
    let tail = be_u64s(e.args@) + rest;
    lemma_be_u64s_round_trip(e.args@, rest);
    lemma_i64_at(empty, e.num, be_i64(e.rv) + tail);
    lemma_i64_at(be_i64(e.num), e.rv, tail);
    assert(s =~= empty + be_i64(e.num) + (be_i64(e.rv) + tail));
    assert(s =~= be_i64(e.num) + be_i64(e.rv) + tail);
    assert(s.skip(0) =~= s);
    assert(s.skip(16) =~= tail);
    lemma_args_of(e.args);
}

/// Decoding what was encoded gives the frame back: whatever bytes follow
/// an encoded frame, the decoder finds at the front the frame as it was
/// written, and takes exactly its bytes. A frame that may be emitted is
/// written as it is, and so comes back as it was.
pub proof fn lemma_decode_encoded(msg: QemuEventMsg, rest: Seq<u8>)
    ensures
        decode_frame(msg.wire() + rest) == Decoded::Frame(msg.spec_emitted(), msg.wire().len()),
        decode_frame(msg.wire()) == Decoded::Frame(msg.spec_emitted(), msg.wire().len()),
        msg.spec_emitted().wf(),
        msg.wf() ==> msg.spec_emitted() == msg,
{
    lemma_emitted(msg);
    lemma_frame_at_front(msg, rest);
    lemma_frame_at_front(msg, Seq::<u8>::empty());
    assert(msg.wire() + Seq::<u8>::empty() =~= msg.wire());
}

proof fn lemma_frame_at_front(msg: QemuEventMsg, rest: Seq<u8>)
    ensures
        decode_frame(msg.wire() + rest) == Decoded::Frame(msg.spec_emitted(), msg.wire().len()),
{
    let s = msg.wire() + rest;
    let written = msg.spec_emitted();
    let bits = written.flags.bits;
    let kind = msg.event.spec_kind();
    lemma_emitted(msg);
    lemma_wire_len(msg);
    lemma_u32_be_round_trip(bits);
    assert forall|k: int| 0 <= k < 4 implies s[k] == be_u32(bits)[k] by {}
    assert(u32_of_be(s) == bits);
    assert(bits & !ALL_BITS == 0 ==> bits & ALL_BITS == bits) by (bit_vector);
    lemma_single_kind_bit(bits, kind);
    assert(s.skip(4) =~= msg.event.wire() + rest);
    match msg.event {
        QemuEvent::Pc(e) => lemma_pc_round_trip(e, rest),
        QemuEvent::Instr(e) => lemma_instr_round_trip(e, rest),
        QemuEvent::MemAccess(e) => lemma_mem_access_round_trip(e, rest),
        QemuEvent::Syscall(e) => lemma_syscall_round_trip(e, rest),
        QemuEvent::Load(e) => lemma_load_round_trip(e, rest),
    }
    assert(QemuEvent::parse(kind, s.skip(4)) == written.event);
    assert(QemuEventMsg::parse(s) == written.spec_emitted());
}

/// The frames of `msgs` as they are written.
pub open spec fn emitted_frames(msgs: Seq<QemuEventMsg>) -> Seq<QemuEventMsg> {
    msgs.map_values(|msg: QemuEventMsg| msg.spec_emitted())
}

/// A run of frames, written one after the other and decoded until nothing
/// more can be taken, comes out in the same order, each frame as it was
/// written, and no byte is left over. Frames that may be emitted come out
/// as they were.
pub proof fn lemma_decode_greedy_frames(msgs: Seq<QemuEventMsg>)
    ensures
        decode_greedy(frames_wire(msgs)) == emitted_frames(msgs),
        decode_greedy_rest(frames_wire(msgs)).len() == 0,
        (forall|i: int| 0 <= i < msgs.len() ==> (#[trigger] msgs[i]).wf()) ==> decode_greedy(
            frames_wire(msgs),
        ) == msgs,
    decreases msgs.len(),
{
    if msgs.len() == 0 {
        assert(decode_greedy(frames_wire(msgs)) =~= emitted_frames(msgs));
        assert(emitted_frames(msgs) =~= msgs);
    } else {
        let first = msgs.first();
        let others = msgs.drop_first();
        let s = frames_wire(msgs);
        lemma_decode_greedy_frames(others);
        lemma_decode_encoded(first, frames_wire(others));
        lemma_wire_len(first);
        assert(s.skip(first.wire().len() as int) =~= frames_wire(others));
        assert(decode_greedy(s) =~= seq![first.spec_emitted()] + emitted_frames(others));
        assert(seq![first.spec_emitted()] + emitted_frames(others) =~= emitted_frames(msgs));
        if forall|i: int| 0 <= i < msgs.len() ==> (#[trigger] msgs[i]).wf() {
            assert forall|i: int| 0 <= i < msgs.len() implies emitted_frames(msgs)[i]
                == msgs[i] by {
                lemma_emitted(msgs[i]);
            }
            assert(emitted_frames(msgs) =~= msgs);
        }
    }
}

} // verus!
