//! The fixed record: one frame that says everything about one executed
//! instruction.
//!
//! Where the tagged frames of `qemu_event` carry one event each, a fixed
//! record has room for all of them at once: program counter, opcode, one
//! load, one store, one system call and the branch mark. Its flag word says
//! which of the fields mean something. Every record has the same length, so
//! a reader needs no look at the flags to find the next one.

use crate::codec::{lemma_instr_round_trip, lemma_syscall_round_trip, DecodeError, EncodeError};
use crate::qemu_event::{
    lemma_be_u64s_round_trip, EventFlags, FromBytes, QemuInstr, QemuSyscall, ToBytes, ALL_BITS,
};
use crate::random::{random_bool, random_in, random_u64};
use crate::wire::{
    be_u32, be_u64, bool_byte, buffered, get_u32, get_u64, get_u8, lemma_u32_be_round_trip,
    lemma_u64_be_round_trip, put_u32, put_u64, put_u8, u32_of_be, u64_of_be,
};
use bytes::BytesMut;
use vstd::prelude::*;

verus! {

/// The length of a fixed record on the wire.
pub const EXEC_RECORD_LEN: usize = 133;

/// The address of the executed instruction.
#[derive(Clone, Copy, Debug, PartialEq, Eq, Structural)]
pub struct QemuPc {
    pub pc: u64,
}

impl QemuPc {
    pub fn new(pc: u64) -> (r: QemuPc)
        ensures
            r == (QemuPc { pc }),
    {
        QemuPc { pc }
    }

    /// A program counter with an arbitrary address.
    pub fn new_random() -> QemuPc {
        QemuPc::new(random_u64())
    }
}

impl ToBytes for QemuPc {
    open spec fn wire(&self) -> Seq<u8> {
        be_u64(self.pc)
    }

    fn to_bytes(&self, bytes: &mut BytesMut) {
        put_u64(bytes, self.pc);
    }
}

impl FromBytes for QemuPc {
    open spec fn readable(s: Seq<u8>) -> bool {
        s.len() >= 8
    }

    open spec fn parsed_len(s: Seq<u8>) -> nat {
        8
    }

    open spec fn parse(s: Seq<u8>) -> QemuPc {
        QemuPc { pc: u64_of_be(s) }
    }

    fn from_bytes(bytes: &mut BytesMut) -> (r: QemuPc) {
        QemuPc { pc: get_u64(bytes) }
    }
}

/// The virtual address of a load.
#[derive(Clone, Copy, Debug, PartialEq, Eq, Structural)]
pub struct QemuRead {
    pub addr: u64,
}

impl QemuRead {
    pub fn new(addr: u64) -> (r: QemuRead)
        ensures
            r == (QemuRead { addr }),
    {
        QemuRead { addr }
    }

    /// A load at an arbitrary address.
    pub fn new_random() -> (r: QemuRead)
        ensures
            r.addr < u64::MAX,
    {
        QemuRead::new(random_in(0, u64::MAX))
    }
}

impl ToBytes for QemuRead {
    open spec fn wire(&self) -> Seq<u8> {
        be_u64(self.addr)
    }

    fn to_bytes(&self, bytes: &mut BytesMut) {
        put_u64(bytes, self.addr);
    }
}

impl FromBytes for QemuRead {
    open spec fn readable(s: Seq<u8>) -> bool {
        s.len() >= 8
    }

    open spec fn parsed_len(s: Seq<u8>) -> nat {
        8
    }

    open spec fn parse(s: Seq<u8>) -> QemuRead {
        QemuRead { addr: u64_of_be(s) }
    }

    fn from_bytes(bytes: &mut BytesMut) -> (r: QemuRead) {
        QemuRead { addr: get_u64(bytes) }
    }
}

/// The virtual address of a store.
#[derive(Clone, Copy, Debug, PartialEq, Eq, Structural)]
pub struct QemuWrite {
    pub addr: u64,
}

impl QemuWrite {
    pub fn new(addr: u64) -> (r: QemuWrite)
        ensures
            r == (QemuWrite { addr }),
    {
        QemuWrite { addr }
    }

    /// A store at an arbitrary address.
    pub fn new_random() -> (r: QemuWrite)
        ensures
            r.addr < u64::MAX,
    {
        QemuWrite::new(random_in(0, u64::MAX))
    }
}

impl ToBytes for QemuWrite {
    open spec fn wire(&self) -> Seq<u8> {
        be_u64(self.addr)
    }

    fn to_bytes(&self, bytes: &mut BytesMut) {
        put_u64(bytes, self.addr);
    }
}

impl FromBytes for QemuWrite {
    open spec fn readable(s: Seq<u8>) -> bool {
        s.len() >= 8
    }

    open spec fn parsed_len(s: Seq<u8>) -> nat {
        8
    }

    open spec fn parse(s: Seq<u8>) -> QemuWrite {
        QemuWrite { addr: u64_of_be(s) }
    }

    fn from_bytes(bytes: &mut BytesMut) -> (r: QemuWrite) {
        QemuWrite { addr: get_u64(bytes) }
    }
}

/// Whether the executed instruction ends its translation block.
#[derive(Clone, Copy, Debug, PartialEq, Eq, Structural)]
pub struct QemuBranch {
    pub branch: bool,
}

impl QemuBranch {
    pub fn new(branch: bool) -> (r: QemuBranch)
        ensures
            r == (QemuBranch { branch }),
    {
        QemuBranch { branch }
    }

    /// A branch mark with an arbitrary value.
    pub fn new_random() -> QemuBranch {
        QemuBranch::new(random_bool())
    }
}

impl ToBytes for QemuBranch {
    open spec fn wire(&self) -> Seq<u8> {
        seq![bool_byte(self.branch)]
    }

    fn to_bytes(&self, bytes: &mut BytesMut) {
        put_u8(bytes, if self.branch { 1 } else { 0 });
        assert(buffered(*bytes) == buffered(*old(bytes)) + self.wire());
    }
}

impl FromBytes for QemuBranch {
    open spec fn readable(s: Seq<u8>) -> bool {
        s.len() >= 1
    }

    open spec fn parsed_len(s: Seq<u8>) -> nat {
        1
    }

    open spec fn parse(s: Seq<u8>) -> QemuBranch {
        QemuBranch { branch: s[0] != 0 }
    }

    fn from_bytes(bytes: &mut BytesMut) -> (r: QemuBranch) {
        QemuBranch { branch: get_u8(bytes) != 0 }
    }
}

/// The value of `field` where there is one, `default` otherwise.
pub open spec fn or_default<T>(field: Option<T>, default: T) -> T {
    match field {
        Some(value) => value,
        None => default,
    }
}

/// A fixed record.
#[derive(Clone, Copy, Debug, PartialEq, Eq)]
pub struct QemuEventExec {
    /// Which of the fields mean something.
    pub flags: EventFlags,
    pub pc: QemuPc,
    pub instr: QemuInstr,
    pub read: QemuRead,
    pub write: QemuWrite,
    pub syscall: QemuSyscall,
    pub branch: QemuBranch,
}

impl QemuEventExec {
    /// The record of what is given. A field that is not given is filled
    /// with zeros and its flag stays off. A load and a store share one flag.
    pub fn new(
        pc: Option<QemuPc>,
        instr: Option<QemuInstr>,
        read: Option<QemuRead>,
        write: Option<QemuWrite>,
        syscall: Option<QemuSyscall>,
        branch: Option<QemuBranch>,
    ) -> (r: QemuEventExec)
        ensures
            r.flags.bits == EventFlags::spec_from(
                pc.is_some(),
                instr.is_some(),
                read.is_some() || write.is_some(),
                syscall.is_some(),
                branch.is_some(),
            ),
            r.flags.wf(),
            r.pc == or_default(pc, QemuPc { pc: 0 }),
            instr matches Some(i) ==> r.instr == i,
            instr.is_none() ==> r.instr.opcode_size == 0 && r.instr.opcode@ == Seq::new(
                16,
                |i: int| 0u8,
            ),
            r.read == or_default(read, QemuRead { addr: 0 }),
            r.write == or_default(write, QemuWrite { addr: 0 }),
            syscall matches Some(s) ==> r.syscall == s,
            syscall.is_none() ==> r.syscall.num == 0 && r.syscall.rv == 0 && r.syscall.args@
                == Seq::new(8, |i: int| 0u64),
            r.branch == or_default(branch, QemuBranch { branch: false }),
    {
        let flags = EventFlags::from(
            pc.is_some(),
            instr.is_some(),
            read.is_some() || write.is_some(),
            syscall.is_some(),
            branch.is_some(),
        );
        let pc = match pc {
            Some(pc) => pc,
            None => QemuPc::new(0),
        };
        let instr = match instr {
            Some(instr) => instr,
            None => {
                let zeros = [0u8; 16];
                assert(zeros@ =~= Seq::new(16, |i: int| 0u8));
                QemuInstr::new(zeros, 0)
            },
        };
        let read = match read {
            Some(read) => read,
            None => QemuRead::new(0),
        };
        let write = match write {
            Some(write) => write,
            None => QemuWrite::new(0),
        };
        let syscall = match syscall {
            Some(syscall) => syscall,
            None => {
                let zeros = [0u64; 8];
                assert(zeros@ =~= Seq::new(8, |i: int| 0u64));
                QemuSyscall::new(0, 0, zeros)
            },
        };
        let branch = match branch {
            Some(branch) => branch,
            None => QemuBranch::new(false),
        };
        QemuEventExec { flags, pc, instr, read, write, syscall, branch }
    }

    /// A record in which each field is given or not by chance, with
    /// arbitrary contents.
    pub fn new_random() -> (r: QemuEventExec)
        ensures
            r.flags.wf(),
    {
        let pc = if random_bool() {
            Some(QemuPc::new_random())
        } else {
            None
        };
        let instr = if random_bool() {
            Some(QemuInstr::new_random())
        } else {
            None
        };
        let read = if random_bool() {
            Some(QemuRead::new_random())
        } else {
            None
        };
        let write = if random_bool() {
            Some(QemuWrite::new_random())
        } else {
            None
        };
        let syscall = if random_bool() {
            Some(QemuSyscall::new_random())
        } else {
            None
        };
        let branch = if random_bool() {
            Some(QemuBranch::new_random())
        } else {
            None
        };
        QemuEventExec::new(pc, instr, read, write, syscall, branch)
    }
}

impl ToBytes for QemuEventExec {
    open spec fn wire(&self) -> Seq<u8> {
        be_u32(self.flags.bits) + self.pc.wire() + self.instr.wire() + self.read.wire()
            + self.write.wire() + self.syscall.wire() + self.branch.wire()
    }

    fn to_bytes(&self, bytes: &mut BytesMut) {
        proof {
            lemma_exec_wire_len(*self);
        }
        put_u32(bytes, self.flags.bits());
        self.pc.to_bytes(bytes);
        self.instr.to_bytes(bytes);
        self.read.to_bytes(bytes);
        self.write.to_bytes(bytes);
        self.syscall.to_bytes(bytes);
        self.branch.to_bytes(bytes);
        assert(buffered(*bytes) == buffered(*old(bytes)) + self.wire());
    }
}

impl FromBytes for QemuEventExec {
    open spec fn readable(s: Seq<u8>) -> bool {
        s.len() >= EXEC_RECORD_LEN
    }

    open spec fn parsed_len(s: Seq<u8>) -> nat {
        EXEC_RECORD_LEN as nat
    }

    open spec fn parse(s: Seq<u8>) -> QemuEventExec {
        QemuEventExec {
            flags: EventFlags::spec_from_bits_truncate(u32_of_be(s)),
            pc: QemuPc::parse(s.skip(4)),
            instr: QemuInstr::parse(s.skip(12)),
            read: QemuRead::parse(s.skip(36)),
            write: QemuWrite::parse(s.skip(44)),
            syscall: QemuSyscall::parse(s.skip(52)),
            branch: QemuBranch::parse(s.skip(132)),
        }
    }

    fn from_bytes(bytes: &mut BytesMut) -> (r: QemuEventExec) {
        let ghost start = buffered(*bytes);
        let flags = EventFlags::from_bits_truncate(get_u32(bytes));
        let pc = QemuPc::from_bytes(bytes);
        assert(buffered(*bytes) == start.skip(12));
        let instr = QemuInstr::from_bytes(bytes);
        assert(buffered(*bytes) == start.skip(36));
        let read = QemuRead::from_bytes(bytes);
        assert(buffered(*bytes) == start.skip(44));
        let write = QemuWrite::from_bytes(bytes);
        assert(buffered(*bytes) == start.skip(52));
        let syscall = QemuSyscall::from_bytes(bytes);
        assert(buffered(*bytes) == start.skip(132));
        let branch = QemuBranch::from_bytes(bytes);
        assert(buffered(*bytes) == start.skip(133));
        QemuEventExec { flags, pc, instr, read, write, syscall, branch }
    }
}

/// What the front of a byte sequence holds of fixed records: nothing yet,
/// or one record.
pub open spec fn decode_record(s: Seq<u8>) -> Option<QemuEventExec> {
    if s.len() < EXEC_RECORD_LEN {
        None
    } else {
        Some(QemuEventExec::parse(s))
    }
}

/// The codec of fixed records. It keeps no state between calls.
pub struct QemuEventCodec {}

impl QemuEventCodec {
    /// Appends the record `item` to `dst`. It fails, and leaves `dst` as it
    /// was, only where the buffer would outgrow the largest allocation.
    pub fn encode(&mut self, item: QemuEventExec, dst: &mut BytesMut) -> (r: Result<
        (),
        EncodeError,
    >)
        ensures
            r.is_ok() <==> buffered(*old(dst)).len() + EXEC_RECORD_LEN <= isize::MAX,
            r.is_ok() ==> buffered(*final(dst)) == buffered(*old(dst)) + item.wire(),
            r.is_err() ==> buffered(*final(dst)) == buffered(*old(dst)),
            r.is_err() ==> r == Err::<(), EncodeError>(EncodeError::BufferFull),
    {
        proof {
            lemma_exec_wire_len(item);
        }
        let have: usize = dst.len();
        if have > (isize::MAX as usize) - EXEC_RECORD_LEN {
            return Err(EncodeError::BufferFull);
        }
        item.to_bytes(dst);
        Ok(())
    }

    /// Takes one record from the front of `src` once all of it is there.
    /// Any bytes of the right number are a record, so there is no error to
    /// report.
    pub fn decode(&mut self, src: &mut BytesMut) -> (r: Result<Option<QemuEventExec>, DecodeError>)
        ensures
            r == Ok::<Option<QemuEventExec>, DecodeError>(decode_record(buffered(*old(src)))),
            buffered(*final(src)) == (if buffered(*old(src)).len() < EXEC_RECORD_LEN {
                buffered(*old(src))
            } else {
                buffered(*old(src)).skip(EXEC_RECORD_LEN as int)
            }),
    {
        if src.len() < EXEC_RECORD_LEN {
            return Ok(None);
        }
        let record = QemuEventExec::from_bytes(src);
        Ok(Some(record))
    }
}

/// Every fixed record has the same length.
pub proof fn lemma_exec_wire_len(record: QemuEventExec)
    ensures
        record.wire().len() == EXEC_RECORD_LEN,
{
    lemma_be_u64s_round_trip(record.syscall.args@, Seq::<u8>::empty());
}

/// What follows the first part of a sequence made of two parts is the
/// second part.
proof fn lemma_skip_front(front: Seq<u8>, back: Seq<u8>, at: int, whole: Seq<u8>)
    requires
        0 <= at,
        whole.len() >= at,
        whole.skip(at) == front + back,
    ensures
        whole.skip(at + front.len()) == back,
{
    assert(whole.skip(at + front.len()) =~= whole.skip(at).skip(front.len() as int));
    assert((front + back).skip(front.len() as int) =~= back);
}

/// A 64-bit number is read back from its bytes, whatever follows them.
proof fn lemma_u64_front(n: u64, post: Seq<u8>)
    ensures
        u64_of_be(be_u64(n) + post) == n,
{
    lemma_u64_be_round_trip(n);
    let t = be_u64(n) + post;
    assert forall|k: int| 0 <= k < 8 implies t[k] == be_u64(n)[k] by {}
}

/// The bytes of a record, field by field.
proof fn lemma_record_layout(record: QemuEventExec, rest: Seq<u8>)
    ensures
        ({
            let s = record.wire() + rest;
            let t6 = record.branch.wire() + rest;
            let t5 = record.syscall.wire() + t6;
            let t4 = record.write.wire() + t5;
            let t3 = record.read.wire() + t4;
            let t2 = record.instr.wire() + t3;
            let t1 = record.pc.wire() + t2;
            &&& s.len() >= EXEC_RECORD_LEN
            &&& s == be_u32(record.flags.bits) + t1
            &&& s.skip(4) == t1
            &&& s.skip(12) == t2
            &&& s.skip(36) == t3
            &&& s.skip(44) == t4
            &&& s.skip(52) == t5
            &&& s.skip(132) == t6
        }),
{
    let s = record.wire() + rest;
    let t6 = record.branch.wire() + rest;
    let t5 = record.syscall.wire() + t6;
    let t4 = record.write.wire() + t5;
    let t3 = record.read.wire() + t4;
    let t2 = record.instr.wire() + t3;
    let t1 = record.pc.wire() + t2;
    let f = be_u32(record.flags.bits);
    lemma_exec_wire_len(record);
    lemma_be_u64s_round_trip(record.syscall.args@, Seq::<u8>::empty());
    assert(s =~= f + t1);
    assert(s.skip(0) =~= s);
    lemma_skip_front(f, t1, 0, s);
    lemma_skip_front(record.pc.wire(), t2, 4, s);
    lemma_skip_front(record.instr.wire(), t3, 12, s);
    lemma_skip_front(record.read.wire(), t4, 36, s);
    lemma_skip_front(record.write.wire(), t5, 44, s);
    lemma_skip_front(record.syscall.wire(), t6, 52, s);
}

/// A fixed record whose flags hold meaningful bits only, and whose opcode
/// has a size that an opcode can have, is read back from its bytes,
/// whatever follows them.
pub proof fn lemma_record_round_trip(record: QemuEventExec, rest: Seq<u8>)
    requires
        record.flags.wf(),
        record.instr.wf(),
    ensures
        decode_record(record.wire() + rest) == Some(record),
        decode_record(record.wire()) == Some(record),
{
    lemma_record_at_front(record, rest);
    lemma_record_at_front(record, Seq::<u8>::empty());
    assert(record.wire() + Seq::<u8>::empty() =~= record.wire());
}

proof fn lemma_record_at_front(record: QemuEventExec, rest: Seq<u8>)
    requires
        record.flags.wf(),
        record.instr.wf(),
    ensures
        decode_record(record.wire() + rest) == Some(record),
{
    let s = record.wire() + rest;
    let bits = record.flags.bits;
    let t6 = record.branch.wire() + rest;
    let t5 = record.syscall.wire() + t6;
    let t4 = record.write.wire() + t5;
    let t3 = record.read.wire() + t4;
    let t2 = record.instr.wire() + t3;
    lemma_record_layout(record, rest);
    assert(EventFlags::spec_from_bits_truncate(u32_of_be(s)) == record.flags) by {
        lemma_u32_be_round_trip(bits);
        assert forall|k: int| 0 <= k < 4 implies s[k] == be_u32(bits)[k] by {}
        assert(bits & !ALL_BITS == 0 ==> bits & ALL_BITS == bits) by (bit_vector);
    }
    assert(QemuPc::parse(s.skip(4)) == record.pc) by {
        lemma_u64_front(record.pc.pc, t2);
    }
    assert(QemuInstr::parse(s.skip(12)) == record.instr) by {
        lemma_instr_round_trip(record.instr, t3);
    }
    assert(QemuRead::parse(s.skip(36)) == record.read) by {
        lemma_u64_front(record.read.addr, t4);
    }
    assert(QemuWrite::parse(s.skip(44)) == record.write) by {
        lemma_u64_front(record.write.addr, t5);
    }
    assert(QemuSyscall::parse(s.skip(52)) == record.syscall) by {
        lemma_syscall_round_trip(record.syscall, t6);
    }
    assert(QemuBranch::parse(s.skip(132)) == record.branch) by {
        assert(t6[0] == bool_byte(record.branch.branch));
    }
}

} // verus!
