//! The event taxonomy and the layout of each event on the wire.
//!
//! A frame is a 32-bit flag word followed by the fields of one event. The
//! flag word says which kind of event follows, so a reader that has the flag
//! word knows how many more bytes belong to the frame. All integers are
//! big-endian.

use crate::wire::{
    be_i64, be_u32, be_u64, bool_byte, buffered, get_array16, get_i64, get_u32, get_u64, get_u8,
    i64_of_be, lemma_u32_be_round_trip, lemma_u64_be_round_trip,
    put_i64, put_slice, put_u32, put_u64, put_u8, u32_of_be, u64_of_be,
};
use bytes::BytesMut;
use vstd::prelude::*;

verus! {

/// The longest opcode, in bytes, that an instruction event carries.
pub const MAX_OPCODE_SIZE: usize = 16;

/// The number of syscall arguments that the host hands to a plugin.
pub const NUM_SYSCALL_ARGS: usize = 8;

/// Flag bit: the frame holds a program counter event.
pub const PC: u32 = 0x001;

/// Flag bit: the frame holds a memory access event.
pub const READS_WRITES: u32 = 0x002;

/// Flag bit: the frame holds an instruction event.
pub const INSTRS: u32 = 0x008;

/// Flag bit: the frame holds a syscall event.
pub const SYSCALLS: u32 = 0x010;

/// Flag bit: branches are traced.
pub const BRANCHES: u32 = 0x020;

/// Flag bit: the event has executed. The plugin uses it for its own
/// bookkeeping.
pub const EXECUTED: u32 = 0x040;

/// Flag bit: the emulator has finished; this is the last frame.
pub const FINISHED: u32 = 0x080;

/// Flag bit: the frame holds a program load event.
pub const LOAD: u32 = 0x100;

/// The five bits that name the kind of event in a frame.
pub const KIND_BITS: u32 = 0x11b;

/// Every bit that has a meaning.
pub const ALL_BITS: u32 = 0x1fb;

/// The flag word of a frame, and the set of event kinds a plugin traces.
#[derive(Clone, Copy, Debug, PartialEq, Eq, Structural)]
pub struct EventFlags {
    pub bits: u32,
}

impl EventFlags {
    /// Whether only bits with a meaning are set.
    pub open spec fn wf(self) -> bool {
        self.bits & !ALL_BITS == 0
    }

    /// Whether every bit of `other` is set in `self`.
    pub open spec fn spec_contains(self, other: EventFlags) -> bool {
        self.bits & other.bits == other.bits
    }

    /// The flags that hold the meaningful bits of `bits` and no others.
    pub open spec fn spec_from_bits_truncate(bits: u32) -> EventFlags {
        EventFlags { bits: bits & ALL_BITS }
    }

    /// The flags in which the bits of both are set.
    pub open spec fn spec_union(self, other: EventFlags) -> EventFlags {
        EventFlags { bits: self.bits | other.bits }
    }

    /// What `from` builds: one bit for each choice that is on.
    pub open spec fn spec_from(
        has_pc: bool,
        has_instrs: bool,
        has_reads_writes: bool,
        has_syscalls: bool,
        has_branches: bool,
    ) -> u32 {
        (if has_pc { PC } else { 0u32 }) | (if has_instrs { INSTRS } else { 0u32 })
            | (if has_reads_writes { READS_WRITES } else { 0u32 })
            | (if has_syscalls { SYSCALLS } else { 0u32 })
            | (if has_branches { BRANCHES } else { 0u32 })
    }

    /// The flags with no bit set.
    pub fn empty() -> (r: EventFlags)
        ensures
            r.bits == 0,
            r.wf(),
    {
        assert(0u32 & !ALL_BITS == 0) by (bit_vector);
        EventFlags { bits: 0 }
    }

    /// The raw flag word.
    pub fn bits(&self) -> (r: u32)
        ensures
            r == self.bits,
    {
        self.bits
    }

    /// The flags of a raw word; bits without a meaning are dropped.
    pub fn from_bits_truncate(bits: u32) -> (r: EventFlags)
        ensures
            r == EventFlags::spec_from_bits_truncate(bits),
            r.wf(),
    {
        assert((bits & ALL_BITS) & !ALL_BITS == 0) by (bit_vector);
        EventFlags { bits: bits & ALL_BITS }
    }

    /// Whether every bit of `other` is set in `self`.
    pub fn contains(&self, other: EventFlags) -> (r: bool)
        ensures
            r == self.spec_contains(other),
    {
        self.bits & other.bits == other.bits
    }

    /// Whether the single flag bit `bit` is set.
    pub fn has(&self, bit: u32) -> (r: bool)
        ensures
            r == (self.bits & bit == bit),
    {
        self.bits & bit == bit
    }

    /// The flags in which the bits of both are set.
    pub fn union(self, other: EventFlags) -> (r: EventFlags)
        ensures
            r == self.spec_union(other),
            self.wf() && other.wf() ==> r.wf(),
    {
        let a = self.bits;
        let b = other.bits;
        assert(a & !ALL_BITS == 0 && b & !ALL_BITS == 0 ==> (a | b) & !ALL_BITS == 0)
            by (bit_vector);
        EventFlags { bits: a | b }
    }

    /// Sets the bits of `other` in `self`.
    pub fn insert(&mut self, other: EventFlags)
        ensures
            *final(self) == old(self).spec_union(other),
            old(self).wf() && other.wf() ==> final(self).wf(),
    {
        let a = self.bits;
        let b = other.bits;
        assert(a & !ALL_BITS == 0 && b & !ALL_BITS == 0 ==> (a | b) & !ALL_BITS == 0)
            by (bit_vector);
        self.bits = a | b;
    }

    /// The flags of a trace configuration: one bit for each kind that is
    /// switched on.
    pub fn from(
        has_pc: bool,
        has_instrs: bool,
        has_reads_writes: bool,
        has_syscalls: bool,
        has_branches: bool,
    ) -> (r: EventFlags)
        ensures
            r.bits == EventFlags::spec_from(
                has_pc,
                has_instrs,
                has_reads_writes,
                has_syscalls,
                has_branches,
            ),
            r.wf(),
            (r.bits & PC == PC) == has_pc,
            (r.bits & INSTRS == INSTRS) == has_instrs,
            (r.bits & READS_WRITES == READS_WRITES) == has_reads_writes,
            (r.bits & SYSCALLS == SYSCALLS) == has_syscalls,
            (r.bits & BRANCHES == BRANCHES) == has_branches,
            r.bits & (EXECUTED | FINISHED | LOAD) == 0,
    {
        let p: u32 = if has_pc { PC } else { 0 };
        let i: u32 = if has_instrs { INSTRS } else { 0 };
        let m: u32 = if has_reads_writes { READS_WRITES } else { 0 };
        let s: u32 = if has_syscalls { SYSCALLS } else { 0 };
        let b: u32 = if has_branches { BRANCHES } else { 0 };
        let bits: u32 = p | i | m | s | b;
        assert((p == 0x001 || p == 0) && (i == 0x008 || i == 0) && (m == 0x002 || m == 0) && (s
            == 0x010 || s == 0) && (b == 0x020 || b == 0) && bits == p | i | m | s | b ==> bits
            & !0x1fbu32 == 0 && ((bits & 0x001 == 0x001) == (p == 0x001)) && ((bits & 0x008
            == 0x008) == (i == 0x008)) && ((bits & 0x002 == 0x002) == (m == 0x002)) && ((bits
            & 0x010 == 0x010) == (s == 0x010)) && ((bits & 0x020 == 0x020) == (b == 0x020))
            && bits & (0x040u32 | 0x080u32 | 0x100u32) == 0) by (bit_vector);
        EventFlags { bits }
    }
}

impl Default for EventFlags {
    fn default() -> (r: EventFlags)
        ensures
            r.bits == 0,
    {
        EventFlags { bits: 0 }
    }
}

/// A value that has a layout on the wire.
pub trait ToBytes {
    /// The bytes of the value on the wire.
    spec fn wire(&self) -> Seq<u8>;

    /// Appends the bytes of the value to `bytes`.
    fn to_bytes(&self, bytes: &mut BytesMut)
        requires
            buffered(*old(bytes)).len() + self.wire().len() <= isize::MAX,
        ensures
            buffered(*final(bytes)) == buffered(*old(bytes)) + self.wire(),
    ;
}

/// A value that can be read from the front of a byte buffer.
pub trait FromBytes: Sized {
    /// Whether `s` starts with all the bytes of one value.
    spec fn readable(s: Seq<u8>) -> bool;

    /// The number of bytes that the value at the front of `s` takes.
    spec fn parsed_len(s: Seq<u8>) -> nat;

    /// The value at the front of `s`.
    spec fn parse(s: Seq<u8>) -> Self;

    /// Takes one value from the front of `bytes`.
    fn from_bytes(bytes: &mut BytesMut) -> (r: Self)
        requires
            Self::readable(buffered(*old(bytes))),
        ensures
            r == Self::parse(buffered(*old(bytes))),
            buffered(*final(bytes)) == buffered(*old(bytes)).skip(
                Self::parsed_len(buffered(*old(bytes))) as int,
            ),
    ;
}

/// The program counter of an executed instruction.
#[derive(Clone, Copy, Debug, PartialEq, Eq, Structural)]
pub struct QemuPc {
    /// The address of the instruction.
    pub pc: u64,
    /// Whether the instruction is the last of its translation block.
    pub branch: bool,
}

impl QemuPc {
    pub fn new(pc: u64, branch: bool) -> (r: QemuPc)
        ensures
            r == (QemuPc { pc, branch }),
    {
        QemuPc { pc, branch }
    }
}

impl ToBytes for QemuPc {
    open spec fn wire(&self) -> Seq<u8> {
        be_u64(self.pc).push(bool_byte(self.branch))
    }

    fn to_bytes(&self, bytes: &mut BytesMut) {
        put_u64(bytes, self.pc);
        put_u8(bytes, if self.branch { 1 } else { 0 });
        assert(buffered(*bytes) == buffered(*old(bytes)) + self.wire());
    }
}

impl FromBytes for QemuPc {
    open spec fn readable(s: Seq<u8>) -> bool {
        s.len() >= 9
    }

    open spec fn parsed_len(s: Seq<u8>) -> nat {
        9
    }

    open spec fn parse(s: Seq<u8>) -> QemuPc {
        QemuPc { pc: u64_of_be(s), branch: s[8] != 0 }
    }

    fn from_bytes(bytes: &mut BytesMut) -> (r: QemuPc) {
        let pc = get_u64(bytes);
        let branch = get_u8(bytes) != 0;
        assert(buffered(*bytes) == buffered(*old(bytes)).skip(9));
        QemuPc { pc, branch }
    }
}

/// The opcode bytes of an instruction, captured when it was translated.
#[derive(Clone, Copy, Debug, PartialEq, Eq)]
pub struct QemuInstr {
    /// The opcode bytes, padded with zeros to the full length.
    pub opcode: [u8; 16],
    /// How many of the bytes belong to the opcode.
    pub opcode_size: usize,
}

/// The size of an opcode that is said to have `n` bytes: `n`, but no more
/// than there is room for.
pub open spec fn spec_opcode_size(n: int) -> usize {
    if 0 <= n <= MAX_OPCODE_SIZE {
        n as usize
    } else {
        MAX_OPCODE_SIZE
    }
}

impl QemuInstr {
    /// Whether the size is one that an opcode can have.
    pub open spec fn wf(self) -> bool {
        self.opcode_size <= MAX_OPCODE_SIZE
    }

    /// The instruction as it is written: with a size that an opcode can
    /// have.
    pub open spec fn spec_emitted(self) -> QemuInstr {
        QemuInstr { opcode: self.opcode, opcode_size: spec_opcode_size(self.opcode_size as int) }
    }

    /// The instruction with the opcode bytes `opcode`, of which the first
    /// `opcode_size` belong to the opcode. A size above the length of the
    /// array is brought down to it.
    pub fn new(opcode: [u8; 16], opcode_size: usize) -> (r: QemuInstr)
        ensures
            r == (QemuInstr { opcode, opcode_size: spec_opcode_size(opcode_size as int) }),
            r.wf(),
    {
        if opcode_size <= MAX_OPCODE_SIZE {
            QemuInstr { opcode, opcode_size }
        } else {
            QemuInstr { opcode, opcode_size: MAX_OPCODE_SIZE }
        }
    }

    /// Whether the size is one that an opcode can have.
    pub fn is_wf(&self) -> (r: bool)
        ensures
            r == self.wf(),
    {
        self.opcode_size <= MAX_OPCODE_SIZE
    }
}

impl ToBytes for QemuInstr {
    /// The sixteen opcode bytes, then the size. No size above sixteen is
    /// ever written: a larger one is written as sixteen.
    open spec fn wire(&self) -> Seq<u8> {
        self.opcode@ + be_u64(spec_opcode_size(self.opcode_size as int) as u64)
    }

    fn to_bytes(&self, bytes: &mut BytesMut) {
        let size: u64 = if self.opcode_size <= MAX_OPCODE_SIZE {
            self.opcode_size as u64
        } else {
            16
        };
        put_slice(bytes, self.opcode.as_slice());
        put_u64(bytes, size);
    }
}

impl FromBytes for QemuInstr {
    open spec fn readable(s: Seq<u8>) -> bool {
        s.len() >= 24
    }

    open spec fn parsed_len(s: Seq<u8>) -> nat {
        24
    }

    /// The instruction at the front of `s`. No size above sixteen is ever
    /// read: a larger size field is read as sixteen.
    open spec fn parse(s: Seq<u8>) -> QemuInstr {
        QemuInstr {
            opcode: opcode_of(s.take(16)),
            opcode_size: spec_opcode_size(u64_of_be(s.skip(16)) as int),
        }
    }

    fn from_bytes(bytes: &mut BytesMut) -> (r: QemuInstr)
        ensures
            r.wf(),
    {
        let opcode = get_array16(bytes);
        let size = get_u64(bytes);
        proof {
            lemma_opcode_of(opcode);
            assert(buffered(*bytes) == buffered(*old(bytes)).skip(24));
        }
        if size <= 16 {
            QemuInstr { opcode, opcode_size: size as usize }
        } else {
            QemuInstr { opcode, opcode_size: MAX_OPCODE_SIZE }
        }
    }
}

/// The array whose sixteen elements are those of `s`.
pub open spec fn opcode_of(s: Seq<u8>) -> [u8; 16] {
    choose|a: [u8; 16]| a@ == s
}

/// An array is the one that holds its own elements.
pub proof fn lemma_opcode_of(a: [u8; 16])
    ensures
        opcode_of(a@) == a,
{
    let b = opcode_of(a@);
    assert(b@ == a@);
    assert(b =~= a);
}

/// A load or a store that an executed instruction made.
#[derive(Clone, Copy, Debug, PartialEq, Eq, Structural)]
pub struct QemuMemAccess {
    /// The address of the instruction.
    pub pc: u64,
    /// The virtual address that was read or written.
    pub addr: u64,
    /// Whether the access was a store.
    pub is_write: bool,
}

impl QemuMemAccess {
    pub fn new(pc: u64, addr: u64, is_write: bool) -> (r: QemuMemAccess)
        ensures
            r == (QemuMemAccess { pc, addr, is_write }),
    {
        QemuMemAccess { pc, addr, is_write }
    }
}

impl ToBytes for QemuMemAccess {
    open spec fn wire(&self) -> Seq<u8> {
        (be_u64(self.pc) + be_u64(self.addr)).push(bool_byte(self.is_write))
    }

    fn to_bytes(&self, bytes: &mut BytesMut) {
        put_u64(bytes, self.pc);
        put_u64(bytes, self.addr);
        put_u8(bytes, if self.is_write { 1 } else { 0 });
        assert(buffered(*bytes) == buffered(*old(bytes)) + self.wire());
    }
}

impl FromBytes for QemuMemAccess {
    open spec fn readable(s: Seq<u8>) -> bool {
        s.len() >= 17
    }

    open spec fn parsed_len(s: Seq<u8>) -> nat {
        17
    }

    open spec fn parse(s: Seq<u8>) -> QemuMemAccess {
        QemuMemAccess { pc: u64_of_be(s), addr: u64_of_be(s.skip(8)), is_write: s[16] != 0 }
    }

    fn from_bytes(bytes: &mut BytesMut) -> (r: QemuMemAccess) {
        let pc = get_u64(bytes);
        let addr = get_u64(bytes);
        let is_write = get_u8(bytes) != 0;
        assert(buffered(*bytes) == buffered(*old(bytes)).skip(17));
        QemuMemAccess { pc, addr, is_write }
    }
}

/// A memory region that the program or one of its libraries was loaded to.
#[derive(Clone, Copy, Debug, PartialEq, Eq, Structural)]
pub struct QemuLoad {
    /// The lowest address of the region.
    pub min: u64,
    /// The highest address of the region.
    pub max: u64,
    /// The entry point; zero unless the region is the main image.
    pub entry: u64,
    /// The protection bits of the region.
    pub prot: u8,
}

impl QemuLoad {
    pub fn new(min: u64, max: u64, entry: u64, prot: u8) -> (r: QemuLoad)
        ensures
            r == (QemuLoad { min, max, entry, prot }),
    {
        QemuLoad { min, max, entry, prot }
    }
}

impl ToBytes for QemuLoad {
    open spec fn wire(&self) -> Seq<u8> {
        (be_u64(self.min) + be_u64(self.max) + be_u64(self.entry)).push(self.prot)
    }

    fn to_bytes(&self, bytes: &mut BytesMut) {
        put_u64(bytes, self.min);
        put_u64(bytes, self.max);
        put_u64(bytes, self.entry);
        put_u8(bytes, self.prot);
        assert(buffered(*bytes) == buffered(*old(bytes)) + self.wire());
    }
}

impl FromBytes for QemuLoad {
    open spec fn readable(s: Seq<u8>) -> bool {
        s.len() >= 25
    }

    open spec fn parsed_len(s: Seq<u8>) -> nat {
        25
    }

    open spec fn parse(s: Seq<u8>) -> QemuLoad {
        QemuLoad {
            min: u64_of_be(s),
            max: u64_of_be(s.skip(8)),
            entry: u64_of_be(s.skip(16)),
            prot: s[24],
        }
    }

    fn from_bytes(bytes: &mut BytesMut) -> (r: QemuLoad) {
        let min = get_u64(bytes);
        let max = get_u64(bytes);
        let entry = get_u64(bytes);
        let prot = get_u8(bytes);
        assert(buffered(*bytes) == buffered(*old(bytes)).skip(25));
        assert(buffered(*old(bytes)).skip(8).skip(8) == buffered(*old(bytes)).skip(16));
        QemuLoad { min, max, entry, prot }
    }
}

/// The bytes of a run of 64-bit numbers, each big-endian, in order.
pub open spec fn be_u64s(vals: Seq<u64>) -> Seq<u8>
    decreases vals.len(),
{
    if vals.len() == 0 {
        Seq::<u8>::empty()
    } else {
        be_u64s(vals.drop_last()) + be_u64(vals.last())
    }
}

/// The `n` 64-bit numbers whose big-endian bytes `s` starts with.
pub open spec fn u64s_of_be(s: Seq<u8>, n: nat) -> Seq<u64> {
    Seq::new(n, |i: int| u64_of_be(s.skip(8 * i)))
}

/// The array whose eight elements are those of `vals`.
pub open spec fn args_of(vals: Seq<u64>) -> [u64; 8] {
    choose|a: [u64; 8]| a@ == vals
}

/// An array is the one that holds its own elements.
pub proof fn lemma_args_of(a: [u64; 8])
    ensures
        args_of(a@) == a,
{
    let b = args_of(a@);
    assert(b@ == a@);
    assert(b =~= a);
}

/// A run of numbers takes eight bytes for each, and reading the bytes back,
/// whatever follows them, gives the numbers.
pub proof fn lemma_be_u64s_round_trip(vals: Seq<u64>, rest: Seq<u8>)
    ensures
        be_u64s(vals).len() == 8 * vals.len(),
        u64s_of_be(be_u64s(vals) + rest, vals.len()) == vals,
    decreases vals.len(),
{
    if vals.len() == 0 {
        assert(u64s_of_be(be_u64s(vals) + rest, vals.len()) =~= vals);
    } else {
        let front = vals.drop_last();
        let last = vals.last();
        lemma_be_u64s_round_trip(front, be_u64(last) + rest);
        lemma_be_u64s_round_trip(front, Seq::<u8>::empty());
        lemma_u64_be_round_trip(last);
        let whole = be_u64s(vals) + rest;
        assert(whole =~= be_u64s(front) + (be_u64(last) + rest));
        let got = u64s_of_be(whole, vals.len());
        assert forall|i: int| 0 <= i < vals.len() implies got[i] == vals[i] by {
            if i < front.len() {
                assert(u64s_of_be(whole, front.len())[i] == front[i]);
            } else {
                let tail = whole.skip(8 * i);
                assert forall|k: int| 0 <= k < 8 implies tail[k] == be_u64(last)[k] by {
                    assert(tail[k] == whole[8 * i + k]);
                }
            }
        }
        assert(got =~= vals);
    }
}

/// A system call that has returned: its number, its arguments as they were
/// on entry, and what it returned.
#[derive(Clone, Copy, Debug, PartialEq, Eq)]
pub struct QemuSyscall {
    /// The number of the system call.
    pub num: i64,
    /// The value that the system call returned.
    pub rv: i64,
    /// The arguments. What a pointer among them points to is not recorded.
    pub args: [u64; 8],
}

impl QemuSyscall {
    pub fn new(num: i64, rv: i64, args: [u64; 8]) -> (r: QemuSyscall)
        ensures
            r == (QemuSyscall { num, rv, args }),
    {
        QemuSyscall { num, rv, args }
    }
}

impl ToBytes for QemuSyscall {
    open spec fn wire(&self) -> Seq<u8> {
        be_i64(self.num) + be_i64(self.rv) + be_u64s(self.args@)
    }

    fn to_bytes(&self, bytes: &mut BytesMut) {
        let ghost start = buffered(*bytes);
        proof {
            lemma_be_u64s_round_trip(self.args@, Seq::<u8>::empty());
        }
        put_i64(bytes, self.num);
        put_i64(bytes, self.rv);
        let mut i: usize = 0;
        while i < 8
            invariant
                i <= 8,
                start.len() + 80 <= isize::MAX,
                buffered(*bytes) == start + be_i64(self.num) + be_i64(self.rv) + be_u64s(
                    self.args@.take(i as int),
                ),
            decreases 8 - i,
        {
            proof {
                lemma_be_u64s_round_trip(self.args@.take(i as int), Seq::<u8>::empty());
                assert(self.args@.take(i as int + 1).drop_last() == self.args@.take(i as int));
            }
            put_u64(bytes, self.args[i]);
            i += 1;
        }
        assert(self.args@.take(8) == self.args@);
        assert(buffered(*bytes) == start + self.wire());
    }
}

impl FromBytes for QemuSyscall {
    open spec fn readable(s: Seq<u8>) -> bool {
        s.len() >= 80
    }

    open spec fn parsed_len(s: Seq<u8>) -> nat {
        80
    }

    open spec fn parse(s: Seq<u8>) -> QemuSyscall {
        QemuSyscall {
            num: i64_of_be(s),
            rv: i64_of_be(s.skip(8)),
            args: args_of(u64s_of_be(s.skip(16), 8)),
        }
    }

    fn from_bytes(bytes: &mut BytesMut) -> (r: QemuSyscall) {
        let ghost start = buffered(*bytes);
        let num = get_i64(bytes);
        let rv = get_i64(bytes);
        let mut args = [0u64; 8];
        let mut i: usize = 0;
        while i < 8
            invariant
                i <= 8,
                start.len() >= 80,
                buffered(*bytes) == start.skip(16 + 8 * i),
                forall|j: int| 0 <= j < i ==> args@[j] == u64_of_be(start.skip(16).skip(8 * j)),
            decreases 8 - i,
        {
            assert(start.skip(16).skip(8 * i) == start.skip(16 + 8 * i));
            let v = get_u64(bytes);
            args[i] = v;
            i += 1;
        }
        proof {
            assert(args@ =~= u64s_of_be(start.skip(16), 8));
            lemma_args_of(args);
        }
        QemuSyscall { num, rv, args }
    }
}

/// The five kinds of event.
#[derive(Clone, Copy, Debug, PartialEq, Eq, Structural)]
pub enum EventKind {
    Pc,
    Instr,
    MemAccess,
    Syscall,
    Load,
}

impl EventKind {
    /// The flag bit that names the kind.
    pub open spec fn spec_bit(self) -> u32 {
        match self {
            EventKind::Pc => PC,
            EventKind::Instr => INSTRS,
            EventKind::MemAccess => READS_WRITES,
            EventKind::Syscall => SYSCALLS,
            EventKind::Load => LOAD,
        }
    }

    /// The number of bytes that the fields of an event of the kind take.
    pub open spec fn spec_payload_len(self) -> nat {
        match self {
            EventKind::Pc => 9,
            EventKind::Instr => 24,
            EventKind::MemAccess => 17,
            EventKind::Syscall => 80,
            EventKind::Load => 25,
        }
    }

    /// The kind that a flag word names: the first, in the order of the
    /// variants, whose bit is set; none where no kind bit is set.
    pub open spec fn spec_of_bits(bits: u32) -> Option<EventKind> {
        if bits & PC == PC {
            Some(EventKind::Pc)
        } else if bits & INSTRS == INSTRS {
            Some(EventKind::Instr)
        } else if bits & READS_WRITES == READS_WRITES {
            Some(EventKind::MemAccess)
        } else if bits & SYSCALLS == SYSCALLS {
            Some(EventKind::Syscall)
        } else if bits & LOAD == LOAD {
            Some(EventKind::Load)
        } else {
            None
        }
    }

    /// The flag bit that names the kind.
    pub fn bit(self) -> (r: u32)
        ensures
            r == self.spec_bit(),
    {
        match self {
            EventKind::Pc => PC,
            EventKind::Instr => INSTRS,
            EventKind::MemAccess => READS_WRITES,
            EventKind::Syscall => SYSCALLS,
            EventKind::Load => LOAD,
        }
    }

    /// The number of bytes that the fields of an event of the kind take.
    pub fn payload_len(self) -> (r: usize)
        ensures
            r == self.spec_payload_len(),
    {
        match self {
            EventKind::Pc => 9,
            EventKind::Instr => 24,
            EventKind::MemAccess => 17,
            EventKind::Syscall => 80,
            EventKind::Load => 25,
        }
    }

    /// The kind that a flag word names, if it names one.
    pub fn of_flags(flags: EventFlags) -> (r: Option<EventKind>)
        ensures
            r == EventKind::spec_of_bits(flags.bits),
            r.is_none() <==> flags.bits & KIND_BITS == 0,
    {
        let bits = flags.bits;
        assert((bits & 0x11bu32 == 0) <==> !(bits & 0x001 == 0x001) && !(bits & 0x008 == 0x008)
            && !(bits & 0x002 == 0x002) && !(bits & 0x010 == 0x010) && !(bits & 0x100 == 0x100))
            by (bit_vector);
        if bits & PC == PC {
            Some(EventKind::Pc)
        } else if bits & INSTRS == INSTRS {
            Some(EventKind::Instr)
        } else if bits & READS_WRITES == READS_WRITES {
            Some(EventKind::MemAccess)
        } else if bits & SYSCALLS == SYSCALLS {
            Some(EventKind::Syscall)
        } else if bits & LOAD == LOAD {
            Some(EventKind::Load)
        } else {
            None
        }
    }
}

/// A flag word in which exactly the bit of `kind` is set among the kind
/// bits names `kind`.
pub proof fn lemma_single_kind_bit(bits: u32, kind: EventKind)
    requires
        bits & KIND_BITS == kind.spec_bit(),
    ensures
        EventKind::spec_of_bits(bits) == Some(kind),
        EventKind::spec_of_bits(bits & ALL_BITS) == Some(kind),
{
    let k = kind.spec_bit();
    assert(k == 0x001 || k == 0x008 || k == 0x002 || k == 0x010 || k == 0x100);
    let m = bits & ALL_BITS;
    assert(bits & 0x11bu32 == k && (k == 0x001 || k == 0x008 || k == 0x002 || k == 0x010 || k
        == 0x100) && m == bits & 0x1fbu32 ==> ((bits & 0x001 == 0x001) == (k == 0x001)) && ((bits
        & 0x008 == 0x008) == (k == 0x008)) && ((bits & 0x002 == 0x002) == (k == 0x002)) && ((bits
        & 0x010 == 0x010) == (k == 0x010)) && ((bits & 0x100 == 0x100) == (k == 0x100)) && ((m
        & 0x001 == 0x001) == (k == 0x001)) && ((m & 0x008 == 0x008) == (k == 0x008)) && ((m
        & 0x002 == 0x002) == (k == 0x002)) && ((m & 0x010 == 0x010) == (k == 0x010)) && ((m
        & 0x100 == 0x100) == (k == 0x100))) by (bit_vector);
}

/// One event, of any of the five kinds.
#[derive(Clone, Copy, Debug, PartialEq, Eq)]
pub enum QemuEvent {
    /// The program counter of an executed instruction.
    Pc(QemuPc),
    /// The opcode of an instruction.
    Instr(QemuInstr),
    /// A load or a store.
    MemAccess(QemuMemAccess),
    /// A system call that has returned.
    Syscall(QemuSyscall),
    /// A region that the program was loaded to.
    Load(QemuLoad),
}

impl QemuEvent {
    /// The kind of the event.
    pub open spec fn spec_kind(self) -> EventKind {
        match self {
            QemuEvent::Pc(_) => EventKind::Pc,
            QemuEvent::Instr(_) => EventKind::Instr,
            QemuEvent::MemAccess(_) => EventKind::MemAccess,
            QemuEvent::Syscall(_) => EventKind::Syscall,
            QemuEvent::Load(_) => EventKind::Load,
        }
    }

    /// Whether the event is one that may be emitted: an instruction has a
    /// size that an opcode can have.
    pub open spec fn wf(self) -> bool {
        match self {
            QemuEvent::Instr(e) => e.wf(),
            _ => true,
        }
    }

    /// The event as it is written: an instruction with a size that an
    /// opcode can have, any other event as it is.
    pub open spec fn spec_emitted(self) -> QemuEvent {
        match self {
            QemuEvent::Instr(e) => QemuEvent::Instr(e.spec_emitted()),
            _ => self,
        }
    }

    /// The bytes of the event's fields on the wire.
    pub open spec fn wire(self) -> Seq<u8> {
        match self {
            QemuEvent::Pc(e) => e.wire(),
            QemuEvent::Instr(e) => e.wire(),
            QemuEvent::MemAccess(e) => e.wire(),
            QemuEvent::Syscall(e) => e.wire(),
            QemuEvent::Load(e) => e.wire(),
        }
    }

    /// The event of kind `kind` whose fields `s` starts with.
    pub open spec fn parse(kind: EventKind, s: Seq<u8>) -> QemuEvent {
        match kind {
            EventKind::Pc => QemuEvent::Pc(QemuPc::parse(s)),
            EventKind::Instr => QemuEvent::Instr(QemuInstr::parse(s)),
            EventKind::MemAccess => QemuEvent::MemAccess(QemuMemAccess::parse(s)),
            EventKind::Syscall => QemuEvent::Syscall(QemuSyscall::parse(s)),
            EventKind::Load => QemuEvent::Load(QemuLoad::parse(s)),
        }
    }

    /// The kind of the event.
    pub fn kind(&self) -> (r: EventKind)
        ensures
            r == self.spec_kind(),
    {
        match self {
            QemuEvent::Pc(_) => EventKind::Pc,
            QemuEvent::Instr(_) => EventKind::Instr,
            QemuEvent::MemAccess(_) => EventKind::MemAccess,
            QemuEvent::Syscall(_) => EventKind::Syscall,
            QemuEvent::Load(_) => EventKind::Load,
        }
    }

    /// The event as it is written.
    pub fn emitted(self) -> (r: QemuEvent)
        ensures
            r == self.spec_emitted(),
            r.wf(),
            r.spec_kind() == self.spec_kind(),
    {
        match self {
            QemuEvent::Instr(e) => QemuEvent::Instr(QemuInstr::new(e.opcode, e.opcode_size)),
            _ => self,
        }
    }

    /// Whether the event may be emitted.
    pub fn is_wf(&self) -> (r: bool)
        ensures
            r == self.wf(),
    {
        match self {
            QemuEvent::Instr(e) => e.is_wf(),
            _ => true,
        }
    }
}

/// One frame: the flag word and the event it announces.
#[derive(Clone, Copy, Debug, PartialEq, Eq)]
pub struct QemuEventMsg {
    /// The flags; among the kind bits, the one of the event's kind.
    pub flags: EventFlags,
    /// The event.
    pub event: QemuEvent,
}

impl QemuEventMsg {
    /// Whether the frame is one that may be emitted: only meaningful flag
    /// bits are set, among the kind bits exactly the one of the event's
    /// kind, and the event itself may be emitted.
    pub open spec fn wf(self) -> bool {
        &&& self.flags.wf()
        &&& self.flags.bits & KIND_BITS == self.event.spec_kind().spec_bit()
        &&& self.event.wf()
    }

    /// The frame that holds `event` as it is written and, besides its kind
    /// bit, the bits of `state` that are no kind bits.
    pub open spec fn spec_of_event(event: QemuEvent, state: EventFlags) -> QemuEventMsg {
        QemuEventMsg {
            flags: EventFlags {
                bits: (state.bits & ALL_BITS & !KIND_BITS) | event.spec_kind().spec_bit(),
            },
            event: event.spec_emitted(),
        }
    }

    /// The frame as it is written: with the kind bit of its event and no
    /// other, with the state bits of its flags, and with its event as that
    /// is written. A frame that may be emitted is written as it is.
    pub open spec fn spec_emitted(self) -> QemuEventMsg {
        QemuEventMsg::spec_of_event(self.event, self.flags)
    }

    pub fn new(flags: EventFlags, event: QemuEvent) -> (r: QemuEventMsg)
        ensures
            r == (QemuEventMsg { flags, event }),
    {
        QemuEventMsg { flags, event }
    }

    /// The frame for `event`: its kind bit, and of `state` the bits that
    /// name no kind (whether the emulator has finished, and the like).
    pub fn of_event(event: QemuEvent, state: EventFlags) -> (r: QemuEventMsg)
        ensures
            r == QemuEventMsg::spec_of_event(event, state),
            r.wf(),
    {
        let k = event.kind().bit();
        let sb = state.bits;
        let bits = (sb & ALL_BITS & !KIND_BITS) | k;
        assert((k == 0x001 || k == 0x008 || k == 0x002 || k == 0x010 || k == 0x100) && bits == (sb
            & 0x1fbu32 & !0x11bu32) | k ==> bits & !0x1fbu32 == 0 && bits & 0x11bu32 == k)
            by (bit_vector);
        QemuEventMsg { flags: EventFlags { bits }, event: event.emitted() }
    }

    /// The frame as it is written.
    pub fn emitted(&self) -> (r: QemuEventMsg)
        ensures
            r == self.spec_emitted(),
            r.wf(),
    {
        QemuEventMsg::of_event(self.event, self.flags)
    }

    /// Whether the frame may be emitted.
    pub fn is_wf(&self) -> (r: bool)
        ensures
            r == self.wf(),
    {
        self.flags.bits & !ALL_BITS == 0 && self.flags.bits & KIND_BITS == self.event.kind().bit()
            && self.event.is_wf()
    }

    /// Whether the frame says that the emulator has finished.
    pub fn is_finished(&self) -> (r: bool)
        ensures
            r == (self.flags.bits & FINISHED == FINISHED),
    {
        self.flags.bits & FINISHED == FINISHED
    }
}

/// What is written for a frame may be emitted, whatever the frame was; a
/// frame that may be emitted is written as it is; and the state bits of a
/// frame are written as they are.
pub proof fn lemma_emitted(msg: QemuEventMsg)
    ensures
        msg.spec_emitted().wf(),
        msg.wf() ==> msg.spec_emitted() == msg,
        msg.spec_emitted().spec_emitted() == msg.spec_emitted(),
        msg.spec_emitted().wire() == msg.wire(),
        msg.spec_emitted().event.spec_kind() == msg.event.spec_kind(),
        msg.spec_emitted().flags.bits & FINISHED == msg.flags.bits & FINISHED,
{
    let f = msg.flags.bits;
    let k = msg.event.spec_kind().spec_bit();
    let c = (f & ALL_BITS & !KIND_BITS) | k;
    assert((k == 0x001 || k == 0x008 || k == 0x002 || k == 0x010 || k == 0x100) && c == (f
        & 0x1fbu32 & !0x11bu32) | k ==> c & !0x1fbu32 == 0 && c & 0x11bu32 == k && (c & 0x1fbu32
        & !0x11bu32) | k == c && c & 0x080 == f & 0x080 && (f & !0x1fbu32 == 0 && f & 0x11bu32
        == k ==> c == f)) by (bit_vector);
}

impl ToBytes for QemuEventMsg {
    /// The flag word, then the fields of the event. The flag word that is
    /// written holds the kind bit of the event and no other, whatever the
    /// kind bits of `flags` say, and no bit without a meaning.
    open spec fn wire(&self) -> Seq<u8> {
        be_u32(self.spec_emitted().flags.bits) + self.event.wire()
    }

    fn to_bytes(&self, bytes: &mut BytesMut)
        ensures
            buffered(*final(bytes)) == buffered(*old(bytes)) + self.spec_emitted().wire(),
            buffered(*final(bytes)).len() == buffered(*old(bytes)).len() + 4
                + self.event.spec_kind().spec_payload_len(),
            self.spec_emitted().wf(),
    {
        proof {
            lemma_emitted(*self);
            if let QemuEvent::Syscall(e) = self.event {
                lemma_be_u64s_round_trip(e.args@, Seq::<u8>::empty());
            }
        }
        let head = QemuEventMsg::of_event(self.event, self.flags);
        put_u32(bytes, head.flags.bits());
        match &self.event {
            QemuEvent::Pc(event) => event.to_bytes(bytes),
            QemuEvent::Instr(event) => event.to_bytes(bytes),
            QemuEvent::MemAccess(event) => event.to_bytes(bytes),
            QemuEvent::Syscall(event) => event.to_bytes(bytes),
            QemuEvent::Load(event) => event.to_bytes(bytes),
        }
        assert(buffered(*bytes) == buffered(*old(bytes)) + self.wire());
    }
}

impl FromBytes for QemuEventMsg {
    /// A frame can be read where the flag word is there, names a kind, and
    /// all the fields of an event of that kind follow.
    open spec fn readable(s: Seq<u8>) -> bool {
        &&& s.len() >= 4
        &&& EventKind::spec_of_bits(u32_of_be(s) & ALL_BITS) matches Some(kind)
        &&& s.len() >= 4 + kind.spec_payload_len()
    }

    open spec fn parsed_len(s: Seq<u8>) -> nat {
        match EventKind::spec_of_bits(u32_of_be(s) & ALL_BITS) {
            Some(kind) => 4 + kind.spec_payload_len(),
            None => 4,
        }
    }

    /// The frame at the front of `s`: the event of the kind that the flag
    /// word names, with that kind's bit and the state bits of the flag
    /// word. Where the word has the bits of several kinds, the first of
    /// them in the order program counter, instruction, memory access,
    /// syscall, load is meant. Where it names none, the bytes are no frame,
    /// and what is said of them here means nothing.
    open spec fn parse(s: Seq<u8>) -> QemuEventMsg {
        let flags = EventFlags::spec_from_bits_truncate(u32_of_be(s));
        match EventKind::spec_of_bits(flags.bits) {
            Some(kind) => QemuEventMsg::spec_of_event(QemuEvent::parse(kind, s.skip(4)), flags),
            None => QemuEventMsg::spec_of_event(QemuEvent::Pc(QemuPc::parse(s.skip(4))), flags),
        }
    }

    fn from_bytes(bytes: &mut BytesMut) -> (r: QemuEventMsg)
        ensures
            r.wf(),
    {
        let ghost start = buffered(*bytes);
        let flags = EventFlags::from_bits_truncate(get_u32(bytes));
        let kind = EventKind::of_flags(flags);
        let event = match kind {
            Some(EventKind::Instr) => QemuEvent::Instr(QemuInstr::from_bytes(bytes)),
            Some(EventKind::MemAccess) => QemuEvent::MemAccess(QemuMemAccess::from_bytes(bytes)),
            Some(EventKind::Syscall) => QemuEvent::Syscall(QemuSyscall::from_bytes(bytes)),
            Some(EventKind::Load) => QemuEvent::Load(QemuLoad::from_bytes(bytes)),
            _ => QemuEvent::Pc(QemuPc::from_bytes(bytes)),
        };
        assert(buffered(*bytes) == start.skip(QemuEventMsg::parsed_len(start) as int));
        QemuEventMsg::of_event(event, flags)
    }
}

} // verus!
