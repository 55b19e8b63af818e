//! Random values: the suffix of a fresh socket name, and events with
//! arbitrary contents for trying out the transport under load.
//!
//! The random numbers come from the `rand` crate. Nothing is known of a
//! random value but the range it was drawn from.

use crate::qemu_event::{
    EventFlags, QemuEvent, QemuEventMsg, QemuInstr, QemuLoad, QemuMemAccess, QemuPc, QemuSyscall,
};
use rand::Rng;
use vstd::prelude::*;

verus! {

/// Whether `c` is an ASCII letter or digit.
pub open spec fn is_alphanumeric(c: char) -> bool {
    ('a' <= c <= 'z') || ('A' <= c <= 'Z') || ('0' <= c <= '9')
}

/// `Rng::gen::<u64>` on the thread's generator: any 64-bit number.
#[verifier::external_body]
pub(crate) fn random_u64() -> u64 {
    rand::thread_rng().gen()
}

/// `Rng::gen::<u8>` on the thread's generator: any byte.
#[verifier::external_body]
pub(crate) fn random_u8() -> u8 {
    rand::thread_rng().gen()
}

/// `Rng::gen::<bool>` on the thread's generator: either truth value.
#[verifier::external_body]
pub(crate) fn random_bool() -> bool {
    rand::thread_rng().gen()
}

/// `Rng::gen_range` on the thread's generator, for the range from `low` up
/// to but not including `high`: a number of that range. It panics on an
/// empty range, which the precondition leaves out.
#[verifier::external_body]
pub(crate) fn random_in(low: u64, high: u64) -> (r: u64)
    requires
        low < high,
    ensures
        low <= r < high,
{
    rand::thread_rng().gen_range(low..high)
}

/// `Rng::sample` with the distribution `Alphanumeric` on the thread's
/// generator: an ASCII letter or digit.
#[verifier::external_body]
pub(crate) fn random_alphanumeric() -> (c: char)
    ensures
        is_alphanumeric(c),
{
    char::from(rand::thread_rng().sample(rand::distributions::Alphanumeric))
}

/// `String::push`: appends one character.
#[verifier::external_body]
pub(crate) fn push_char(s: &mut String, c: char)
    ensures
        final(s)@ == old(s)@.push(c),
{
    s.push(c)
}

/// A string of `len` random ASCII letters and digits.
pub fn random_name(len: usize) -> (r: String)
    ensures
        r@.len() == len,
        forall|i: int| 0 <= i < len ==> is_alphanumeric(#[trigger] r@[i]),
{
    let mut name = String::new();
    let mut i: usize = 0;
    while i < len
        invariant
            i <= len,
            name@.len() == i,
            forall|j: int| 0 <= j < i ==> is_alphanumeric(#[trigger] name@[j]),
        decreases len - i,
    {
        let c = random_alphanumeric();
        push_char(&mut name, c);
        i += 1;
    }
    name
}

impl QemuPc {
    /// A program counter event with arbitrary contents.
    pub fn new_random() -> QemuPc {
        QemuPc::new(random_u64(), random_bool())
    }
}

impl QemuInstr {
    /// An instruction event with arbitrary opcode bytes and a size from 1
    /// to 15.
    pub fn new_random() -> (r: QemuInstr)
        ensures
            1 <= r.opcode_size < 16,
            r.wf(),
    {
        let mut opcode = [0u8; 16];
        let mut i: usize = 0;
        while i < 16
            invariant
                i <= 16,
            decreases 16 - i,
        {
            opcode[i] = random_u8();
            i += 1;
        }
        QemuInstr::new(opcode, random_in(1, 16) as usize)
    }
}

impl QemuMemAccess {
    /// A memory access event with arbitrary contents.
    pub fn new_random() -> (r: QemuMemAccess)
        ensures
            r.addr < u64::MAX,
    {
        QemuMemAccess::new(random_u64(), random_in(0, u64::MAX), random_bool())
    }
}

impl QemuSyscall {
    /// A syscall event with an arbitrary number and result, neither
    /// negative, and arbitrary arguments. Every number is drawn from a
    /// range that leaves out the largest value of its type.
    pub fn new_random() -> (r: QemuSyscall)
        ensures
            0 <= r.num < i64::MAX,
            0 <= r.rv < i64::MAX,
            forall|j: int| 0 <= j < 8 ==> (#[trigger] r.args[j]) < u64::MAX,
    {
        let mut args = [0u64; 8];
        let mut i: usize = 0;
        while i < 8
            invariant
                i <= 8,
                forall|j: int| 0 <= j < i ==> (#[trigger] args[j]) < u64::MAX,
            decreases 8 - i,
        {
            args[i] = random_in(0, u64::MAX);
            i += 1;
        }
        let num = random_in(0, 0x7fff_ffff_ffff_ffff) as i64;
        let rv = random_in(0, 0x7fff_ffff_ffff_ffff) as i64;
        QemuSyscall::new(num, rv, args)
    }
}

impl QemuLoad {
    /// A load event with arbitrary contents.
    pub fn new_random() -> (r: QemuLoad)
        ensures
            r.min < u64::MAX,
            r.max < u64::MAX,
            r.entry < u64::MAX,
            r.prot < u8::MAX,
    {
        QemuLoad::new(
            random_in(0, u64::MAX),
            random_in(0, u64::MAX),
            random_in(0, u64::MAX),
            random_in(0, 255) as u8,
        )
    }
}

impl QemuEventMsg {
    /// A frame of an arbitrary kind with arbitrary contents: the event is
    /// what the random constructor of its kind gives. Its flags are
    /// arbitrary too and need not fit the event; the encoder writes the
    /// kind bit of the event whatever they say.
    pub fn new_random() -> (r: QemuEventMsg)
        ensures
            r.flags.wf(),
            r.event.wf(),
            r.event matches QemuEvent::Instr(e) ==> 1 <= e.opcode_size < 16,
            r.event matches QemuEvent::MemAccess(e) ==> e.addr < u64::MAX,
            r.event matches QemuEvent::Syscall(e) ==> 0 <= e.num < i64::MAX && 0 <= e.rv
                < i64::MAX && forall|j: int| 0 <= j < 8 ==> (#[trigger] e.args[j]) < u64::MAX,
            r.event matches QemuEvent::Load(e) ==> e.min < u64::MAX && e.max < u64::MAX && e.entry
                < u64::MAX && e.prot < u8::MAX,
    {
        let flags = EventFlags::from_bits_truncate(random_in(0, 0xffff_ffff) as u32);
        let event = match random_in(0, 5) {
            0 => QemuEvent::Pc(QemuPc::new_random()),
            1 => QemuEvent::Instr(QemuInstr::new_random()),
            2 => QemuEvent::MemAccess(QemuMemAccess::new_random()),
            3 => QemuEvent::Syscall(QemuSyscall::new_random()),
            _ => QemuEvent::Load(QemuLoad::new_random()),
        };
        QemuEventMsg::new(flags, event)
    }
}

} // verus!
