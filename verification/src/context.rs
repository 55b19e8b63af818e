//! The state of a tracing plugin and what it does on each callback of the
//! host.
//!
//! The host calls a plugin when it translates a block of instructions, when
//! an instrumented instruction runs or touches memory, and when a system
//! call is entered or left. Each handler here takes what the host passed as
//! plain values, updates the state, and hands back the frames to emit or
//! the callbacks to register. Handing them to the host and to the event
//! queue is left to the caller, after it has let go of the state.

use crate::args::{ArgValue, Args, QEMUArg};
use crate::qemu_event::{
    lemma_opcode_of, opcode_of, EventFlags, QemuEvent, QemuEventMsg, QemuInstr, QemuLoad,
    QemuMemAccess, QemuPc, QemuSyscall, FINISHED, LOAD, MAX_OPCODE_SIZE,
};
use crate::ring::{InsnEvent, InsnRing, RingState, DEFAULT_WINDOW};
use crate::syscalls::{OpenSyscall, SyscallTable};
use vstd::prelude::*;

verus! {

/// Which kinds of event a plugin traces.
#[derive(Clone, Copy, Debug, PartialEq, Eq, Structural)]
pub struct TraceOptions {
    /// The program counter of every executed instruction.
    pub pc: bool,
    /// The opcode of every executed instruction.
    pub instrs: bool,
    /// Loads and stores.
    pub mem: bool,
    /// System calls.
    pub syscalls: bool,
    /// The program counter of the last instruction of each block, where the
    /// program counter is not traced for all.
    pub branches: bool,
}

/// Whether the arguments switch on the option named `key`.
pub open spec fn is_on(args: Map<Seq<char>, ArgValue>, key: Seq<char>) -> bool {
    args.contains_key(key) && args[key] == ArgValue::Bool(true)
}

/// The string that the arguments give for `key`, if they give one.
pub open spec fn text_of(args: Map<Seq<char>, ArgValue>, key: Seq<char>) -> Option<Seq<char>> {
    if args.contains_key(key) && args[key] is Str {
        Some(args[key]->Str_0)
    } else {
        None
    }
}

impl TraceOptions {
    /// The options that the arguments ask for. Each option has more than
    /// one name and is on where any of its names is set to true.
    pub open spec fn spec_from_args(args: Map<Seq<char>, ArgValue>) -> TraceOptions {
        TraceOptions {
            pc: is_on(args, "trace_pc"@) || is_on(args, "log_pc"@),
            instrs: is_on(args, "trace_instrs"@) || is_on(args, "log_opcode"@),
            mem: is_on(args, "trace_reads"@) || is_on(args, "trace_writes"@) || is_on(
                args,
                "log_mem"@,
            ),
            syscalls: is_on(args, "trace_syscalls"@) || is_on(args, "log_syscall"@),
            branches: is_on(args, "trace_branches"@) || is_on(args, "log_branch"@),
        }
    }

    /// The flags that stand for the options.
    pub open spec fn spec_flags(self) -> u32 {
        EventFlags::spec_from(self.pc, self.instrs, self.mem, self.syscalls, self.branches)
    }

    /// No option switched on.
    pub open spec fn spec_none() -> TraceOptions {
        TraceOptions { pc: false, instrs: false, mem: false, syscalls: false, branches: false }
    }

    /// No option switched on.
    pub fn none() -> (r: TraceOptions)
        ensures
            r == TraceOptions::spec_none(),
    {
        TraceOptions { pc: false, instrs: false, mem: false, syscalls: false, branches: false }
    }

    /// The options that the arguments ask for.
    pub fn from_args(args: &Args) -> (r: TraceOptions)
        ensures
            r == TraceOptions::spec_from_args(args@),
    {
        TraceOptions {
            pc: flag(args, "trace_pc") || flag(args, "log_pc"),
            instrs: flag(args, "trace_instrs") || flag(args, "log_opcode"),
            mem: flag(args, "trace_reads") || flag(args, "trace_writes") || flag(args, "log_mem"),
            syscalls: flag(args, "trace_syscalls") || flag(args, "log_syscall"),
            branches: flag(args, "trace_branches") || flag(args, "log_branch"),
        }
    }

    /// The flags that stand for the options.
    pub fn flags(&self) -> (r: EventFlags)
        ensures
            r.bits == self.spec_flags(),
            r.wf(),
    {
        EventFlags::from(self.pc, self.instrs, self.mem, self.syscalls, self.branches)
    }

    /// The index of the first instruction of a block of `n` instructions
    /// that gets callbacks: every instruction where the program counter or
    /// memory is traced, the last one alone where only branches are, none
    /// otherwise.
    pub open spec fn spec_first_instrumented(self, n: nat) -> nat {
        if self.pc || self.mem {
            0
        } else if self.branches && n > 0 {
            (n - 1) as nat
        } else {
            n
        }
    }

    /// The index of the first instruction of a block of `n` instructions
    /// that gets callbacks.
    pub fn first_instrumented(&self, n: usize) -> (r: usize)
        ensures
            r == self.spec_first_instrumented(n as nat),
            r <= n,
    {
        if self.pc || self.mem {
            0
        } else if self.branches && n > 0 {
            n - 1
        } else {
            n
        }
    }
}

fn flag(args: &Args, key: &str) -> (r: bool)
    ensures
        r == is_on(args@, key@),
{
    match args.get_bool(key) {
        Some(b) => b,
        None => false,
    }
}

/// The path of the socket that the arguments name, under either of its two
/// keys; the first of them wins.
pub fn socket_path(args: &Args) -> (r: Option<String>)
    ensures
        match r {
            Some(path) => Some(path@) == (match text_of(args@, "sock_path"@) {
                Some(p) => Some(p),
                None => text_of(args@, "socket_path"@),
            }),
            None => text_of(args@, "sock_path"@).is_none() && text_of(
                args@,
                "socket_path"@,
            ).is_none(),
        },
{
    match args.get("sock_path") {
        Some(QEMUArg::Str(path)) => Some(path.clone()),
        _ => match args.get("socket_path") {
            Some(QEMUArg::Str(path)) => Some(path.clone()),
            _ => None,
        },
    }
}

/// The first bytes of an opcode as an instruction event holds them: at
/// most sixteen, the rest of the field filled with zeros.
pub open spec fn padded(bytes: Seq<u8>) -> Seq<u8> {
    Seq::new(
        16,
        |i: int|
            if i < bytes.len() {
                bytes[i]
            } else {
                0u8
            },
    )
}

/// The instruction event that captures the opcode `bytes`.
pub open spec fn spec_capture(bytes: Seq<u8>) -> QemuInstr {
    QemuInstr {
        opcode: opcode_of(padded(bytes)),
        opcode_size: if bytes.len() < 16 {
            bytes.len() as usize
        } else {
            16
        },
    }
}

/// Captures an opcode for an instruction event.
pub fn capture_opcode(bytes: &[u8]) -> (r: QemuInstr)
    ensures
        r == spec_capture(bytes@),
        r.opcode@ == padded(bytes@),
        r.wf(),
{
    let mut opcode = [0u8; 16];
    let size: usize = if bytes.len() < MAX_OPCODE_SIZE {
        bytes.len()
    } else {
        MAX_OPCODE_SIZE
    };
    let mut i: usize = 0;
    while i < size
        invariant
            i <= size <= 16,
            size <= bytes@.len(),
            forall|j: int| 0 <= j < i ==> opcode@[j] == bytes@[j],
            forall|j: int| i <= j < 16 ==> opcode@[j] == 0,
        decreases size - i,
    {
        opcode[i] = bytes[i];
        i += 1;
    }
    proof {
        assert(opcode@ =~= padded(bytes@));
        lemma_opcode_of(opcode);
    }
    QemuInstr { opcode, opcode_size: size }
}

/// One instruction of a translated block, as the host describes it.
pub struct TranslatedInsn {
    /// The address of the instruction.
    pub vaddr: u64,
    /// The opcode bytes.
    pub opcode: Vec<u8>,
}

/// The callbacks to register for one instruction of a translated block.
#[derive(Clone, Copy, Debug, PartialEq, Eq)]
pub struct InsnRegistration {
    /// The index of the instruction in its block.
    pub index: usize,
    /// The key to bind to the execution callback.
    pub exec_key: u64,
    /// The key to bind to the memory callback, where memory is traced.
    pub mem_key: Option<u64>,
}

/// What a plugin keeps between callbacks.
pub struct ContextState {
    /// The arguments, once the plugin is installed.
    pub args: Option<Map<Seq<char>, ArgValue>>,
    /// What is traced.
    pub options: TraceOptions,
    /// The open system calls, by plugin and processor.
    pub syscalls: Map<(u64, u32), OpenSyscall>,
    /// The instruction ring.
    pub ring: RingState,
}

/// The frame of a single event: its kind bit and no other flag.
pub open spec fn frame_of(event: QemuEvent) -> QemuEventMsg {
    QemuEventMsg::spec_of_event(event, EventFlags { bits: 0 })
}

/// What is kept of an instruction when it is translated: its address,
/// whether it ends its block, and its opcode where opcodes are traced.
pub open spec fn insn_event(options: TraceOptions, vaddr: u64, opcode: Seq<u8>, last: bool)
    -> InsnEvent {
    InsnEvent {
        pc: vaddr,
        opcode: if options.instrs {
            Some(spec_capture(opcode))
        } else {
            None
        },
        branch: last,
    }
}

/// The ring after one instruction was translated: one key issued, or two
/// where memory is traced, both for the same event.
pub open spec fn ring_after_insn(ring: RingState, options: TraceOptions, event: InsnEvent)
    -> RingState {
    if options.mem {
        ring.issue(event).issue(event)
    } else {
        ring.issue(event)
    }
}

/// A translated block as plain values: the address and the opcode bytes of
/// each instruction.
pub open spec fn block_view(tb: Seq<TranslatedInsn>) -> Seq<(u64, Seq<u8>)> {
    tb.map_values(|insn: TranslatedInsn| (insn.vaddr, insn.opcode@))
}

/// The ring after the instrumented instructions of a block before index
/// `to` were translated.
pub open spec fn ring_after_block(
    ring: RingState,
    options: TraceOptions,
    block: Seq<(u64, Seq<u8>)>,
    to: int,
) -> RingState
    decreases to,
{
    if to <= options.spec_first_instrumented(block.len()) || to <= 0 {
        ring
    } else {
        ring_after_insn(
            ring_after_block(ring, options, block, to - 1),
            options,
            insn_event(options, block[to - 1].0, block[to - 1].1, to == block.len()),
        )
    }
}

/// The callbacks to register for the `j`-th instrumented instruction of a
/// block: the execution key is the one the ring issues next at that point,
/// the memory key the one after it.
pub open spec fn registration(
    ring: RingState,
    options: TraceOptions,
    block: Seq<(u64, Seq<u8>)>,
    j: int,
) -> InsnRegistration {
    let index = options.spec_first_instrumented(block.len()) + j;
    let exec_key = ring_after_block(ring, options, block, index).next;
    InsnRegistration {
        index: index as usize,
        exec_key,
        mem_key: if options.mem {
            Some(vstd::wrapping::u64_specs::wrapping_add(exec_key, 1))
        } else {
            None
        },
    }
}

/// The frames that the execution of an instrumented instruction gives: its
/// program counter where that is traced, or where branches are and the
/// instruction ends its block; then its opcode where opcodes were captured.
pub open spec fn exec_frames(options: TraceOptions, insn: InsnEvent) -> Seq<QemuEventMsg> {
    let pc = if options.pc || (options.branches && insn.branch) {
        seq![frame_of(QemuEvent::Pc(QemuPc { pc: insn.pc, branch: insn.branch }))]
    } else {
        Seq::<QemuEventMsg>::empty()
    };
    match insn.opcode {
        Some(instr) => pc.push(frame_of(QemuEvent::Instr(instr))),
        None => pc,
    }
}

/// The frame that a memory access of an instrumented instruction gives.
pub open spec fn mem_frame(insn: InsnEvent, addr: u64, is_write: bool) -> QemuEventMsg {
    frame_of(QemuEvent::MemAccess(QemuMemAccess { pc: insn.pc, addr, is_write }))
}

/// The frame that ends a trace. It says that the emulator has finished,
/// and it carries the load of an empty region, so that it adds no
/// instruction, access or system call to the trace.
pub open spec fn final_frame() -> QemuEventMsg {
    QemuEventMsg {
        flags: EventFlags { bits: LOAD | FINISHED },
        event: QemuEvent::Load(QemuLoad { min: 0, max: 0, entry: 0, prot: 0 }),
    }
}

/// The state of a tracing plugin.
pub struct Context {
    /// The arguments of the plugin, once it is installed.
    pub args: Option<Args>,
    /// What is traced.
    pub options: TraceOptions,
    /// The system calls that have been entered and have not returned.
    pub syscalls: SyscallTable,
    /// The instructions that were translated and have not run.
    pub insns: InsnRing,
}

impl View for Context {
    type V = ContextState;

    open spec fn view(&self) -> ContextState {
        ContextState {
            args: match self.args {
                Some(args) => Some(args@),
                None => None,
            },
            options: self.options,
            syscalls: self.syscalls@,
            ring: self.insns@,
        }
    }
}

impl Context {
    /// A fresh state: no arguments yet, nothing traced, nothing open, an
    /// empty ring.
    pub fn new() -> (r: Context)
        ensures
            r@.args.is_none(),
            r@.options == TraceOptions::spec_none(),
            r@.syscalls == Map::<(u64, u32), OpenSyscall>::empty(),
            r@.ring.entries == Map::<u64, InsnEvent>::empty(),
            r@.ring.next == 0,
            r@.ring.window == DEFAULT_WINDOW,
            r@.ring.wf(),
    {
        Context {
            args: None,
            options: TraceOptions::none(),
            syscalls: SyscallTable::new(),
            insns: InsnRing::new(),
        }
    }

    /// Keeps the plugin's arguments and takes the options from them. This
    /// is what a plugin does when the host installs it.
    pub fn configure(&mut self, args: Args)
        ensures
            final(self).args == Some(args),
            final(self)@.args == Some(args@),
            final(self)@.options == TraceOptions::spec_from_args(args@),
            final(self)@.syscalls == old(self)@.syscalls,
            final(self)@.ring == old(self)@.ring,
    {
        self.options = TraceOptions::from_args(&args);
        self.args = Some(args);
    }

    /// An instruction was translated: a key is issued for its execution
    /// callback and, where memory is traced, a second one for its memory
    /// callback. Both entries hold the same partial event.
    pub fn on_insn_trans(&mut self, index: usize, insn: &TranslatedInsn, last: bool) -> (r:
        InsnRegistration)
        ensures
            r.index == index,
            r.exec_key == old(self)@.ring.next,
            r.mem_key == (if old(self)@.options.mem {
                Some(vstd::wrapping::u64_specs::wrapping_add(r.exec_key, 1))
            } else {
                None
            }),
            final(self).args == old(self).args,
            final(self)@.args == old(self)@.args,
            final(self)@.options == old(self)@.options,
            final(self)@.syscalls == old(self)@.syscalls,
            final(self)@.ring == ring_after_insn(
                old(self)@.ring,
                old(self)@.options,
                insn_event(old(self)@.options, insn.vaddr, insn.opcode@, last),
            ),
    {
        let opcode = if self.options.instrs {
            Some(capture_opcode(insn.opcode.as_slice()))
        } else {
            None
        };
        let event = InsnEvent { pc: insn.vaddr, opcode, branch: last };
        let exec_key = self.insns.issue(event);
        let mem_key = if self.options.mem {
            Some(self.insns.issue(event))
        } else {
            None
        };
        InsnRegistration { index, exec_key, mem_key }
    }

    /// A block of instructions was translated: every instruction from the
    /// first instrumented one on gets its keys, in the order of the block.
    /// The result lists the callbacks to register with the host.
    pub fn on_tb_trans(&mut self, tb: &Vec<TranslatedInsn>) -> (r: Vec<InsnRegistration>)
        ensures
            final(self).args == old(self).args,
            final(self)@.args == old(self)@.args,
            final(self)@.options == old(self)@.options,
            final(self)@.syscalls == old(self)@.syscalls,
            r@.len() == tb@.len() - old(self)@.options.spec_first_instrumented(tb@.len()),
            forall|j: int|
                0 <= j < r@.len() ==> (#[trigger] r@[j]) == registration(
                    old(self)@.ring,
                    old(self)@.options,
                    block_view(tb@),
                    j,
                ),
            final(self)@.ring == ring_after_block(
                old(self)@.ring,
                old(self)@.options,
                block_view(tb@),
                tb@.len() as int,
            ),
    {
        let n = tb.len();
        let first = self.options.first_instrumented(n);
        let ghost ring0 = self@.ring;
        let ghost options = self@.options;
        let ghost block = block_view(tb@);
        let mut regs: Vec<InsnRegistration> = Vec::new();
        let mut i: usize = first;
        while i < n
            invariant
                first <= i <= n,
                n == tb@.len(),
                first == options.spec_first_instrumented(n as nat),
                block == block_view(tb@),
                self.args == old(self).args,
                self@.args == old(self)@.args,
                self@.options == options,
                self@.syscalls == old(self)@.syscalls,
                self@.ring == ring_after_block(ring0, options, block, i as int),
                regs@.len() == i - first,
                forall|j: int|
                    0 <= j < regs@.len() ==> (#[trigger] regs@[j]) == registration(
                        ring0,
                        options,
                        block,
                        j,
                    ),
            decreases n - i,
        {
            let reg = self.on_insn_trans(i, &tb[i], i + 1 == n);
            assert(block[i as int] == (tb@[i as int].vaddr, tb@[i as int].opcode@));
            regs.push(reg);
            i += 1;
        }
        regs
    }

    /// An instrumented instruction ran: its entry leaves the ring and gives
    /// its frames. A key without an entry gives nothing.
    pub fn on_insn_exec(&mut self, key: u64) -> (r: Vec<QemuEventMsg>)
        ensures
            r@ == (if old(self)@.ring.entries.contains_key(key) {
                exec_frames(old(self)@.options, old(self)@.ring.entries[key])
            } else {
                Seq::<QemuEventMsg>::empty()
            }),
            forall|i: int| 0 <= i < r@.len() ==> (#[trigger] r@[i]).wf(),
            final(self)@.ring == old(self)@.ring.take(key),
            final(self).args == old(self).args,
            final(self)@.args == old(self)@.args,
            final(self)@.options == old(self)@.options,
            final(self)@.syscalls == old(self)@.syscalls,
    {
        let mut frames: Vec<QemuEventMsg> = Vec::new();
        match self.insns.take(key) {
            Some(insn) => {
                if self.options.pc || (self.options.branches && insn.branch) {
                    frames.push(
                        QemuEventMsg::of_event(
                            QemuEvent::Pc(QemuPc { pc: insn.pc, branch: insn.branch }),
                            EventFlags::empty(),
                        ),
                    );
                }
                match insn.opcode {
                    Some(instr) => {
                        frames.push(
                            QemuEventMsg::of_event(QemuEvent::Instr(instr), EventFlags::empty()),
                        );
                    },
                    None => {},
                }
                assert(frames@ =~= exec_frames(self.options, insn));
            },
            None => {},
        }
        frames
    }

    /// An instrumented instruction touched memory: the entry of its memory
    /// key leaves the ring and gives a memory frame with the instruction's
    /// address. A key without an entry gives nothing.
    pub fn on_mem_access(&mut self, key: u64, addr: u64, is_write: bool) -> (r: Option<
        QemuEventMsg,
    >)
        ensures
            r == (if old(self)@.ring.entries.contains_key(key) {
                Some(mem_frame(old(self)@.ring.entries[key], addr, is_write))
            } else {
                None
            }),
            r matches Some(frame) ==> frame.wf(),
            final(self)@.ring == old(self)@.ring.take(key),
            final(self).args == old(self).args,
            final(self)@.args == old(self)@.args,
            final(self)@.options == old(self)@.options,
            final(self)@.syscalls == old(self)@.syscalls,
    {
        match self.insns.take(key) {
            Some(insn) => Some(
                QemuEventMsg::of_event(
                    QemuEvent::MemAccess(QemuMemAccess { pc: insn.pc, addr, is_write }),
                    EventFlags::empty(),
                ),
            ),
            None => None,
        }
    }

    /// A system call was entered: where system calls are traced, its number
    /// and arguments are kept until it returns.
    pub fn on_syscall(&mut self, id: u64, vcpu: u32, num: i64, args: [u64; 8])
        ensures
            final(self)@.syscalls == (if old(self)@.options.syscalls {
                old(self)@.syscalls.insert((id, vcpu), OpenSyscall { num, args })
            } else {
                old(self)@.syscalls
            }),
            final(self).args == old(self).args,
            final(self)@.args == old(self)@.args,
            final(self)@.options == old(self)@.options,
            final(self)@.ring == old(self)@.ring,
    {
        if self.options.syscalls {
            self.syscalls.enter(id, vcpu, num, args);
        }
    }

    /// A system call returned: where system calls are traced and the call
    /// was seen on entry, the entry is closed and gives a syscall frame with
    /// the number and arguments of the entry and the result. Without an
    /// entry no frame is given.
    pub fn on_syscall_ret(&mut self, id: u64, vcpu: u32, rv: i64) -> (r: Option<QemuEventMsg>)
        ensures
            r == (if old(self)@.options.syscalls && old(self)@.syscalls.contains_key((id, vcpu)) {
                Some(
                    frame_of(
                        QemuEvent::Syscall(
                            QemuSyscall {
                                num: old(self)@.syscalls[(id, vcpu)].num,
                                rv,
                                args: old(self)@.syscalls[(id, vcpu)].args,
                            },
                        ),
                    ),
                )
            } else {
                None
            }),
            r matches Some(frame) ==> frame.wf(),
            final(self)@.syscalls == (if old(self)@.options.syscalls {
                old(self)@.syscalls.remove((id, vcpu))
            } else {
                old(self)@.syscalls
            }),
            final(self).args == old(self).args,
            final(self)@.args == old(self)@.args,
            final(self)@.options == old(self)@.options,
            final(self)@.ring == old(self)@.ring,
    {
        if !self.options.syscalls {
            return None;
        }
        match self.syscalls.leave(id, vcpu, rv) {
            Some(event) => Some(
                QemuEventMsg::of_event(QemuEvent::Syscall(event), EventFlags::empty()),
            ),
            None => None,
        }
    }

    /// The emulator exits: the frame that ends the trace. It is the last
    /// frame that the plugin puts on its queue, before it asks for what is
    /// buffered to be sent; a consumer that reads it has the whole trace.
    pub fn on_exit(&self) -> (r: QemuEventMsg)
        ensures
            r == final_frame(),
            r.wf(),
            r.flags.bits & FINISHED == FINISHED,
    {
        let flags = EventFlags::from_bits_truncate(FINISHED);
        let frame = QemuEventMsg::of_event(QemuEvent::Load(QemuLoad::new(0, 0, 0, 0)), flags);
        assert(frame.flags.bits == LOAD | FINISHED) by {
            assert(((0x080u32 & 0x1fbu32) & 0x1fbu32 & !0x11bu32) | 0x100u32 == 0x100u32 | 0x080u32)
                by (bit_vector);
        }
        assert((0x100u32 | 0x080u32) & 0x080u32 == 0x080u32) by (bit_vector);
        frame
    }
}

} // verus!
