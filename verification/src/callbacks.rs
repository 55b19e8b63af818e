//! Callback descriptors.
//!
//! A plugin declares what it wants to be called for by making descriptors.
//! A static descriptor is bound to one of the nine lifecycle hooks of the
//! host when the plugin is installed. A dynamic descriptor is bound to one
//! translation block or one instruction while the block is translated, and
//! carries one machine word of data. The host keeps that word for as long
//! as the translated code lives, so it has to be a number that stands for
//! itself, such as a key of the instruction ring, and never an address of
//! something that may be gone by then.
//!
//! A descriptor does not call the host. Registering one gives the request
//! that the caller has to pass to the host's registrar.

use vstd::prelude::*;

verus! {

/// The lifecycle hooks of the host, one for each of its registrars.
#[derive(Clone, Copy, Debug, PartialEq, Eq, Structural)]
pub enum StaticCallbackType {
    /// A virtual processor was initialised.
    VCPUInit,
    /// A virtual processor has exited.
    VCPUExit,
    /// A virtual processor has gone idle.
    VCPUIdle,
    /// A virtual processor has resumed.
    VCPUResume,
    /// A block of instructions was translated.
    VCPUTBTrans,
    /// A system call was entered.
    VCPUSyscall,
    /// A system call has returned.
    VCPUSyscallRet,
    /// The emulator is about to exit.
    AtExit,
    /// The translation cache was flushed.
    Flush,
}

/// The kinds of callback that are no hooks of the host.
#[derive(Clone, Copy, Debug, PartialEq, Eq, Structural)]
pub enum SetupCallbackType {
    /// Runs once when the plugin is installed, before anything is
    /// registered with the host.
    Setup,
}

/// The points that a dynamic callback can be bound to.
#[derive(Clone, Copy, Debug, PartialEq, Eq, Structural)]
pub enum DynamicCallbackType {
    /// The execution of a translation block.
    VCPUTBExec,
    /// The execution of an instruction.
    VCPUInsnExec,
    /// A memory access of an instruction.
    VCPUMem,
}

/// What a dynamic callback may do with the registers of the guest.
#[derive(Clone, Copy, Debug, PartialEq, Eq, Structural)]
pub enum CallbackFlags {
    /// It does not look at them.
    NoRegs,
    /// It reads them.
    ReadRegs,
    /// It reads and writes them.
    ReadWriteRegs,
}

/// Which memory accesses a memory callback is called for.
#[derive(Clone, Copy, Debug, PartialEq, Eq, Structural)]
pub enum MemAccessKind {
    Reads,
    Writes,
    ReadsAndWrites,
}

/// The request to bind a static callback: which registrar of the host to
/// call, and for which plugin.
#[derive(Clone, Copy, Debug, PartialEq, Eq, Structural)]
pub struct Registration {
    pub hook: StaticCallbackType,
    pub id: u64,
}

/// The request to bind a dynamic callback.
#[derive(Clone, Copy, Debug, PartialEq, Eq, Structural)]
pub struct DynamicRegistration {
    /// Which registrar of the host to call.
    pub hook: DynamicCallbackType,
    /// The handle of the block or instruction, as the host gave it.
    pub target: usize,
    /// What the callback does with the guest's registers.
    pub flags: CallbackFlags,
    /// For a memory callback, the accesses it is called for.
    pub accesses: Option<MemAccessKind>,
    /// The word that the host hands back to the callback.
    pub data: u64,
}

/// A callback that is bound to a hook of the host at installation.
pub trait Register {
    /// The hook that the callback is bound to.
    spec fn hook(&self) -> StaticCallbackType;

    /// The request to bind the callback for the plugin `id`.
    fn register(&self, id: u64) -> (r: Registration)
        ensures
            r == (Registration { hook: self.hook(), id }),
    ;
}

/// A callback that is bound to a translation block.
pub trait RegisterTBExec {
    /// The word that the host hands back to the callback.
    spec fn data(&self) -> u64;

    /// The request to bind the callback to the block `tb`.
    fn register(&self, tb: usize) -> (r: DynamicRegistration)
        ensures
            r == (DynamicRegistration {
                hook: DynamicCallbackType::VCPUTBExec,
                target: tb,
                flags: CallbackFlags::NoRegs,
                accesses: None,
                data: self.data(),
            }),
    ;
}

/// A callback that is bound to an instruction.
pub trait RegisterInsnExec {
    /// The point that the callback is bound to.
    spec fn hook(&self) -> DynamicCallbackType;

    /// The word that the host hands back to the callback.
    spec fn data(&self) -> u64;

    /// The request to bind the callback to the instruction `insn`. No
    /// callback of this library looks at the guest's registers. A memory
    /// callback is called for loads and stores alike.
    fn register(&self, insn: usize) -> (r: DynamicRegistration)
        ensures
            r == (DynamicRegistration {
                hook: self.hook(),
                target: insn,
                flags: CallbackFlags::NoRegs,
                accesses: if self.hook() == DynamicCallbackType::VCPUMem {
                    Some(MemAccessKind::ReadsAndWrites)
                } else {
                    None
                },
                data: self.data(),
            }),
    ;
}

/// The first callback of a plugin: it gets the host's description of the
/// emulation and the plugin's arguments, and sets up the plugin's state.
pub struct SetupCallback<F> {
    pub cb: F,
}

impl<F> SetupCallback<F> {
    pub fn new(cb: F) -> (r: Self)
        ensures
            r.cb == cb,
    {
        SetupCallback { cb }
    }

    /// The kind of the callback.
    pub fn kind(&self) -> (r: SetupCallbackType)
        ensures
            r == SetupCallbackType::Setup,
    {
        SetupCallbackType::Setup
    }
}

/// Called when a virtual processor is initialised: once in user mode, any
/// number of times in system mode.
pub struct VCPUInitCallback<F> {
    pub cb: F,
}

impl<F> VCPUInitCallback<F> {
    pub fn new(cb: F) -> (r: Self)
        ensures
            r.cb == cb,
    {
        VCPUInitCallback { cb }
    }
}

impl<F> Register for VCPUInitCallback<F> {
    open spec fn hook(&self) -> StaticCallbackType {
        StaticCallbackType::VCPUInit
    }

    fn register(&self, id: u64) -> (r: Registration) {
        Registration { hook: StaticCallbackType::VCPUInit, id }
    }
}

/// Called when a virtual processor exits.
pub struct VCPUExitCallback<F> {
    pub cb: F,
}

impl<F> VCPUExitCallback<F> {
    pub fn new(cb: F) -> (r: Self)
        ensures
            r.cb == cb,
    {
        VCPUExitCallback { cb }
    }
}

impl<F> Register for VCPUExitCallback<F> {
    open spec fn hook(&self) -> StaticCallbackType {
        StaticCallbackType::VCPUExit
    }

    fn register(&self, id: u64) -> (r: Registration) {
        Registration { hook: StaticCallbackType::VCPUExit, id }
    }
}

/// Called when a virtual processor goes idle. System mode only.
pub struct VCPUIdleCallback<F> {
    pub cb: F,
}

impl<F> VCPUIdleCallback<F> {
    pub fn new(cb: F) -> (r: Self)
        ensures
            r.cb == cb,
    {
        VCPUIdleCallback { cb }
    }
}

impl<F> Register for VCPUIdleCallback<F> {
    open spec fn hook(&self) -> StaticCallbackType {
        StaticCallbackType::VCPUIdle
    }

    fn register(&self, id: u64) -> (r: Registration) {
        Registration { hook: StaticCallbackType::VCPUIdle, id }
    }
}

/// Called when a virtual processor resumes from idle. System mode only.
pub struct VCPUResumeCallback<F> {
    pub cb: F,
}

impl<F> VCPUResumeCallback<F> {
    pub fn new(cb: F) -> (r: Self)
        ensures
            r.cb == cb,
    {
        VCPUResumeCallback { cb }
    }
}

impl<F> Register for VCPUResumeCallback<F> {
    open spec fn hook(&self) -> StaticCallbackType {
        StaticCallbackType::VCPUResume
    }

    fn register(&self, id: u64) -> (r: Registration) {
        Registration { hook: StaticCallbackType::VCPUResume, id }
    }
}

/// Called when a block of instructions is translated.
pub struct VCPUTBTransCallback<F> {
    pub cb: F,
}

impl<F> VCPUTBTransCallback<F> {
    pub fn new(cb: F) -> (r: Self)
        ensures
            r.cb == cb,
    {
        VCPUTBTransCallback { cb }
    }
}

impl<F> Register for VCPUTBTransCallback<F> {
    open spec fn hook(&self) -> StaticCallbackType {
        StaticCallbackType::VCPUTBTrans
    }

    fn register(&self, id: u64) -> (r: Registration) {
        Registration { hook: StaticCallbackType::VCPUTBTrans, id }
    }
}

/// Called when a system call is entered, with its number and arguments.
/// The return callback of the same plugin and processor that comes next
/// belongs to this call.
pub struct VCPUSyscallCallback<F> {
    pub cb: F,
}

impl<F> VCPUSyscallCallback<F> {
    pub fn new(cb: F) -> (r: Self)
        ensures
            r.cb == cb,
    {
        VCPUSyscallCallback { cb }
    }
}

impl<F> Register for VCPUSyscallCallback<F> {
    open spec fn hook(&self) -> StaticCallbackType {
        StaticCallbackType::VCPUSyscall
    }

    fn register(&self, id: u64) -> (r: Registration) {
        Registration { hook: StaticCallbackType::VCPUSyscall, id }
    }
}

/// Called when a system call returns, with its number and result.
pub struct VCPUSyscallRetCallback<F> {
    pub cb: F,
}

impl<F> VCPUSyscallRetCallback<F> {
    pub fn new(cb: F) -> (r: Self)
        ensures
            r.cb == cb,
    {
        VCPUSyscallRetCallback { cb }
    }
}

impl<F> Register for VCPUSyscallRetCallback<F> {
    open spec fn hook(&self) -> StaticCallbackType {
        StaticCallbackType::VCPUSyscallRet
    }

    fn register(&self, id: u64) -> (r: Registration) {
        Registration { hook: StaticCallbackType::VCPUSyscallRet, id }
    }
}

/// The word that an exit callback is handed.
#[derive(Clone, Copy, Debug, PartialEq, Eq, Structural)]
pub struct AtExitData(pub u64);

/// Called when the emulator exits.
pub struct AtExitCallback<F> {
    pub cb: F,
    /// The word that the host hands back to the callback.
    pub data: AtExitData,
}

impl<F> AtExitCallback<F> {
    pub fn new(cb: F, data: AtExitData) -> (r: Self)
        ensures
            r.cb == cb,
            r.data == data,
    {
        AtExitCallback { cb, data }
    }
}

impl<F> Register for AtExitCallback<F> {
    open spec fn hook(&self) -> StaticCallbackType {
        StaticCallbackType::AtExit
    }

    fn register(&self, id: u64) -> (r: Registration) {
        Registration { hook: StaticCallbackType::AtExit, id }
    }
}

/// Called when the host flushes its translation cache.
pub struct FlushCallback<F> {
    pub cb: F,
}

impl<F> FlushCallback<F> {
    pub fn new(cb: F) -> (r: Self)
        ensures
            r.cb == cb,
    {
        FlushCallback { cb }
    }
}

impl<F> Register for FlushCallback<F> {
    open spec fn hook(&self) -> StaticCallbackType {
        StaticCallbackType::Flush
    }

    fn register(&self, id: u64) -> (r: Registration) {
        Registration { hook: StaticCallbackType::Flush, id }
    }
}

impl Register for StaticCallbackType {
    open spec fn hook(&self) -> StaticCallbackType {
        *self
    }

    fn register(&self, id: u64) -> (r: Registration) {
        Registration { hook: *self, id }
    }
}

/// Called when a translation block runs.
pub struct VCPUTBExecCallback<F> {
    pub cb: F,
    /// The word that the host hands back to the callback.
    pub data: u64,
}

impl<F> VCPUTBExecCallback<F> {
    pub fn new(cb: F, data: u64) -> (r: Self)
        ensures
            r.cb == cb,
            r.data == data,
    {
        VCPUTBExecCallback { cb, data }
    }
}

impl<F> RegisterTBExec for VCPUTBExecCallback<F> {
    open spec fn data(&self) -> u64 {
        self.data
    }

    fn register(&self, tb: usize) -> (r: DynamicRegistration) {
        DynamicRegistration {
            hook: DynamicCallbackType::VCPUTBExec,
            target: tb,
            flags: CallbackFlags::NoRegs,
            accesses: None,
            data: self.data,
        }
    }
}

/// Called when an instruction runs.
pub struct VCPUInsnExecCallback<F> {
    pub cb: F,
    /// The word that the host hands back to the callback.
    pub data: u64,
}

impl<F> VCPUInsnExecCallback<F> {
    pub fn new(cb: F, data: u64) -> (r: Self)
        ensures
            r.cb == cb,
            r.data == data,
    {
        VCPUInsnExecCallback { cb, data }
    }
}

impl<F> RegisterInsnExec for VCPUInsnExecCallback<F> {
    open spec fn hook(&self) -> DynamicCallbackType {
        DynamicCallbackType::VCPUInsnExec
    }

    open spec fn data(&self) -> u64 {
        self.data
    }

    fn register(&self, insn: usize) -> (r: DynamicRegistration) {
        DynamicRegistration {
            hook: DynamicCallbackType::VCPUInsnExec,
            target: insn,
            flags: CallbackFlags::NoRegs,
            accesses: None,
            data: self.data,
        }
    }
}

/// Called when an instruction reads or writes memory.
pub struct VCPUMemCallback<F> {
    pub cb: F,
    /// The word that the host hands back to the callback.
    pub data: u64,
}

impl<F> VCPUMemCallback<F> {
    pub fn new(cb: F, data: u64) -> (r: Self)
        ensures
            r.cb == cb,
            r.data == data,
    {
        VCPUMemCallback { cb, data }
    }
}

impl<F> RegisterInsnExec for VCPUMemCallback<F> {
    open spec fn hook(&self) -> DynamicCallbackType {
        DynamicCallbackType::VCPUMem
    }

    open spec fn data(&self) -> u64 {
        self.data
    }

    fn register(&self, insn: usize) -> (r: DynamicRegistration) {
        DynamicRegistration {
            hook: DynamicCallbackType::VCPUMem,
            target: insn,
            flags: CallbackFlags::NoRegs,
            accesses: Some(MemAccessKind::ReadsAndWrites),
            data: self.data,
        }
    }
}

} // verus!
