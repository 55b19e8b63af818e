//! The open system calls of a plugin.
//!
//! The host reports a system call twice: on entry, with its number and
//! arguments, and on return, with its result. Between the two the plugin
//! keeps the entry, one for each pair of plugin and virtual processor, since
//! the host runs the two callbacks of one call on the same processor with no
//! other system call of that processor in between.

use crate::qemu_event::QemuSyscall;
use std::collections::HashMap;
use vstd::prelude::*;

verus! {

broadcast use vstd::std_specs::hash::group_hash_axioms;

/// A system call that has been entered and has not returned yet.
#[derive(Clone, Copy, Debug, PartialEq, Eq)]
pub struct OpenSyscall {
    /// The number of the system call.
    pub num: i64,
    /// The arguments.
    pub args: [u64; 8],
}

/// The one number that stands for a plugin and one of its processors.
pub open spec fn slot(id: u64, vcpu: u32) -> u128 {
    (id * 0x1_0000_0000 + vcpu) as u128
}

/// Two pairs have the same number only where they are the same pair.
pub proof fn lemma_slot_injective(id: u64, vcpu: u32, id2: u64, vcpu2: u32)
    ensures
        slot(id, vcpu) == slot(id2, vcpu2) <==> id == id2 && vcpu == vcpu2,
{
}

/// The open system calls, by plugin and processor.
pub struct SyscallTable {
    open: HashMap<u128, OpenSyscall>,
}

impl View for SyscallTable {
    type V = Map<(u64, u32), OpenSyscall>;

    closed spec fn view(&self) -> Map<(u64, u32), OpenSyscall> {
        Map::new(
            |k: (u64, u32)| self.open@.contains_key(slot(k.0, k.1)),
            |k: (u64, u32)| self.open@[slot(k.0, k.1)],
        )
    }
}

impl SyscallTable {
    /// A table with no open system call.
    pub fn new() -> (r: SyscallTable)
        ensures
            r@ == Map::<(u64, u32), OpenSyscall>::empty(),
    {
        let r = SyscallTable { open: HashMap::new() };
        assert(r@ =~= Map::<(u64, u32), OpenSyscall>::empty());
        r
    }

    /// Records the entry of a system call. An entry of the same plugin and
    /// processor that is still open is replaced.
    pub fn enter(&mut self, id: u64, vcpu: u32, num: i64, args: [u64; 8])
        ensures
            final(self)@ == old(self)@.insert((id, vcpu), OpenSyscall { num, args }),
    {
        let key: u128 = (id as u128) * 0x1_0000_0000 + (vcpu as u128);
        self.open.insert(key, OpenSyscall { num, args });
        proof {
            let want = old(self)@.insert((id, vcpu), OpenSyscall { num, args });
            assert forall|k: (u64, u32)| self@.contains_key(k) <==> want.contains_key(k) by {
                lemma_slot_injective(k.0, k.1, id, vcpu);
            }
            assert forall|k: (u64, u32)| self@.contains_key(k) implies self@[k] == want[k] by {
                lemma_slot_injective(k.0, k.1, id, vcpu);
            }
            assert(self@ =~= want);
        }
    }

    /// Closes the system call that is open for the plugin and processor: the
    /// entry leaves the table and comes back with the result filled in. With
    /// no open entry there is nothing to report, and nothing changes.
    pub fn leave(&mut self, id: u64, vcpu: u32, rv: i64) -> (r: Option<QemuSyscall>)
        ensures
            r == (if old(self)@.contains_key((id, vcpu)) {
                Some(
                    QemuSyscall {
                        num: old(self)@[(id, vcpu)].num,
                        rv,
                        args: old(self)@[(id, vcpu)].args,
                    },
                )
            } else {
                None
            }),
            final(self)@ == old(self)@.remove((id, vcpu)),
    {
        let key: u128 = (id as u128) * 0x1_0000_0000 + (vcpu as u128);
        let found = self.open.remove(&key);
        proof {
            let want = old(self)@.remove((id, vcpu));
            assert forall|k: (u64, u32)| self@.contains_key(k) <==> want.contains_key(k) by {
                lemma_slot_injective(k.0, k.1, id, vcpu);
            }
            assert forall|k: (u64, u32)| self@.contains_key(k) implies self@[k] == want[k] by {
                lemma_slot_injective(k.0, k.1, id, vcpu);
            }
            assert(self@ =~= want);
        }
        match found {
            Some(entry) => Some(QemuSyscall { num: entry.num, rv, args: entry.args }),
            None => None,
        }
    }

    /// Whether a system call is open for the plugin and processor.
    pub fn is_open(&self, id: u64, vcpu: u32) -> (r: bool)
        ensures
            r == self@.contains_key((id, vcpu)),
    {
        let key: u128 = (id as u128) * 0x1_0000_0000 + (vcpu as u128);
        self.open.contains_key(&key)
    }
}

/// One callback of the host about a system call.
pub enum SyscallStep {
    /// A system call was entered.
    Enter { id: u64, vcpu: u32, call: OpenSyscall },
    /// A system call returned.
    Leave { id: u64, vcpu: u32 },
}

impl SyscallStep {
    /// Whether the step is about the given plugin and processor.
    pub open spec fn is_on(self, id: u64, vcpu: u32) -> bool {
        match self {
            SyscallStep::Enter { id: i, vcpu: v, .. } => i == id && v == vcpu,
            SyscallStep::Leave { id: i, vcpu: v } => i == id && v == vcpu,
        }
    }
}

/// The table after the steps of `trace`, starting with nothing open.
pub open spec fn table_after(trace: Seq<SyscallStep>) -> Map<(u64, u32), OpenSyscall>
    decreases trace.len(),
{
    if trace.len() == 0 {
        Map::empty()
    } else {
        let before = table_after(trace.drop_last());
        match trace.last() {
            SyscallStep::Enter { id, vcpu, call } => before.insert((id, vcpu), call),
            SyscallStep::Leave { id, vcpu } => before.remove((id, vcpu)),
        }
    }
}

/// Whether step `at` of `trace` is the entry that is still open for the
/// plugin and processor at the end of the trace: an entry of theirs with no
/// later step of theirs.
pub open spec fn is_open_entry(trace: Seq<SyscallStep>, at: int, id: u64, vcpu: u32) -> bool {
    &&& 0 <= at < trace.len()
    &&& trace[at] is Enter
    &&& trace[at].is_on(id, vcpu)
    &&& forall|k: int| at < k < trace.len() ==> !(#[trigger] trace[k]).is_on(id, vcpu)
}

/// What the return of a system call reports after `trace`: the call that
/// the table holds for the plugin and processor, with the result filled in.
pub open spec fn reported(trace: Seq<SyscallStep>, id: u64, vcpu: u32, rv: i64) -> Option<
    QemuSyscall,
> {
    if table_after(trace).contains_key((id, vcpu)) {
        Some(
            QemuSyscall {
                num: table_after(trace)[(id, vcpu)].num,
                rv,
                args: table_after(trace)[(id, vcpu)].args,
            },
        )
    } else {
        None
    }
}

/// In every trace, a returning system call is reported exactly where the
/// same plugin and processor entered a call that has not returned yet, and
/// it is reported with the number and the arguments of the latest such
/// entry.
pub proof fn lemma_syscall_pairing(trace: Seq<SyscallStep>, id: u64, vcpu: u32, rv: i64)
    ensures
        reported(trace, id, vcpu, rv).is_some() <==> exists|at: int|
            is_open_entry(trace, at, id, vcpu),
        forall|at: int| #[trigger]
            is_open_entry(trace, at, id, vcpu) ==> reported(trace, id, vcpu, rv) == Some(
                QemuSyscall {
                    num: trace[at]->Enter_call.num,
                    rv,
                    args: trace[at]->Enter_call.args,
                },
            ),
    decreases trace.len(),
{
    if trace.len() > 0 {
        let front = trace.drop_last();
        let end = trace.len() - 1;
        lemma_syscall_pairing(front, id, vcpu, rv);
        if trace.last().is_on(id, vcpu) {
            if trace.last() is Enter {
                assert(is_open_entry(trace, end, id, vcpu));
            }
            assert forall|at: int| is_open_entry(trace, at, id, vcpu) implies at == end by {
                if at < end {
                    assert(trace[end].is_on(id, vcpu));
                }
            }
        } else {
            assert forall|at: int| is_open_entry(trace, at, id, vcpu) <==> is_open_entry(
                front,
                at,
                id,
                vcpu,
            ) by {
                if is_open_entry(trace, at, id, vcpu) {
                    assert(at != end);
                    assert(front[at] == trace[at]);
                    assert forall|k: int| at < k < front.len() implies !(#[trigger] front[k]).is_on(
                        id,
                        vcpu,
                    ) by {
                        assert(front[k] == trace[k]);
                    }
                }
                if is_open_entry(front, at, id, vcpu) {
                    assert(front[at] == trace[at]);
                    assert forall|k: int| at < k < trace.len() implies !(#[trigger] trace[k]).is_on(
                        id,
                        vcpu,
                    ) by {
                        if k < end {
                            assert(front[k] == trace[k]);
                        }
                    }
                }
            }
            if reported(front, id, vcpu, rv).is_some() {
                let at = choose|at: int| is_open_entry(front, at, id, vcpu);
                assert(is_open_entry(trace, at, id, vcpu));
            }
            assert forall|at: int| #[trigger]
                is_open_entry(trace, at, id, vcpu) implies reported(trace, id, vcpu, rv) == Some(
                QemuSyscall {
                    num: trace[at]->Enter_call.num,
                    rv,
                    args: trace[at]->Enter_call.args,
                },
            ) by {
                assert(is_open_entry(front, at, id, vcpu));
                assert(front[at] == trace[at]);
            }
        }
    }
}

} // verus!
