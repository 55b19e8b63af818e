//! The instruction ring: a side table for what a plugin knows of an
//! instruction between its translation and its execution.
//!
//! The host keeps one machine word for each callback it is given, for as
//! long as the translated code lives. The word is a key into this table.
//! Keys are issued by a counter that wraps around. When a key is issued, the
//! entry issued `window` keys earlier is dropped, whether or not it was ever
//! used, so the table never holds more than `window` entries.

use crate::qemu_event::QemuInstr;
use std::collections::HashMap;
use vstd::prelude::*;
use vstd::set_lib::lemma_len_subset;

verus! {

broadcast use vstd::std_specs::hash::group_hash_axioms;

/// The number of entries that a ring keeps unless told otherwise.
pub const DEFAULT_WINDOW: u64 = 1024;

/// What is known of an instruction when it has been translated.
#[derive(Clone, Copy, Debug, PartialEq, Eq)]
pub struct InsnEvent {
    /// The address of the instruction.
    pub pc: u64,
    /// The opcode, where opcodes are traced.
    pub opcode: Option<QemuInstr>,
    /// Whether the instruction is the last of its translation block.
    pub branch: bool,
}

impl InsnEvent {
    pub fn new(pc: u64, opcode: Option<QemuInstr>, branch: bool) -> (r: InsnEvent)
        ensures
            r == (InsnEvent { pc, opcode, branch }),
    {
        InsnEvent { pc, opcode, branch }
    }
}

/// The keys that a ring may hold when `next` is the key it issues next:
/// the `window` keys issued last.
pub open spec fn recent_keys(next: u64, window: nat) -> Set<u64>
    decreases window,
{
    if window == 0 {
        Set::empty()
    } else {
        recent_keys(next, (window - 1) as nat).insert(
            vstd::wrapping::u64_specs::wrapping_sub(next, window as u64),
        )
    }
}

/// Whether `key` was issued at most `window` keys before `next`.
pub open spec fn is_recent(key: u64, next: u64, window: nat) -> bool {
    1 <= vstd::wrapping::u64_specs::wrapping_sub(next, key) <= window
}

/// The recent keys are those issued at most `window` keys ago, and there
/// are no more than `window` of them.
pub proof fn lemma_recent_keys(next: u64, window: nat)
    requires
        window <= u64::MAX,
    ensures
        recent_keys(next, window).finite(),
        recent_keys(next, window).len() <= window,
        forall|key: u64| #[trigger]
            recent_keys(next, window).contains(key) <==> is_recent(key, next, window),
    decreases window,
{
    if window > 0 {
        lemma_recent_keys(next, (window - 1) as nat);
        broadcast use vstd::set::axiom_set_insert_len;

    }
}

/// What a ring holds.
pub struct RingState {
    /// The entries, by key.
    pub entries: Map<u64, InsnEvent>,
    /// The key that is issued next.
    pub next: u64,
    /// The number of entries that are kept.
    pub window: u64,
}

impl RingState {
    /// Whether the ring keeps at least one entry and holds recent keys only.
    pub open spec fn wf(self) -> bool {
        &&& self.window >= 1
        &&& self.entries.dom().subset_of(recent_keys(self.next, self.window as nat))
    }

    /// The ring after a key was issued for `event`: the entry issued
    /// `window` keys ago is gone, the new one is in, the counter has moved.
    pub open spec fn issue(self, event: InsnEvent) -> RingState {
        RingState {
            entries: self.entries.remove(
                vstd::wrapping::u64_specs::wrapping_sub(self.next, self.window),
            ).insert(self.next, event),
            next: vstd::wrapping::u64_specs::wrapping_add(self.next, 1),
            window: self.window,
        }
    }

    /// The ring after the entry of `key` was taken out.
    pub open spec fn take(self, key: u64) -> RingState {
        RingState { entries: self.entries.remove(key), next: self.next, window: self.window }
    }
}

/// A ring never holds more entries than its window, however many keys were
/// issued.
pub proof fn lemma_ring_bound(ring: RingState)
    requires
        ring.wf(),
    ensures
        ring.entries.dom().finite(),
        ring.entries.dom().len() <= ring.window,
{
    lemma_recent_keys(ring.next, ring.window as nat);
    lemma_len_subset(ring.entries.dom(), recent_keys(ring.next, ring.window as nat));
}

/// Issuing a key keeps a ring well formed.
pub proof fn lemma_issue_keeps_wf(ring: RingState, event: InsnEvent)
    requires
        ring.wf(),
    ensures
        ring.issue(event).wf(),
        ring.issue(event).entries.contains_key(ring.next),
        ring.issue(event).entries[ring.next] == event,
{
    let after = ring.issue(event);
    lemma_recent_keys(ring.next, ring.window as nat);
    lemma_recent_keys(after.next, after.window as nat);
    assert forall|key: u64| after.entries.dom().contains(key) implies recent_keys(
        after.next,
        after.window as nat,
    ).contains(key) by {
        if key != ring.next {
            assert(ring.entries.dom().contains(key));
            assert(recent_keys(ring.next, ring.window as nat).contains(key));
            assert(is_recent(key, ring.next, ring.window as nat));
        }
        assert(is_recent(key, after.next, after.window as nat));
    }
}

/// Taking an entry out keeps a ring well formed.
pub proof fn lemma_take_keeps_wf(ring: RingState, key: u64)
    requires
        ring.wf(),
    ensures
        ring.take(key).wf(),
{
}

/// The instruction ring.
pub struct InsnRing {
    insns: HashMap<u64, InsnEvent>,
    next_key: u64,
    window: u64,
}

impl View for InsnRing {
    type V = RingState;

    closed spec fn view(&self) -> RingState {
        RingState { entries: self.insns@, next: self.next_key, window: self.window }
    }
}

impl InsnRing {
    #[verifier::type_invariant]
    spec fn inv(self) -> bool {
        self@.wf()
    }

    /// An empty ring with the default window.
    pub fn new() -> (r: InsnRing)
        ensures
            r@.entries == Map::<u64, InsnEvent>::empty(),
            r@.next == 0,
            r@.window == DEFAULT_WINDOW,
            r@.wf(),
    {
        InsnRing { insns: HashMap::new(), next_key: 0, window: DEFAULT_WINDOW }
    }

    /// An empty ring that keeps `window` entries. A window of zero could
    /// not even keep the entry of the key just issued, so it is refused.
    pub fn with_window(window: u64) -> (r: Option<InsnRing>)
        ensures
            r.is_some() <==> window >= 1,
            r matches Some(ring) ==> ring@.entries == Map::<u64, InsnEvent>::empty() && ring@.next
                == 0 && ring@.window == window && ring@.wf(),
    {
        if window == 0 {
            None
        } else {
            Some(InsnRing { insns: HashMap::new(), next_key: 0, window })
        }
    }

    /// The number of entries that the ring keeps.
    pub fn window(&self) -> (r: u64)
        ensures
            r == self@.window,
            r >= 1,
    {
        proof {
            use_type_invariant(self);
        }
        self.window
    }

    /// The number of entries in the ring. It never exceeds the window.
    pub fn len(&self) -> (r: usize)
        ensures
            r == self@.entries.dom().len(),
            r <= self@.window,
            self@.wf(),
    {
        proof {
            use_type_invariant(self);
            lemma_ring_bound(self@);
        }
        self.insns.len()
    }

    /// Issues a fresh key for `event` and stores the event under it. The
    /// entry issued `window` keys earlier is dropped without a look at it.
    pub fn issue(&mut self, event: InsnEvent) -> (key: u64)
        ensures
            key == old(self)@.next,
            final(self)@ == old(self)@.issue(event),
            old(self)@.wf(),
            final(self)@.wf(),
    {
        proof {
            use_type_invariant(&*self);
            lemma_issue_keeps_wf(self@, event);
        }
        let key = self.next_key;
        let stale = key.wrapping_sub(self.window);
        // The table is taken out while it changes, so that the ring is well
        // formed at every step.
        let mut insns: HashMap<u64, InsnEvent> = HashMap::new();
        core::mem::swap(&mut self.insns, &mut insns);
        insns.remove(&stale);
        insns.insert(key, event);
        self.next_key = key.wrapping_add(1);
        core::mem::swap(&mut self.insns, &mut insns);
        key
    }

    /// The entry of `key`, which leaves the ring; none where the ring holds
    /// no such entry, and then nothing changes.
    pub fn take(&mut self, key: u64) -> (r: Option<InsnEvent>)
        ensures
            r == (if old(self)@.entries.contains_key(key) {
                Some(old(self)@.entries[key])
            } else {
                None
            }),
            final(self)@ == old(self)@.take(key),
            old(self)@.wf(),
            final(self)@.wf(),
    {
        proof {
            use_type_invariant(&*self);
        }
        let mut insns: HashMap<u64, InsnEvent> = HashMap::new();
        core::mem::swap(&mut self.insns, &mut insns);
        let r = insns.remove(&key);
        core::mem::swap(&mut self.insns, &mut insns);
        assert(self@.entries =~= old(self)@.entries.remove(key));
        r
    }

    /// The entry of `key`, which stays in the ring.
    pub fn get(&self, key: u64) -> (r: Option<InsnEvent>)
        ensures
            r == (if self@.entries.contains_key(key) {
                Some(self@.entries[key])
            } else {
                None
            }),
    {
        match self.insns.get(&key) {
            Some(e) => Some(*e),
            None => None,
        }
    }
}

} // verus!
