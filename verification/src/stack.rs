//! Navigation stack: the state machine of realized screens.
//!
//! While the menu subsystem is active the stack is non-empty and exactly its
//! top entry is visible. Pushing hides the previous top without destroying
//! it, so popping can reveal it again without rebuilding; popping destroys
//! the top and either reveals the entry below or, when the last entry goes,
//! ends the stack's life altogether. Replacing the context tears down every
//! entry at once. Transitions that the state machine forbids (popping or
//! pushing with no active stack, entering twice) cannot be expressed against
//! this interface: `enter` is the only constructor and every other
//! transition consumes or borrows an existing stack.

use vstd::prelude::*;
use vstd::multiset::Multiset;

verus! {

/// One realized screen on the stack: its presentation handle and whether it
/// is currently shown.
#[derive(Debug, Clone, Copy, PartialEq, Eq, Structural)]
pub struct ScreenEntry {
    pub handle: u64,
    pub visible: bool,
}

/// One navigation operation, as seen by the specification-level state
/// machine.
#[derive(Debug, Clone, Copy, PartialEq, Eq, Structural)]
pub enum NavOp {
    /// Enter the subsystem with a first realized screen.
    Enter(u64),
    /// Push a freshly realized screen on top.
    Push(u64),
    /// Pop the top screen.
    Pop,
}

/// A well-formed stack: non-empty, and an entry is visible exactly when it
/// is the top.
pub open spec fn stack_wf(s: Seq<ScreenEntry>) -> bool {
    &&& s.len() >= 1
    &&& forall|i: int| 0 <= i < s.len() ==> ((#[trigger] s[i]).visible <==> i == s.len() - 1)
}

/// The stack after entering: one visible entry.
pub open spec fn entered(h: u64) -> Seq<ScreenEntry> {
    seq![ScreenEntry { handle: h, visible: true }]
}

/// The stack after pushing: the old top hidden, the new entry on top and
/// visible.
pub open spec fn pushed(s: Seq<ScreenEntry>, h: u64) -> Seq<ScreenEntry> {
    s.update(s.len() - 1, ScreenEntry { handle: s.last().handle, visible: false }).push(
        ScreenEntry { handle: h, visible: true },
    )
}

/// The stack after popping when more than one entry remains: the top
/// removed, the entry below revealed.
pub open spec fn popped(s: Seq<ScreenEntry>) -> Seq<ScreenEntry> {
    s.drop_last().update(s.len() - 2, ScreenEntry { handle: s[s.len() - 2].handle, visible: true })
}

/// The handles of a stack, bottom first.
pub open spec fn handles_of(s: Seq<ScreenEntry>) -> Seq<u64> {
    s.map_values(|e: ScreenEntry| e.handle)
}

/// Navigation stack of the active menu subsystem.
#[derive(Debug)]
pub struct NavStack {
    entries: Vec<ScreenEntry>,
}

impl NavStack {
    /// The entries of this stack, bottom first.
    pub closed spec fn entries_model(self) -> Seq<ScreenEntry> {
        self.entries@
    }

    /// Whether this stack is well formed: non-empty with exactly the top
    /// entry visible. Every operation of this type preserves it.
    pub open spec fn wf(self) -> bool {
        stack_wf(self.entries_model())
    }

    /// The handles of this stack, bottom first.
    pub open spec fn handles(self) -> Seq<u64> {
        handles_of(self.entries_model())
    }

    /// Enter the menu subsystem: a stack of exactly one visible screen.
    pub fn enter(h: u64) -> (s: NavStack)
        ensures
            s.entries_model() == entered(h),
            s.wf(),
    {
        let mut entries: Vec<ScreenEntry> = Vec::new();
        entries.push(ScreenEntry { handle: h, visible: true });
        proof {
            assert(entries@ =~= entered(h));
        }
        NavStack { entries }
    }

    /// How many screens the stack holds.
    pub fn depth(&self) -> (n: usize)
        ensures
            n == self.entries_model().len(),
    {
        self.entries.len()
    }

    /// The handle of the top screen, the one currently visible.
    pub fn top_handle(&self) -> (h: u64)
        requires
            self.wf(),
        ensures
            h == self.handles().last(),
    {
        self.entries[self.entries.len() - 1].handle
    }

    /// Whether the given handle is somewhere on the stack.
    pub fn contains_handle(&self, h: u64) -> (b: bool)
        ensures
            b <==> self.handles().contains(h),
    {
        let n = self.entries.len();
        let mut i: usize = 0;
        while i < n
            invariant
                n == self.entries_model().len(),
                i <= n,
                forall|j: int| 0 <= j < i ==> self.handles()[j] != h,
            decreases n - i,
        {
            if self.entries[i].handle == h {
                proof {
                    assert(self.handles()[i as int] == h);
                }
                return true;
            }
            i = i + 1;
        }
        false
    }

    /// The entries of this stack, bottom first, for inspection.
    pub fn entries(&self) -> (es: Vec<ScreenEntry>)
        ensures
            es@ == self.entries_model(),
    {
        let mut es: Vec<ScreenEntry> = Vec::new();
        let n = self.entries.len();
        let mut i: usize = 0;
        while i < n
            invariant
                n == self.entries_model().len(),
                i <= n,
                es@ =~= self.entries_model().subrange(0, i as int),
            decreases n - i,
        {
            es.push(self.entries[i]);
            proof {
                assert(es@ =~= self.entries_model().subrange(0, i + 1));
            }
            i = i + 1;
        }
        proof {
            assert(self.entries_model().subrange(0, n as int) =~= self.entries_model());
        }
        es
    }

    /// Push a freshly realized screen: hide the current top, keep it for a
    /// later pop, and put the new entry visible on top. Returns the handle
    /// of the screen that was hidden, so the presentation layer can conceal
    /// it. The caller realizes the new screen before calling; a failed
    /// realization therefore leaves the stack untouched.
    pub fn push(&mut self, h: u64) -> (hidden: u64)
        requires
            old(self).wf(),
        ensures
            final(self).entries_model() == pushed(old(self).entries_model(), h),
            final(self).wf(),
            hidden == old(self).handles().last(),
            final(self).handles() == old(self).handles().push(h),
    {
        let ghost s0 = self.entries@;
        let top = self.entries.pop().unwrap();
        self.entries.push(ScreenEntry { handle: top.handle, visible: false });
        self.entries.push(ScreenEntry { handle: h, visible: true });
        proof {
            assert(self.entries@ =~= pushed(s0, h));
            assert(handles_of(self.entries@) =~= handles_of(s0).push(h));
        }
        top.handle
    }

    /// Pop the top screen, consuming the stack. The top's handle is handed
    /// back for destruction; when entries remain, the one below is marked
    /// visible again and the surviving stack is returned, otherwise the
    /// whole subsystem ends.
    pub fn pop(self) -> (r: PopOutcome)
        requires
            self.wf(),
        ensures
            match r {
                PopOutcome::Revealed { destroyed, revealed, stack } => {
                    &&& self.entries_model().len() > 1
                    &&& destroyed == self.handles().last()
                    &&& revealed == self.handles()[self.handles().len() - 2]
                    &&& stack.entries_model() == popped(self.entries_model())
                    &&& stack.wf()
                    &&& stack.handles() == self.handles().drop_last()
                },
                PopOutcome::Emptied { destroyed } => {
                    &&& self.entries_model().len() == 1
                    &&& destroyed == self.handles().last()
                },
            },
    {
        let ghost s0 = self.entries@;
        let mut entries = self.entries;
        let top = entries.pop().unwrap();
        if entries.len() == 0 {
            PopOutcome::Emptied { destroyed: top.handle }
        } else {
            let below = entries.pop().unwrap();
            entries.push(ScreenEntry { handle: below.handle, visible: true });
            proof {
                assert(entries@ =~= popped(s0));
                assert(handles_of(entries@) =~= handles_of(s0).drop_last());
            }
            PopOutcome::Revealed {
                destroyed: top.handle,
                revealed: below.handle,
                stack: NavStack { entries },
            }
        }
    }

    /// Leave the menu subsystem altogether: consume the stack and hand back
    /// every handle, bottom first, for destruction. No entry survives.
    pub fn tear_down(self) -> (hs: Vec<u64>)
        ensures
            hs@ == self.handles(),
    {
        let mut entries = self.entries;
        let mut hs: Vec<u64> = Vec::new();
        let ghost s0 = entries@;
        let n = entries.len();
        let mut i: usize = 0;
        while i < n
            invariant
                n == entries@.len(),
                entries@ == s0,
                i <= n,
                hs@ =~= handles_of(s0.subrange(0, i as int)),
            decreases n - i,
        {
            hs.push(entries[i].handle);
            proof {
                assert(s0.subrange(0, i + 1).drop_last() =~= s0.subrange(0, i as int));
                assert(handles_of(s0.subrange(0, i + 1)) =~= handles_of(
                    s0.subrange(0, i as int),
                ).push(s0[i as int].handle));
            }
            i = i + 1;
        }
        proof {
            assert(s0.subrange(0, n as int) =~= s0);
        }
        hs
    }
}

/// What a pop produced.
#[derive(Debug)]
pub enum PopOutcome {
    /// Entries remain: the destroyed top's handle, the newly revealed
    /// handle, and the surviving stack.
    Revealed { destroyed: u64, revealed: u64, stack: NavStack },
    /// The last entry went: its handle; the subsystem is inactive again.
    Emptied { destroyed: u64 },
}

/// The specification-level state machine: `None` while the subsystem is
/// inactive, `Some` of the stack entries while it is active. An operation
/// the state machine forbids leaves the state unchanged: popping or pushing
/// with no active stack cannot even be expressed against the executable
/// interface, and entering while active leaves the active stack standing.
pub open spec fn nav_step(state: Option<Seq<ScreenEntry>>, op: NavOp) -> Option<Seq<ScreenEntry>> {
    match op {
        NavOp::Enter(h) => match state {
            Option::None => Option::Some(entered(h)),
            Option::Some(s) => Option::Some(s),
        },
        NavOp::Push(h) => match state {
            Option::None => Option::None,
            Option::Some(s) => Option::Some(pushed(s, h)),
        },
        NavOp::Pop => match state {
            Option::None => Option::None,
            Option::Some(s) => if s.len() == 1 {
                Option::None
            } else {
                Option::Some(popped(s))
            },
        },
    }
}

/// The state after a whole sequence of operations, starting from the given
/// state.
pub open spec fn run_nav(state: Option<Seq<ScreenEntry>>, ops: Seq<NavOp>) -> Option<
    Seq<ScreenEntry>,
>
    decreases ops,
{
    if ops.len() == 0 {
        state
    } else {
        nav_step(run_nav(state, ops.drop_last()), ops.last())
    }
}

/// One step preserves well-formedness of an active stack.
pub proof fn lemma_nav_step_wf(state: Option<Seq<ScreenEntry>>, op: NavOp)
    requires
        state matches Option::Some(s) ==> stack_wf(s),
    ensures
        nav_step(state, op) matches Option::Some(s) ==> stack_wf(s),
{
}

/// After any sequence of enter, push and pop operations from the inactive
/// state — or from any well-formed active one — either the subsystem is
/// inactive: popping the last entry ends it, and the stack then retains no
/// entry at all; or the stack is active and well formed: at least one
/// entry, and an entry is visible exactly when it is the current top, so
/// at most one screen is ever shown.
pub proof fn lemma_nav_run_wf(state: Option<Seq<ScreenEntry>>, ops: Seq<NavOp>)
    requires
        state matches Option::Some(s) ==> stack_wf(s),
    ensures
        run_nav(state, ops) matches Option::Some(s) ==> stack_wf(s),
    decreases ops,
{
    if ops.len() > 0 {
        lemma_nav_run_wf(state, ops.drop_last());
        lemma_nav_step_wf(run_nav(state, ops.drop_last()), ops.last());
    }
}

/// The handles alive in a state, as an unordered collection: none while
/// inactive, the stack's handles while active.
pub open spec fn alive_handles(state: Option<Seq<ScreenEntry>>) -> Multiset<u64> {
    match state {
        Option::None => Multiset::empty(),
        Option::Some(s) => handles_of(s).to_multiset(),
    }
}

/// The handles a sequence of operations realizes: the payload of every
/// accepted enter and push step.
pub open spec fn realized_during(state: Option<Seq<ScreenEntry>>, ops: Seq<NavOp>) -> Multiset<
    u64,
>
    decreases ops,
{
    if ops.len() == 0 {
        Multiset::empty()
    } else {
        let before = run_nav(state, ops.drop_last());
        realized_during(state, ops.drop_last()).add(
            match ops.last() {
                NavOp::Enter(h) => if before is None {
                    Multiset::empty().insert(h)
                } else {
                    Multiset::empty()
                },
                NavOp::Push(h) => if before is Some {
                    Multiset::empty().insert(h)
                } else {
                    Multiset::empty()
                },
                NavOp::Pop => Multiset::empty(),
            },
        )
    }
}

/// The handles a sequence of operations destroys: the top of every
/// accepted pop step.
pub open spec fn destroyed_during(state: Option<Seq<ScreenEntry>>, ops: Seq<NavOp>) -> Multiset<
    u64,
>
    decreases ops,
{
    if ops.len() == 0 {
        Multiset::empty()
    } else {
        let before = run_nav(state, ops.drop_last());
        destroyed_during(state, ops.drop_last()).add(
            match ops.last() {
                NavOp::Pop => match before {
                    Option::Some(s) => Multiset::empty().insert(s.last().handle),
                    Option::None => Multiset::empty(),
                },
                _ => Multiset::empty(),
            },
        )
    }
}

/// Handles are conserved: after any sequence of operations, what is still
/// alive plus what was destroyed is what was alive before plus everything
/// realized. In particular, when a run from the inactive state ends
/// inactive again — popping the last entry ends it — every handle it ever
/// realized has been destroyed: none remains allocated.
pub proof fn lemma_nav_handles_conserved(state: Option<Seq<ScreenEntry>>, ops: Seq<NavOp>)
    requires
        state matches Option::Some(s) ==> stack_wf(s),
    ensures
        alive_handles(run_nav(state, ops)).add(destroyed_during(state, ops))
            =~= alive_handles(state).add(realized_during(state, ops)),
    decreases ops,
{
    broadcast use vstd::seq_lib::group_to_multiset_ensures;
    broadcast use vstd::multiset::group_multiset_axioms;

    if ops.len() > 0 {
        lemma_nav_handles_conserved(state, ops.drop_last());
        lemma_nav_run_wf(state, ops.drop_last());
        let before = run_nav(state, ops.drop_last());
        let after = run_nav(state, ops);
        let realized_before = realized_during(state, ops.drop_last());
        let destroyed_before = destroyed_during(state, ops.drop_last());
        match ops.last() {
            NavOp::Enter(h) => {
                if before is None {
                    assert(handles_of(entered(h)) =~= Seq::<u64>::empty().push(h));
                    assert(alive_handles(after) =~= alive_handles(before).insert(h));
                    assert(realized_during(state, ops) =~= realized_before.insert(h));
                    assert(destroyed_during(state, ops) =~= destroyed_before);
                } else {
                    assert(alive_handles(after) =~= alive_handles(before));
                    assert(realized_during(state, ops) =~= realized_before);
                    assert(destroyed_during(state, ops) =~= destroyed_before);
                }
            },
            NavOp::Push(h) => {
                if let Option::Some(s) = before {
                    assert(handles_of(pushed(s, h)) =~= handles_of(s).push(h));
                    assert(handles_of(s).push(h).to_multiset() =~= handles_of(
                        s,
                    ).to_multiset().insert(h));
                    assert(alive_handles(after) =~= alive_handles(before).insert(h));
                    assert(realized_during(state, ops) =~= realized_before.insert(h));
                    assert(destroyed_during(state, ops) =~= destroyed_before);
                } else {
                    assert(alive_handles(after) =~= alive_handles(before));
                    assert(realized_during(state, ops) =~= realized_before);
                    assert(destroyed_during(state, ops) =~= destroyed_before);
                }
            },
            NavOp::Pop => {
                if let Option::Some(s) = before {
                    let top = s.last().handle;
                    assert(handles_of(s).drop_last().push(handles_of(s).last()) =~= handles_of(
                        s,
                    ));
                    assert(handles_of(s).last() == top);
                    assert(handles_of(s).to_multiset() =~= handles_of(
                        s,
                    ).drop_last().to_multiset().insert(top));
                    if s.len() > 1 {
                        assert(handles_of(popped(s)) =~= handles_of(s).drop_last());
                        assert(alive_handles(before) =~= alive_handles(after).insert(top));
                    } else {
                        assert(handles_of(s).drop_last() =~= Seq::<u64>::empty());
                        assert(alive_handles(before) =~= alive_handles(after).insert(top));
                    }
                    assert(realized_during(state, ops) =~= realized_before);
                    assert(destroyed_during(state, ops) =~= destroyed_before.insert(top));
                    assert(alive_handles(after).add(destroyed_during(state, ops))
                        =~= alive_handles(after).insert(top).add(destroyed_before));
                } else {
                    assert(alive_handles(after) =~= alive_handles(before));
                    assert(realized_during(state, ops) =~= realized_before);
                    assert(destroyed_during(state, ops) =~= destroyed_before);
                }
            },
        }
        let lhs = alive_handles(after).add(destroyed_during(state, ops));
        let rhs = alive_handles(state).add(realized_during(state, ops));
        assert forall|x: u64| lhs.count(x) == rhs.count(x) by {
            assert(alive_handles(before).add(destroyed_before).count(x) == alive_handles(
                state,
            ).add(realized_before).count(x));
        }
        assert(lhs =~= rhs);
    }
}

/// When a run from the inactive state ends inactive again — its last entry
/// popped — no handle remains allocated: the destroyed handles are exactly
/// the realized ones.
pub proof fn lemma_nav_all_destroyed(ops: Seq<NavOp>)
    requires
        run_nav(Option::None, ops) is None,
    ensures
        destroyed_during(Option::None, ops) =~= realized_during(Option::None, ops),
{
    broadcast use vstd::multiset::group_multiset_axioms;

    lemma_nav_handles_conserved(Option::None, ops);
    assert forall|x: u64|
        destroyed_during(Option::None, ops).count(x) == realized_during(
            Option::None,
            ops,
        ).count(x) by {
        assert(alive_handles(run_nav(Option::None, ops)).add(
            destroyed_during(Option::None, ops),
        ).count(x) == alive_handles(Option::None).add(realized_during(Option::None, ops)).count(
            x,
        ));
        assert(alive_handles(run_nav(Option::None, ops)).count(x) == 0);
        assert(alive_handles(Option::None).count(x) == 0);
    }
}

} // verus!
