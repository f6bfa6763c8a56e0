//! Operators' results and the buffer in which an operator run records its undoable
//! commands.

use vstd::prelude::*;

verus! {

/// How an operator run ended.
#[derive(Clone, Copy, PartialEq, Eq, Structural, Debug)]
pub enum OperatorResult {
    /// Finished: its recorded commands become one undo entry.
    Finished,
    /// Cancelled: its recorded commands are dropped.
    Cancelled,
    /// Still running (modal); for now treated like `Finished`.
    Running,
}

/// An undoable editor command that runs against a world of type `W`.
pub trait EditorCommand<W>: Sized {
    /// The command and the world after the command is applied to `world`.
    spec fn execute_spec(&self, world: W) -> (Self, W);

    /// Applies the command to the world.
    fn execute(&mut self, world: &mut W)
        ensures
            (*final(self), *final(world)) == old(self).execute_spec(*old(world)),
    ;
}

/// The commands an operator run records for undo, and whether the run makes a history
/// entry.
pub struct OperatorCommandBuffer<C> {
    recorded: Vec<C>,
    creates_history_entry: bool,
}

impl<C> OperatorCommandBuffer<C> {
    /// The recorded commands, oldest first.
    pub closed spec fn recorded(&self) -> Seq<C> {
        self.recorded@
    }

    /// Whether the current run makes a history entry.
    pub closed spec fn makes_entry(&self) -> bool {
        self.creates_history_entry
    }

    /// The recorded commands and whether the run makes a history entry.
    pub open spec fn state(&self) -> (Seq<C>, bool) {
        (self.recorded(), self.makes_entry())
    }

    /// An empty buffer that makes no history entry.
    pub fn new() -> (r: Self)
        ensures
            r.recorded() == Seq::<C>::empty(),
            !r.makes_entry(),
    {
        OperatorCommandBuffer { recorded: Vec::new(), creates_history_entry: false }
    }

    /// Records an already-executed command for undo.
    pub fn record(&mut self, cmd: C)
        ensures
            final(self).recorded() == old(self).recorded().push(cmd),
            final(self).makes_entry() == old(self).makes_entry(),
            final(self).state() == recorded_state(old(self).state(), cmd),
    {
        self.recorded.push(cmd);
    }

    /// Executes a command against the world, then records it for undo.
    pub fn execute_and_record<W>(&mut self, cmd: C, world: &mut W)
        where C: EditorCommand<W>,
        ensures
            final(self).recorded() == old(self).recorded().push(cmd.execute_spec(*old(world)).0),
            *final(world) == cmd.execute_spec(*old(world)).1,
            final(self).makes_entry() == old(self).makes_entry(),
    {
        let mut cmd = cmd;
        cmd.execute(world);
        self.recorded.push(cmd);
    }

    /// Readies the buffer for a run: drops what is recorded and sets whether the run makes
    /// a history entry.
    pub fn prepare(&mut self, creates_history_entry: bool)
        ensures
            final(self).recorded() == Seq::<C>::empty(),
            final(self).makes_entry() == creates_history_entry,
            final(self).state() == prepared_state::<C>(creates_history_entry),
    {
        self.recorded.clear();
        self.creates_history_entry = creates_history_entry;
    }

    /// Hands out the recorded commands and whether they make a history entry, and leaves
    /// the buffer empty and making no entry.
    pub fn take(&mut self) -> (r: (Vec<C>, bool))
        ensures
            r.0@ == old(self).recorded(),
            r.1 == old(self).makes_entry(),
            final(self).recorded() == Seq::<C>::empty(),
            !final(self).makes_entry(),
            (r.0@, r.1) == take_state(old(self).state()).0,
            final(self).state() == take_state(old(self).state()).1,
    {
        let mut recorded = Vec::new();
        std::mem::swap(&mut recorded, &mut self.recorded);
        let creates_history = self.creates_history_entry;
        self.creates_history_entry = false;
        (recorded, creates_history)
    }

    /// Whether the current run makes a history entry.
    pub fn creates_history_entry(&self) -> (r: bool)
        ensures
            r == self.makes_entry(),
    {
        self.creates_history_entry
    }
}

/// The buffer's state after readying it for a run.
pub open spec fn prepared_state<C>(creates_history_entry: bool) -> (Seq<C>, bool) {
    (Seq::empty(), creates_history_entry)
}

/// The buffer's state after recording `cmd`.
pub open spec fn recorded_state<C>(st: (Seq<C>, bool), cmd: C) -> (Seq<C>, bool) {
    (st.0.push(cmd), st.1)
}

/// The buffer's state after recording each of `cs`, in order.
pub open spec fn records_state<C>(st: (Seq<C>, bool), cs: Seq<C>) -> (Seq<C>, bool)
    decreases cs.len(),
{
    if cs.len() == 0 {
        st
    } else {
        recorded_state(records_state(st, cs.drop_last()), cs.last())
    }
}

/// What a take hands out, and the buffer's state after it.
pub open spec fn take_state<C>(st: (Seq<C>, bool)) -> ((Seq<C>, bool), (Seq<C>, bool)) {
    (st, (Seq::empty(), false))
}

/// A run that is readied and then records commands hands out exactly those commands, in
/// record order, with the history flag it was readied with; a second take then hands
/// out nothing and no history entry.
pub proof fn law_take_after_records<C>(cs: Seq<C>, creates_history_entry: bool)
    ensures
        take_state(records_state(prepared_state::<C>(creates_history_entry), cs)).0 == (cs, creates_history_entry),
        take_state(take_state(records_state(prepared_state::<C>(creates_history_entry), cs)).1).0
            == (Seq::<C>::empty(), false),
    decreases cs.len(),
{
    if cs.len() > 0 {
        law_take_after_records(cs.drop_last(), creates_history_entry);
        assert(cs.drop_last().push(cs.last()) =~= cs);
    } else {
        assert(cs =~= Seq::<C>::empty());
    }
}

} // verus!
