//! Which of the events the system reports about the download folder count as a change to it,
//! and when a burst of them has ended: each change starts, or restarts, a quiet spell, and the
//! window is told once when one runs out.

use vstd::prelude::*;

verus! {

/// What the system says happened to something in the folder, as the watcher names it.
#[derive(Clone, Copy, Debug, PartialEq, Eq, Structural)]
pub enum Change {
    Create,
    Remove,
    /// The contents were written.
    ModifyData,
    /// It was renamed.
    ModifyName,
    /// It was changed in a way the platform does not name.
    ModifyAny,
    /// Its metadata alone changed.
    ModifyMetadata,
    ModifyOther,
    /// It was read or opened.
    Access,
    /// The platform's catch-all.
    Any,
    Other,
}

/// A change that counts: creation, a write to the contents or a rename, removal. Not an
/// access, not a change to metadata alone, not the catch-all the platform sends for things it
/// cannot name.
pub open spec fn counts(change: Change) -> bool {
    change == Change::Create || change == Change::Remove || change == Change::ModifyData
        || change == Change::ModifyName || change == Change::ModifyAny
}

/// Whether an event counts as a change to the folder.
pub fn matters(change: Change) -> (r: bool)
    ensures
        r == counts(change),
{
    match change {
        Change::Create | Change::Remove => true,
        Change::ModifyData | Change::ModifyName | Change::ModifyAny => true,
        Change::ModifyMetadata | Change::ModifyOther => false,
        Change::Access | Change::Any | Change::Other => false,
    }
}

/// Where the watch stands between changes.
#[derive(Clone, Copy, Debug, PartialEq, Eq, Structural)]
pub enum Quiet {
    /// Nothing has changed since the window was last told: wait for a change, however long.
    Idle,
    /// Something changed: wait for the folder to be quiet for the quiet spell.
    Waiting,
}

/// What the wait for the next change ended with.
#[derive(Clone, Copy, Debug, PartialEq, Eq, Structural)]
pub enum Heard {
    /// A change that counts.
    Change,
    /// The quiet spell ran out with no change.
    Quiet,
    /// The watch was dropped.
    Closed,
}

/// What to do next.
#[derive(Clone, Copy, Debug, PartialEq, Eq, Structural)]
pub enum Then {
    /// Wait for a change, however long.
    Listen,
    /// Wait for a change for the quiet spell.
    Wait,
    /// Tell the window that the folder changed, then listen.
    Signal,
    /// Stop watching.
    Stop,
}

/// The next state and what to do, given what the last wait ended with.
pub open spec fn step(state: Quiet, heard: Heard) -> (Quiet, Then) {
    match heard {
        Heard::Closed => (state, Then::Stop),
        Heard::Change => (Quiet::Waiting, Then::Wait),
        Heard::Quiet => match state {
            Quiet::Waiting => (Quiet::Idle, Then::Signal),
            Quiet::Idle => (Quiet::Idle, Then::Listen),
        },
    }
}

/// Each change starts, or restarts, the quiet spell; the signal goes out when one runs out
/// after a change; the watch ends when it is dropped.
pub fn debounce_step(state: Quiet, heard: Heard) -> (r: (Quiet, Then))
    ensures
        r == step(state, heard),
{
    match heard {
        Heard::Closed => (state, Then::Stop),
        Heard::Change => (Quiet::Waiting, Then::Wait),
        Heard::Quiet => match state {
            Quiet::Waiting => (Quiet::Idle, Then::Signal),
            Quiet::Idle => (Quiet::Idle, Then::Listen),
        },
    }
}

/// The state after hearing a run of things, one after another.
pub open spec fn after(state: Quiet, run: Seq<Heard>) -> Quiet
    decreases run.len(),
{
    if run.len() == 0 {
        state
    } else {
        step(after(state, run.drop_last()), run.last()).0
    }
}

/// How many signals a run of things gives.
pub open spec fn signals(state: Quiet, run: Seq<Heard>) -> nat
    decreases run.len(),
{
    if run.len() == 0 {
        0
    } else {
        signals(state, run.drop_last()) + if step(after(state, run.drop_last()), run.last()).1
            == Then::Signal {
            1nat
        } else {
            0nat
        }
    }
}

proof fn lemma_changes_wait(state: Quiet, n: nat)
    requires
        n >= 1,
    ensures
        after(state, Seq::new(n, |i: int| Heard::Change)) == Quiet::Waiting,
        signals(state, Seq::new(n, |i: int| Heard::Change)) == 0,
    decreases n,
{
    let run = Seq::new(n, |i: int| Heard::Change);
    if n > 1 {
        lemma_changes_wait(state, (n - 1) as nat);
        assert(run.drop_last() =~= Seq::new((n - 1) as nat, |i: int| Heard::Change));
    } else {
        assert(run.drop_last() =~= Seq::<Heard>::empty());
        assert(signals(state, Seq::<Heard>::empty()) == 0);
        assert(after(state, Seq::<Heard>::empty()) == state);
    }
    assert(run.last() == Heard::Change);
}

/// One burst, one signal: however many changes come one after another, the quiet spell that
/// follows them tells the window once, and the watch is back to waiting for the next.
pub proof fn law_one_burst_is_one_signal(n: nat)
    requires
        n >= 1,
    ensures
        signals(Quiet::Idle, Seq::new(n, |i: int| Heard::Change).push(Heard::Quiet)) == 1,
        after(Quiet::Idle, Seq::new(n, |i: int| Heard::Change).push(Heard::Quiet)) == Quiet::Idle,
{
    let burst = Seq::new(n, |i: int| Heard::Change);
    lemma_changes_wait(Quiet::Idle, n);
    assert(burst.push(Heard::Quiet).drop_last() =~= burst);
}

/// Quiet is nothing: a watch that has heard no change never tells the window anything,
/// however long it waits.
pub proof fn law_quiet_is_no_signal(n: nat)
    ensures
        signals(Quiet::Idle, Seq::new(n, |i: int| Heard::Quiet)) == 0,
        after(Quiet::Idle, Seq::new(n, |i: int| Heard::Quiet)) == Quiet::Idle,
    decreases n,
{
    let run = Seq::new(n, |i: int| Heard::Quiet);
    if n > 0 {
        law_quiet_is_no_signal((n - 1) as nat);
        assert(run.drop_last() =~= Seq::new((n - 1) as nat, |i: int| Heard::Quiet));
    }
}


/// What changes the folder counts, and nothing else does: a file made, removed, written to or
/// renamed -- a finished download's temporary file taking its name among them -- or changed in
/// a way the platform does not name; not a read, not a change to metadata alone, not an
/// unnamed other kind, not the catch-all.
pub proof fn law_what_changes_the_folder_counts()
    ensures
        counts(Change::Create),
        counts(Change::Remove),
        counts(Change::ModifyData),
        counts(Change::ModifyName),
        counts(Change::ModifyAny),
        !counts(Change::ModifyMetadata),
        !counts(Change::ModifyOther),
        !counts(Change::Access),
        !counts(Change::Any),
        !counts(Change::Other),
{
}

} // verus!
