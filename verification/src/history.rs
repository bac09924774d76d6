//! Undo and redo over snapshots of the state.
use vstd::prelude::*;
use std::collections::VecDeque;
use crate::reducers::{State, StateView};

verus! {

/// The number of snapshots a default history keeps.
pub const DEFAULT_MAX_HISTORY_SIZE: usize = 50;

/// The views of a sequence of snapshots.
pub open spec fn states_view(v: Seq<State>) -> Seq<StateView> {
    v.map_values(|s: State| s@)
}

/// Undo and redo stacks of state snapshots.
#[derive(Debug, Clone)]
pub struct History {
    /// Snapshots that undo returns to, oldest first.
    past: VecDeque<State>,
    /// Snapshots that redo returns to, next first.
    future: VecDeque<State>,
    /// The largest number of snapshots kept in `past`.
    max_size: usize,
}

/// Model of a history.
#[verifier::ext_equal]
pub struct HistoryView {
    pub past: Seq<StateView>,
    pub future: Seq<StateView>,
    pub max_size: nat,
}

impl View for History {
    type V = HistoryView;

    closed spec fn view(&self) -> HistoryView {
        HistoryView {
            past: states_view(self.past@),
            future: states_view(self.future@),
            max_size: self.max_size as nat,
        }
    }
}

/// The two stacks together never hold more snapshots than the limit (a
/// limit of 0 behaves as 1).
pub open spec fn history_wf(h: HistoryView) -> bool {
    h.past.len() + h.future.len() <= h.max_size || h.past.len() + h.future.len() <= 1
}

/// `past` after recording `s` with limit `max`: the oldest snapshot goes when
/// the stack is full.
pub open spec fn pushed_past(past: Seq<StateView>, s: StateView, max: nat) -> Seq<StateView> {
    if past.len() >= max && past.len() > 0 {
        past.drop_first().push(s)
    } else {
        past.push(s)
    }
}

impl History {
    /// An empty history that keeps at most `max_size` snapshots to undo.
    pub fn new(max_size: usize) -> (h: History)
        ensures
            h@ == (HistoryView { past: Seq::empty(), future: Seq::empty(), max_size: max_size as nat }),
            history_wf(h@),
    {
        let h = History { past: VecDeque::new(), future: VecDeque::new(), max_size };
        assert(h@ =~= (HistoryView { past: Seq::empty(), future: Seq::empty(), max_size: max_size as nat }));
        h
    }

    /// Records `state` as the latest snapshot to undo to, and forgets what
    /// could be redone.
    pub fn push(&mut self, state: State)
        requires
            history_wf(old(self)@),
        ensures
            final(self)@ == (HistoryView {
                past: pushed_past(old(self)@.past, state@, old(self)@.max_size),
                future: Seq::empty(),
                ..old(self)@
            }),
            history_wf(final(self)@),
    {
        let ghost s = state@;
        self.future.clear();
        if self.past.len() >= self.max_size {
            let _ = self.past.pop_front();
        }
        self.past.push_back(state);
        proof {
            let p = old(self)@.past;
            if p.len() >= old(self)@.max_size && p.len() > 0 {
                assert(states_view(self.past@) =~= p.drop_first().push(s));
            } else {
                assert(states_view(self.past@) =~= p.push(s));
            }
            assert(states_view(self.future@) =~= Seq::<StateView>::empty());
        }
    }

    /// Steps back: `current` becomes the next snapshot to redo, and the
    /// latest past snapshot is returned; `None` when there is nothing to undo.
    ///
    /// The snapshot returned is the one pushed last, not the one before it.
    /// A store pushes the state it is about to leave before each recorded
    /// change, so the snapshot pushed last is the state just before the latest
    /// change: after two recorded messages, one undo leaves the first message
    /// in place. Returning the snapshot before it would skip a change, and
    /// would leave a single recorded change impossible to undo.
    pub fn undo(&mut self, current: State) -> (r: Option<State>)
        requires
            history_wf(old(self)@),
        ensures
            history_wf(final(self)@),
            old(self)@.past.len() == 0 ==> r is None && final(self)@ == old(self)@,
            old(self)@.past.len() > 0 ==> (r matches Some(p) && p@ == old(self)@.past.last()
                && final(self)@ == (HistoryView {
                past: old(self)@.past.drop_last(),
                future: seq![current@] + old(self)@.future,
                ..old(self)@
            })),
    {
        let ghost c = current@;
        match self.past.pop_back() {
            Some(previous) => {
                self.future.push_front(current);
                proof {
                    assert(states_view(self.past@) =~= old(self)@.past.drop_last());
                    assert(states_view(self.future@) =~= seq![c] + old(self)@.future);
                }
                Some(previous)
            },
            None => None,
        }
    }

    /// Steps forward: `current` becomes the latest past snapshot, and the
    /// next future snapshot is returned; `None` when there is nothing to redo.
    pub fn redo(&mut self, current: State) -> (r: Option<State>)
        requires
            history_wf(old(self)@),
        ensures
            history_wf(final(self)@),
            old(self)@.future.len() == 0 ==> r is None && final(self)@ == old(self)@,
            old(self)@.future.len() > 0 ==> (r matches Some(n) && n@ == old(self)@.future[0]
                && final(self)@ == (HistoryView {
                past: old(self)@.past.push(current@),
                future: old(self)@.future.drop_first(),
                ..old(self)@
            })),
    {
        let ghost c = current@;
        match self.future.pop_front() {
            Some(next) => {
                self.past.push_back(current);
                proof {
                    assert(states_view(self.past@) =~= old(self)@.past.push(c));
                    assert(states_view(self.future@) =~= old(self)@.future.drop_first());
                }
                Some(next)
            },
            None => None,
        }
    }

    /// Whether there is a snapshot to undo to.
    pub fn can_undo(&self) -> (b: bool)
        ensures
            b == (self@.past.len() > 0),
    {
        self.past.len() > 0
    }

    /// Whether there is a snapshot to redo to.
    pub fn can_redo(&self) -> (b: bool)
        ensures
            b == (self@.future.len() > 0),
    {
        self.future.len() > 0
    }

    /// The number of snapshots that can be undone.
    pub fn undo_count(&self) -> (n: usize)
        ensures
            n == self@.past.len(),
    {
        self.past.len()
    }

    /// The number of snapshots that can be redone.
    pub fn redo_count(&self) -> (n: usize)
        ensures
            n == self@.future.len(),
    {
        self.future.len()
    }

    /// Forgets every snapshot.
    pub fn clear(&mut self)
        ensures
            final(self)@ == (HistoryView { past: Seq::empty(), future: Seq::empty(), ..old(self)@ }),
    {
        self.past.clear();
        self.future.clear();
        assert(states_view(self.past@) =~= Seq::<StateView>::empty());
        assert(states_view(self.future@) =~= Seq::<StateView>::empty());
    }

    /// Whether there is nothing to undo or redo.
    pub fn is_empty(&self) -> (b: bool)
        ensures
            b == (self@.past.len() == 0 && self@.future.len() == 0),
    {
        self.past.len() == 0 && self.future.len() == 0
    }
}

impl Default for History {
    fn default() -> (h: History)
        ensures
            h@ == (HistoryView {
                past: Seq::empty(),
                future: Seq::empty(),
                max_size: DEFAULT_MAX_HISTORY_SIZE as nat,
            }),
    {
        History::new(DEFAULT_MAX_HISTORY_SIZE)
    }
}

/// How actions of one kind are recorded.
#[derive(Debug, Clone, Copy)]
pub struct HistoryConfig {
    /// Whether to record this kind of action.
    pub track: bool,
    /// How many states to skip, to group related actions.
    pub skip_count: usize,
}

impl Default for HistoryConfig {
    fn default() -> (c: HistoryConfig)
        ensures
            c.track,
            c.skip_count == 0,
    {
        HistoryConfig { track: true, skip_count: 0 }
    }
}

} // verus!
