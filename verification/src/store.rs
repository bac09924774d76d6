//! The store: the current state, its undo history and the callbacks told of
//! each change.
use vstd::prelude::*;
use std::sync::Arc;
use crate::actions::{Action, InputAction, MessageAction, SessionAction, UiAction};
use crate::history::{history_wf, pushed_past, History, HistoryView, DEFAULT_MAX_HISTORY_SIZE};
use crate::reducer::reduce;
use crate::reducers::{State, StateView};
use crate::invariants::{law_initial_wf, state_ok, state_wf};
use crate::transitions::{can_reduce, flatten, flatten_all, leaves_can, reduces_to, runs};

verus! {

/// A callback told of every change, with the new state and the action.
pub type Subscriber = Arc<dyn Fn(&State, &Action) + Send + Sync>;

/// The handle of a subscription.
pub type SubscriberId = usize;

/// Whether an action is recorded so that it can be undone.
pub open spec fn records(a: Action) -> bool
    decreases a,
{
    match a {
        Action::Undo => false,
        Action::Redo => false,
        Action::Batch(v) => records_any(v@),
        Action::Ui(u) => u is ToggleTheme || u is SetTheme || u is SetMode,
        Action::Message(m) => m is AddMessage || m is DeleteMessage || m is DeleteMessageById
            || m is EditMessage || m is EditMessageById,
        Action::Input(i) => i is SubmitInput,
        Action::Navigation(_) => false,
        Action::Search(_) => false,
        Action::Session(s) => s is NewSession || s is NewSessionWithName || s is DeleteSession
            || s is RenameSession,
        Action::Command(_) => false,
    }
}

/// Whether any of the actions is recorded.
pub open spec fn records_any(acts: Seq<Action>) -> bool
    decreases acts,
{
    if acts.len() == 0 {
        false
    } else {
        records_any(acts.drop_last()) || records(acts.last())
    }
}

/// Whether `action` is recorded so that it can be undone.
pub fn should_record_to_history(action: &Action) -> (b: bool)
    ensures
        b == records(*action),
    decreases action,
{
    match action {
        Action::Undo | Action::Redo => false,
        Action::Batch(actions) => {
            let mut i: usize = 0;
            let mut found = false;
            proof {
                assert(actions@.take(0) =~= Seq::<Action>::empty());
            }
            while i < actions.len() && !found
                invariant
                    *action == Action::Batch(*actions),
                    i <= actions@.len(),
                    found == records_any(actions@.take(i as int)),
                decreases actions@.len() - i,
            {
                assert(decreases_to!(*action => action->Batch_0));
                let r = should_record_to_history(&actions[i]);
                proof {
                    let t = actions@.take(i + 1);
                    assert(t.drop_last() =~= actions@.take(i as int));
                }
                found = r;
                i = i + 1;
            }
            proof {
                if found {
                    lemma_records_any_prefix(actions@, i as int);
                } else {
                    assert(actions@.take(i as int) =~= actions@);
                }
            }
            found
        },
        Action::Ui(u) => match u {
            UiAction::ToggleTheme | UiAction::SetTheme(_) | UiAction::SetMode(_) => true,
            _ => false,
        },
        Action::Message(m) => match m {
            MessageAction::AddMessage(_) | MessageAction::DeleteMessage(_)
            | MessageAction::DeleteMessageById(_) | MessageAction::EditMessage { .. }
            | MessageAction::EditMessageById { .. } => true,
            _ => false,
        },
        Action::Input(i) => match i {
            InputAction::SubmitInput => true,
            _ => false,
        },
        Action::Navigation(_) => false,
        Action::Search(_) => false,
        Action::Session(s) => match s {
            SessionAction::NewSession | SessionAction::NewSessionWithName(_)
            | SessionAction::DeleteSession(_) | SessionAction::RenameSession(_) => true,
            _ => false,
        },
        Action::Command(_) => false,
    }
}

/// Once a prefix holds a recorded action, every longer prefix does.
proof fn lemma_records_any_prefix(v: Seq<Action>, i: int)
    requires
        0 <= i <= v.len(),
        records_any(v.take(i)),
    ensures
        records_any(v),
    decreases v.len() - i,
{
    if i < v.len() {
        let t = v.take(i + 1);
        assert(t.drop_last() =~= v.take(i));
        lemma_records_any_prefix(v, i + 1);
    } else {
        assert(v.take(i) =~= v);
    }
}

/// The identifiers other than `id`, in order.
pub open spec fn without_id(ids: Seq<SubscriberId>, id: SubscriberId) -> Seq<SubscriberId>
    decreases ids.len(),
{
    if ids.len() == 0 {
        ids
    } else if ids.last() == id {
        without_id(ids.drop_last(), id)
    } else {
        without_id(ids.drop_last(), id).push(ids.last())
    }
}

/// The subscriptions of a store, oldest first. Verus cannot move a value of
/// a closure type behind `dyn`, so the list is kept out of its sight; the
/// handles in it and the calls made through it are named below, and the
/// wrappers of its methods say what each does to them.
#[verifier::external_body]
pub struct Subscribers {
    list: Vec<(SubscriberId, Subscriber)>,
}

/// The handles of the subscriptions in a list, oldest first.
pub uninterp spec fn subscriber_ids(s: Subscribers) -> Seq<SubscriberId>;

/// The calls made so far through a list's subscriptions, oldest first: the
/// handle of the subscription called, and the state and action it was given.
pub uninterp spec fn subscriber_calls(s: Subscribers) -> Seq<(SubscriberId, StateView, Action)>;

/// The calls that telling the subscriptions `ids` of state `st` and action
/// `a` makes: one per subscription, oldest first.
pub open spec fn notices(ids: Seq<SubscriberId>, st: StateView, a: Action) -> Seq<(SubscriberId, StateView, Action)> {
    ids.map_values(|id: SubscriberId| (id, st, a))
}

/// Whether a subscription with handle `sub_id` stays when `id` is removed.
fn keeps(sub_id: SubscriberId, id: SubscriberId) -> (b: bool)
    ensures
        b == (sub_id != id),
{
    sub_id != id
}

impl Subscribers {
    /// No subscriptions (`Vec::new`).
    #[verifier::external_body]
    fn new() -> (r: Subscribers)
        ensures
            subscriber_ids(r) == Seq::<SubscriberId>::empty(),
            subscriber_calls(r) == Seq::<(SubscriberId, StateView, Action)>::empty(),
    {
        Subscribers { list: Vec::new() }
    }

    /// Appends a subscription (`Vec::push`).
    #[verifier::external_body]
    fn add<F: Fn(&State, &Action) + Send + Sync + 'static>(&mut self, id: SubscriberId, callback: Arc<F>)
        ensures
            subscriber_ids(*final(self)) == subscriber_ids(*old(self)).push(id),
            subscriber_calls(*final(self)) == subscriber_calls(*old(self)),
    {
        self.list.push((id, callback));
    }

    /// Removes the subscriptions with handle `id`, keeping the order of the
    /// others (`Vec::retain`).
    #[verifier::external_body]
    fn remove(&mut self, id: SubscriberId)
        ensures
            subscriber_ids(*final(self)) == without_id(subscriber_ids(*old(self)), id),
            subscriber_calls(*final(self)) == subscriber_calls(*old(self)),
    {
        self.list.retain(|p| keeps(p.0, id));
    }

    /// Removes every subscription (`Vec::clear`).
    #[verifier::external_body]
    fn clear(&mut self)
        ensures
            subscriber_ids(*final(self)) == Seq::<SubscriberId>::empty(),
            subscriber_calls(*final(self)) == subscriber_calls(*old(self)),
    {
        self.list.clear();
    }

    /// The number of subscriptions (`Vec::len`).
    #[verifier::external_body]
    fn len(&self) -> (n: usize)
        ensures
            n == subscriber_ids(*self).len(),
    {
        self.list.len()
    }

    /// Calls the callback of the `i`-th subscription with `state` and
    /// `action` (`Fn::call`); the call is the one added to the calls made.
    #[verifier::external_body]
    fn call(&mut self, i: usize, state: &State, action: &Action)
        requires
            i < subscriber_ids(*old(self)).len(),
        ensures
            subscriber_ids(*final(self)) == subscriber_ids(*old(self)),
            subscriber_calls(*final(self)) == subscriber_calls(*old(self)).push(
                (subscriber_ids(*old(self))[i as int], state@, *action),
            ),
    {
        (self.list[i].1)(state, action)
    }
}

/// The central store of the application state.
pub struct Store {
    /// The current state.
    state: State,
    /// Snapshots to undo and redo to.
    history: History,
    /// The subscriptions, oldest first.
    subscribers: Subscribers,
    /// The identifier the next subscription gets.
    next_subscriber_id: SubscriberId,
    /// Whether actions are recorded to the history.
    record_history: bool,
}

/// Model of the store.
#[verifier::ext_equal]
pub struct StoreView {
    pub state: StateView,
    pub history: HistoryView,
    pub subscriber_ids: Seq<SubscriberId>,
    pub next_subscriber_id: SubscriberId,
    pub record_history: bool,
    /// The calls made so far to the subscribers, oldest first: the handle
    /// called, and the state and action it was given.
    pub calls: Seq<(SubscriberId, StateView, Action)>,
}

impl View for Store {
    type V = StoreView;

    closed spec fn view(&self) -> StoreView {
        StoreView {
            state: self.state@,
            history: self.history@,
            subscriber_ids: subscriber_ids(self.subscribers),
            next_subscriber_id: self.next_subscriber_id,
            record_history: self.record_history,
            calls: subscriber_calls(self.subscribers),
        }
    }
}

/// The store's invariant.
pub open spec fn store_wf(s: StoreView) -> bool {
    history_wf(s.history)
}

/// Every action can run on the current state and on every snapshot, and
/// keeps that so.
pub open spec fn store_ok(s: StoreView) -> bool {
    &&& state_ok(s.state)
    &&& forall|i: int| 0 <= i < s.history.past.len() ==> state_ok(#[trigger] s.history.past[i])
    &&& forall|i: int| 0 <= i < s.history.future.len() ==> state_ok(#[trigger] s.history.future[i])
}

/// The current state and every snapshot are well formed.
pub open spec fn store_sound(s: StoreView) -> bool {
    &&& state_wf(s.state)
    &&& forall|i: int| 0 <= i < s.history.past.len() ==> state_wf(#[trigger] s.history.past[i])
    &&& forall|i: int| 0 <= i < s.history.future.len() ==> state_wf(#[trigger] s.history.future[i])
}

/// A fresh store around `state` with an empty default history.
pub open spec fn store_with(state: StateView) -> StoreView {
    StoreView {
        state,
        history: HistoryView {
            past: Seq::empty(),
            future: Seq::empty(),
            max_size: DEFAULT_MAX_HISTORY_SIZE as nat,
        },
        subscriber_ids: Seq::empty(),
        next_subscriber_id: 0,
        record_history: true,
        calls: Seq::empty(),
    }
}

/// The history after recording the current state, when the store records `a`.
pub open spec fn recorded(s: StoreView, a: Action) -> HistoryView {
    if s.record_history && records(a) {
        HistoryView {
            past: pushed_past(s.history.past, s.state, s.history.max_size),
            future: Seq::empty(),
            ..s.history
        }
    } else {
        s.history
    }
}

/// The calls made so far, followed by one call per subscriber, oldest first,
/// with state `st` and action `a`.
pub open spec fn told(s: StoreView, st: StateView, a: Action) -> Seq<(SubscriberId, StateView, Action)> {
    s.calls + notices(s.subscriber_ids, st, a)
}

/// What dispatching `a` does to the store: undo and redo move between
/// snapshots, any other action is recorded when it should be and applied;
/// every subscriber is then called once, oldest first, with the new state and
/// `a`. Undo and redo with nothing to move to change nothing and call no one.
pub open spec fn dispatch_step(s: StoreView, a: Action, r: StoreView) -> bool {
    let h = s.history;
    match a {
        Action::Undo => if h.past.len() > 0 {
            r == StoreView {
                state: h.past.last(),
                history: HistoryView {
                    past: h.past.drop_last(),
                    future: seq![s.state] + h.future,
                    ..h
                },
                calls: told(s, h.past.last(), a),
                ..s
            }
        } else {
            r == s
        },
        Action::Redo => if h.future.len() > 0 {
            r == StoreView {
                state: h.future[0],
                history: HistoryView { past: h.past.push(s.state), future: h.future.drop_first(), ..h },
                calls: told(s, h.future[0], a),
                ..s
            }
        } else {
            r == s
        },
        _ => {
            &&& reduces_to(s.state, a, r.state)
            &&& r == StoreView { state: r.state, history: recorded(s, a), calls: told(s, r.state, a), ..s }
        },
    }
}

/// What a batch dispatched at once does: the state before it is recorded (when
/// the store records at all), its actions are applied in order, and every
/// subscriber is called once, oldest first, with the new state and an empty
/// batch. Nothing happens for no actions.
pub open spec fn batch_step(s: StoreView, acts: Seq<Action>, r: StoreView) -> bool {
    if acts.len() == 0 {
        r == s
    } else {
        &&& exists|sts: Seq<StateView>| #[trigger] runs(s.state, flatten_all(acts), sts) && sts.last() == r.state
        &&& exists|b: Action| (b matches Action::Batch(v) && v@.len() == 0) && r == StoreView {
            state: r.state,
            history: if s.record_history {
                HistoryView {
                    past: pushed_past(s.history.past, s.state, s.history.max_size),
                    future: Seq::empty(),
                    ..s.history
                }
            } else {
                s.history
            },
            calls: #[trigger] told(s, r.state, b),
            ..s
        }
    }
}

/// `sts` lists the stores that dispatching `acts` in order to `s` passes through.
pub open spec fn dispatch_runs(s: StoreView, acts: Seq<Action>, sts: Seq<StoreView>) -> bool {
    &&& sts.len() == acts.len() + 1
    &&& sts[0] == s
    &&& forall|i: int| 0 <= i < acts.len() ==> dispatch_step(sts[i], #[trigger] acts[i], sts[i + 1])
}

/// `r` is a possible store after dispatching `acts` in order to `s`.
pub open spec fn dispatches(s: StoreView, acts: Seq<Action>, r: StoreView) -> bool {
    exists|sts: Seq<StoreView>| #[trigger] dispatch_runs(s, acts, sts) && sts.last() == r
}

/// Dispatching nothing leaves the store as it is.
pub proof fn lemma_dispatches_none(s: StoreView)
    ensures
        dispatches(s, Seq::empty(), s),
{
    assert(dispatch_runs(s, Seq::empty(), seq![s]));
}

/// Dispatching one more action.
pub proof fn lemma_dispatches_push(s: StoreView, acts: Seq<Action>, m: StoreView, a: Action, r: StoreView)
    requires
        dispatches(s, acts, m),
        dispatch_step(m, a, r),
    ensures
        dispatches(s, acts.push(a), r),
{
    let sts = choose|sts: Seq<StoreView>| #[trigger] dispatch_runs(s, acts, sts) && sts.last() == m;
    let sts2 = sts.push(r);
    let acts2 = acts.push(a);
    assert forall|i: int| 0 <= i < acts2.len() implies dispatch_step(sts2[i], #[trigger] acts2[i], sts2[i + 1]) by {
        if i < acts.len() {
            assert(dispatch_step(sts[i], acts[i], sts[i + 1]));
        }
    }
    assert(dispatch_runs(s, acts2, sts2));
}

impl Store {
    /// A store around a fresh state.
    pub fn new() -> (st: Store)
        ensures
            st@ == store_with(st@.state),
            st@.state == crate::reducers::initial_state(st@.state.current_session, crate::reducers::Theme::Light),
            crate::reducers::is_fresh_session(st@.state.current_session, None),
            store_wf(st@),
            store_sound(st@),
            store_ok(st@),
    {
        let state = State::new();
        proof {
            law_initial_wf(state@.current_session, crate::reducers::Theme::Light);
        }
        Store::with_state(state)
    }

    /// A store around `state`.
    pub fn with_state(state: State) -> (st: Store)
        ensures
            st@ == store_with(state@),
            store_wf(st@),
            store_sound(st@) == state_wf(state@),
            store_ok(st@) == state_ok(state@),
    {
        let st = Store {
            state,
            history: History::default(),
            subscribers: Subscribers::new(),
            next_subscriber_id: 0,
            record_history: true,
        };
        assert(st@ =~= store_with(state@));
        st
    }

    /// The current state.
    pub fn state(&self) -> (r: &State)
        ensures
            r@ == self@.state,
    {
        &self.state
    }

    /// A copy of the current state.
    pub fn get_state(&self) -> (r: State)
        ensures
            r@ == self@.state,
    {
        self.state.duplicate()
    }

    /// Tells every subscriber, oldest first, of the current state and `action`.
    fn notify_subscribers(&mut self, action: &Action)
        ensures
            final(self)@ == (StoreView { calls: told(old(self)@, old(self)@.state, *action), ..old(self)@ }),
    {
        let n = self.subscribers.len();
        let ghost ids = subscriber_ids(self.subscribers);
        let ghost st = self.state@;
        let mut i: usize = 0;
        assert(ids.take(0) =~= Seq::<SubscriberId>::empty());
        assert(old(self)@.calls + notices(ids.take(0), st, *action) =~= old(self)@.calls);
        while i < n
            invariant
                n == ids.len(),
                i <= n,
                self@ == (StoreView { calls: old(self)@.calls + notices(ids.take(i as int), st, *action), ..old(self)@ }),
                ids == old(self)@.subscriber_ids,
                st == old(self)@.state,
            decreases n - i,
        {
            self.subscribers.call(i, &self.state, action);
            proof {
                let t = ids.take(i + 1);
                assert(t.drop_last() =~= ids.take(i as int));
                assert(self@.calls =~= old(self)@.calls + notices(t, st, *action));
            }
            i = i + 1;
        }
        assert(ids.take(n as int) =~= ids);
        assert(self@ =~= StoreView { calls: told(old(self)@, old(self)@.state, *action), ..old(self)@ });
    }

    /// Dispatches `action`: undo and redo move between snapshots; any other
    /// action is recorded when it should be, then applied. Every subscriber
    /// is then called once, oldest first, with the new state and `action`;
    /// undo and redo with nothing to move to call no one.
    pub fn dispatch(&mut self, action: Action)
        requires
            store_wf(old(self)@),
            can_reduce(old(self)@.state, action),
        ensures
            store_wf(final(self)@),
            dispatch_step(old(self)@, action, final(self)@),
            store_sound(old(self)@) ==> store_sound(final(self)@),
            store_ok(old(self)@) ==> store_ok(final(self)@),
    {
        match &action {
            Action::Undo => {
                let current = self.state.duplicate();
                if let Some(previous) = self.history.undo(current) {
                    self.state = previous;
                    assert(self@ =~= StoreView {
                        state: old(self)@.history.past.last(),
                        history: HistoryView {
                            past: old(self)@.history.past.drop_last(),
                            future: seq![old(self)@.state] + old(self)@.history.future,
                            ..old(self)@.history
                        },
                        ..old(self)@
                    });
                    self.notify_subscribers(&action);
                }
                return ;
            },
            Action::Redo => {
                let current = self.state.duplicate();
                if let Some(next) = self.history.redo(current) {
                    self.state = next;
                    assert(self@ =~= StoreView {
                        state: old(self)@.history.future[0],
                        history: HistoryView {
                            past: old(self)@.history.past.push(old(self)@.state),
                            future: old(self)@.history.future.drop_first(),
                            ..old(self)@.history
                        },
                        ..old(self)@
                    });
                    self.notify_subscribers(&action);
                }
                return ;
            },
            _ => {},
        }
        if self.record_history && should_record_to_history(&action) {
            let snapshot = self.state.duplicate();
            self.history.push(snapshot);
        }
        let current = self.state.duplicate();
        self.state = reduce(current, &action);
        assert(self@ =~= StoreView { state: self@.state, history: recorded(old(self)@, action), ..old(self)@ });
        self.notify_subscribers(&action);
    }

    /// Subscribes `callback` to every change; returns the handle to unsubscribe it.
    pub fn subscribe<F: Fn(&State, &Action) + Send + Sync + 'static>(&mut self, callback: Arc<F>) -> (id: SubscriberId)
        requires
            old(self)@.next_subscriber_id < usize::MAX,
        ensures
            id == old(self)@.next_subscriber_id,
            final(self)@ == (StoreView {
                subscriber_ids: old(self)@.subscriber_ids.push(id),
                next_subscriber_id: (id + 1) as usize,
                ..old(self)@
            }),
    {
        let id = self.next_subscriber_id;
        self.next_subscriber_id = self.next_subscriber_id + 1;
        self.subscribers.add(id, callback);
        id
    }

    /// Removes every subscription with handle `id`.
    pub fn unsubscribe(&mut self, id: SubscriberId)
        ensures
            final(self)@ == (StoreView { subscriber_ids: without_id(old(self)@.subscriber_ids, id), ..old(self)@ }),
    {
        self.subscribers.remove(id);
    }

    /// Removes every subscription.
    pub fn clear_subscribers(&mut self)
        ensures
            final(self)@ == (StoreView { subscriber_ids: Seq::empty(), ..old(self)@ }),
    {
        self.subscribers.clear();
    }

    /// Whether there is a state to undo to.
    pub fn can_undo(&self) -> (b: bool)
        ensures
            b == (self@.history.past.len() > 0),
    {
        self.history.can_undo()
    }

    /// Whether there is a state to redo to.
    pub fn can_redo(&self) -> (b: bool)
        ensures
            b == (self@.history.future.len() > 0),
    {
        self.history.can_redo()
    }

    /// The number of states that can be undone.
    pub fn undo_count(&self) -> (n: usize)
        ensures
            n == self@.history.past.len(),
    {
        self.history.undo_count()
    }

    /// The number of states that can be redone.
    pub fn redo_count(&self) -> (n: usize)
        ensures
            n == self@.history.future.len(),
    {
        self.history.redo_count()
    }

    /// Forgets every snapshot.
    pub fn clear_history(&mut self)
        ensures
            final(self)@ == (StoreView {
                history: HistoryView { past: Seq::empty(), future: Seq::empty(), ..old(self)@.history },
                ..old(self)@
            }),
            store_wf(final(self)@),
    {
        self.history.clear();
    }

    /// Applies `actions` in order as one change: the state before them is
    /// recorded once (when the store records), and every subscriber is called
    /// once, oldest first, with the new state and an empty batch. Nothing
    /// happens for no actions.
    pub fn dispatch_batch(&mut self, actions: Vec<Action>)
        requires
            store_wf(old(self)@),
            leaves_can(old(self)@.state, flatten_all(actions@)),
        ensures
            store_wf(final(self)@),
            batch_step(old(self)@, actions@, final(self)@),
            store_sound(old(self)@) ==> store_sound(final(self)@),
            store_ok(old(self)@) ==> store_ok(final(self)@),
    {
        if actions.len() == 0 {
            return ;
        }
        if self.record_history {
            let snapshot = self.state.duplicate();
            self.history.push(snapshot);
        }
        let ghost acts = actions@;
        let batch = Action::Batch(actions);
        assert(flatten(batch) == flatten_all(acts));
        let current = self.state.duplicate();
        self.state = reduce(current, &batch);
        assert(self@ =~= StoreView {
            state: self@.state,
            history: if old(self)@.record_history {
                HistoryView {
                    past: pushed_past(old(self)@.history.past, old(self)@.state, old(self)@.history.max_size),
                    future: Seq::empty(),
                    ..old(self)@.history
                }
            } else {
                old(self)@.history
            },
            ..old(self)@
        });
        let empty = Action::batch(Vec::new());
        let ghost mid = self@;
        self.notify_subscribers(&empty);
        assert(self@ == StoreView { calls: told(old(self)@, self@.state, empty), ..mid });
    }

    /// Runs `f` on the store with recording to the history turned off, then
    /// turns it back to what it was; returns what `f` returns. The store
    /// afterwards is what `f` left, with the recording setting restored.
    pub fn without_history<R, F: FnOnce(&mut Store) -> R>(&mut self, f: F) -> (r: R)
        requires
            (forall|s: &mut Store| f.requires((s,))),
        ensures
            final(self)@.record_history == old(self)@.record_history,
            exists|m: &mut Store| #[trigger] f.ensures((m,), r)
                && (*m)@ == (StoreView { record_history: false, ..old(self)@ })
                && final(self)@ == (StoreView { record_history: old(self)@.record_history, ..(*final(m))@ }),
    {
        let prev = self.record_history;
        self.record_history = false;
        assert(self@ == StoreView { record_history: false, ..old(self)@ });
        let ghost before = *self;
        let result = f(self);
        let ghost mid = *self;
        proof {
            assert(exists|m: &mut Store| #[trigger] f.ensures((m,), result) && *m == before && *final(m) == mid);
        }
        self.record_history = prev;
        assert(self@ == StoreView { record_history: old(self)@.record_history, ..mid@ });
        result
    }

    /// Whether actions are recorded to the history.
    pub fn is_recording(&self) -> (b: bool)
        ensures
            b == self@.record_history,
    {
        self.record_history
    }

    /// Turns recording to the history on or off; returns the earlier setting.
    pub fn set_recording(&mut self, on: bool) -> (prev: bool)
        ensures
            prev == old(self)@.record_history,
            final(self)@ == (StoreView { record_history: on, ..old(self)@ }),
    {
        let prev = self.record_history;
        self.record_history = on;
        prev
    }
}

impl Default for Store {
    fn default() -> (st: Store)
        ensures
            st@ == store_with(st@.state),
            store_wf(st@),
            store_sound(st@),
            store_ok(st@),
    {
        Store::new()
    }
}

} // verus!
