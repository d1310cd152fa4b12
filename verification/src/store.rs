//! The captures of all controls, kept apart by the identity of each
//! control.

use crate::keycodes::KeyCode;
use crate::widget::{
    activate_step, poll_step, resolve_step, update_step, EscapeChoice, FrameInput, FrameOutput,
    KeyBindWidgetState, SessionView,
};
use crate::{KeyBind, KeyBindView};
use std::collections::HashMap;
use vstd::prelude::*;

verus! {

broadcast use vstd::std_specs::hash::group_hash_axioms;

/// The capture that `sessions` keeps for the control `id`: the one
/// stored under `id`, or an idle one where none is stored.
pub open spec fn session_of(sessions: Map<u64, SessionView>, id: u64) -> SessionView {
    if sessions.contains_key(id) {
        sessions[id]
    } else {
        SessionView::idle()
    }
}

/// `sessions` after the capture of the control `id` became `session`.
/// Idle captures are not kept.
pub open spec fn put(sessions: Map<u64, SessionView>, id: u64, session: SessionView) -> Map<
    u64,
    SessionView,
> {
    if session.state is Idle {
        sessions.remove(id)
    } else {
        sessions.insert(id, session)
    }
}

/// Every capture that is kept is under way and well formed.
pub open spec fn all_under_way(sessions: Map<u64, SessionView>) -> bool {
    forall|id: u64| #[trigger]
        sessions.contains_key(id) ==> sessions[id].well_formed() && !(sessions[id].state is Idle)
}

/// What happens to the capture of one control touches the capture of no
/// other: after `put` every other control finds the capture it had,
/// and the control itself finds the one that was put.
pub proof fn lemma_put_is_local(
    sessions: Map<u64, SessionView>,
    id: u64,
    session: SessionView,
    other: u64,
)
    requires
        session.well_formed(),
    ensures
        session_of(put(sessions, id, session), id) == session,
        other != id ==> session_of(put(sessions, id, session), other) == session_of(
            sessions,
            other,
        ),
        other != id ==> (put(sessions, id, session).contains_key(other) <==> sessions.contains_key(
            other,
        )),
        all_under_way(sessions) ==> all_under_way(put(sessions, id, session)),
{
}

/// What happens to two different controls can be told in either order.
pub proof fn lemma_puts_commute(
    sessions: Map<u64, SessionView>,
    id: u64,
    session: SessionView,
    other: u64,
    other_session: SessionView,
)
    requires
        id != other,
    ensures
        put(put(sessions, id, session), other, other_session) == put(
            put(sessions, other, other_session),
            id,
            session,
        ),
{
    assert(put(put(sessions, id, session), other, other_session) =~= put(
        put(sessions, other, other_session),
        id,
        session,
    ));
}

/// The captures of all controls, each under the identity of its control.
#[derive(Debug)]
pub struct SessionStore {
    sessions: HashMap<u64, KeyBindWidgetState>,
}

impl View for SessionStore {
    type V = Map<u64, SessionView>;

    closed spec fn view(&self) -> Map<u64, SessionView> {
        self.sessions@.map_values(|state: KeyBindWidgetState| state@)
    }
}

impl SessionStore {
    #[verifier::type_invariant]
    spec fn holds_together(self) -> bool {
        all_under_way(self@)
    }

    /// A store in which every control is idle.
    pub fn new() -> (store: Self)
        ensures
            store@ == Map::<u64, SessionView>::empty(),
            all_under_way(store@),
    {
        let store = Self { sessions: HashMap::new() };
        assert(store@ =~= Map::<u64, SessionView>::empty());
        store
    }

    /// Takes the capture of the control `id` out of the store.
    fn take(&mut self, id: u64) -> (state: KeyBindWidgetState)
        ensures
            state@ == session_of(old(self)@, id),
            state@.well_formed(),
            final(self)@ == old(self)@.remove(id),
    {
        proof {
            use_type_invariant(&*self);
        }
        let mut emptied = Self::new();
        core::mem::swap(self, &mut emptied);
        let Self { mut sessions } = emptied;
        let found = sessions.remove(&id);
        proof {
            let left = sessions@.map_values(|state: KeyBindWidgetState| state@);
            assert(left =~= old(self)@.remove(id));
            lemma_put_is_local(old(self)@, id, SessionView::idle(), id);
        }
        *self = Self { sessions };
        match found {
            Some(state) => state,
            None => KeyBindWidgetState::new(),
        }
    }

    /// Puts the capture of the control `id` back. An idle one is dropped.
    fn keep(&mut self, id: u64, state: KeyBindWidgetState)
        requires
            !old(self)@.contains_key(id),
            state@.well_formed(),
        ensures
            final(self)@ == put(old(self)@, id, state@),
    {
        proof {
            use_type_invariant(&*self);
        }
        if state.needs_frequent_polling() {
            let mut emptied = Self::new();
            core::mem::swap(self, &mut emptied);
            let Self { mut sessions } = emptied;
            sessions.insert(id, state);
            proof {
                let grown = sessions@.map_values(|state: KeyBindWidgetState| state@);
                assert(grown =~= old(self)@.insert(id, state@));
                lemma_put_is_local(old(self)@, id, state@, id);
            }
            *self = Self { sessions };
        } else {
            assert(old(self)@.remove(id) =~= old(self)@);
        }
    }

    /// A copy of the capture of the control `id`.
    pub fn session(&self, id: u64) -> (state: KeyBindWidgetState)
        ensures
            state@ == session_of(self@, id),
            all_under_way(self@),
    {
        proof {
            use_type_invariant(self);
        }
        match self.sessions.get(&id) {
            Some(state) => state.clone(),
            None => KeyBindWidgetState::new(),
        }
    }

    /// Whether the control `id` is armed and takes in key edges.
    pub fn is_listening(&self, id: u64) -> (listening: bool)
        ensures
            listening == (session_of(self@, id).state is Listening),
    {
        match self.sessions.get(&id) {
            Some(state) => state.is_listening(),
            None => false,
        }
    }

    /// Whether the capture of the control `id` waits for a decision on
    /// Escape.
    pub fn is_awaiting_escape_decision(&self, id: u64) -> (awaiting: bool)
        ensures
            awaiting == (session_of(self@, id).state is AwaitingEscapeDecision),
    {
        match self.sessions.get(&id) {
            Some(state) => state.is_awaiting_escape_decision(),
            None => false,
        }
    }

    /// Whether the host has to keep polling although no input event
    /// arrives: so it is while the capture of any control is under way.
    pub fn needs_frequent_polling(&self) -> (needed: bool)
        ensures
            needed == exists|id: u64| !(#[trigger] session_of(self@, id).state is Idle),
    {
        proof {
            use_type_invariant(self);
        }
        let none = self.sessions.is_empty();
        proof {
            if none {
                assert forall|id: u64| #[trigger] session_of(self@, id).state is Idle by {
                    assert(!self.sessions@.dom().contains(id));
                }
            } else {
                let id = choose|id: u64| self.sessions@.dom().contains(id);
                assert(self@.contains_key(id));
                assert(!(session_of(self@, id).state is Idle));
            }
        }
        !none
    }

    /// Arms the control `id` if it is idle; see
    /// `KeyBindWidgetState::activate`.
    pub fn activate(&mut self, id: u64, keys_held: Vec<KeyCode>) -> (armed: bool)
        ensures
            armed == (session_of(old(self)@, id).state is Idle),
            final(self)@ == put(
                old(self)@,
                id,
                activate_step(session_of(old(self)@, id), keys_held@),
            ),
            all_under_way(final(self)@),
    {
        let mut state = self.take(id);
        let armed = state.activate(keys_held);
        self.keep(id, state);
        assert(final(self)@ =~= put(old(self)@, id, state@));
        proof {
            use_type_invariant(&*self);
        }
        armed
    }

    /// Unbinds `value` and ends the capture of the control `id`. On an
    /// idle control whose binding is unbound already this changes
    /// nothing, and still succeeds.
    pub fn clear(&mut self, id: u64, value: &mut KeyBind) -> (done: bool)
        ensures
            done,
            final(value)@ == KeyBindView::unbound(),
            final(self)@ == old(self)@.remove(id),
            all_under_way(final(self)@),
            old(value)@ == KeyBindView::unbound() && session_of(old(self)@, id).state is Idle
                ==> final(value)@ == old(value)@ && final(self)@ == old(self)@,
    {
        proof {
            use_type_invariant(&*self);
            if !old(self)@.contains_key(id) {
                assert(old(self)@.remove(id) =~= old(self)@);
            }
        }
        let mut state = self.take(id);
        proof {
            use_type_invariant(&*self);
        }
        state.clear(value)
    }

    /// Takes the decision on the pending Escape of the control `id`;
    /// see `KeyBindWidgetState::resolve_escape`.
    pub fn resolve_escape(
        &mut self,
        id: u64,
        value: &mut KeyBind,
        choice: EscapeChoice,
    ) -> (taken: bool)
        ensures
            taken == (session_of(old(self)@, id).state is AwaitingEscapeDecision),
            final(value)@ == resolve_step(old(value)@, session_of(old(self)@, id), choice).bind,
            final(self)@ == put(
                old(self)@,
                id,
                resolve_step(old(value)@, session_of(old(self)@, id), choice).session,
            ),
            all_under_way(final(self)@),
    {
        let mut state = self.take(id);
        let taken = state.resolve_escape(value, choice);
        self.keep(id, state);
        assert(final(self)@ =~= put(old(self)@, id, state@));
        proof {
            use_type_invariant(&*self);
        }
        taken
    }

    /// One poll of the control `id`; see `KeyBindWidgetState::poll`.
    pub fn poll(
        &mut self,
        id: u64,
        value: &mut KeyBind,
        keys_held: Vec<KeyCode>,
    ) -> (committed: bool)
        ensures
            final(value)@ == poll_step(old(value)@, session_of(old(self)@, id), keys_held@).bind,
            committed == poll_step(old(value)@, session_of(old(self)@, id), keys_held@).committed,
            final(self)@ == put(
                old(self)@,
                id,
                poll_step(old(value)@, session_of(old(self)@, id), keys_held@).session,
            ),
            all_under_way(final(self)@),
    {
        let mut state = self.take(id);
        let committed = state.poll(value, keys_held);
        self.keep(id, state);
        assert(final(self)@ =~= put(old(self)@, id, state@));
        proof {
            use_type_invariant(&*self);
        }
        committed
    }

    /// One frame of the control `id`; see `KeyBindWidgetState::update`.
    pub fn update(
        &mut self,
        id: u64,
        value: &mut KeyBind,
        input: FrameInput,
    ) -> (output: FrameOutput)
        ensures
            final(value)@ == update_step(old(value)@, session_of(old(self)@, id), input@).bind,
            output.committed == update_step(
                old(value)@,
                session_of(old(self)@, id),
                input@,
            ).committed,
            output.rejected == update_step(
                old(value)@,
                session_of(old(self)@, id),
                input@,
            ).rejected,
            final(self)@ == put(
                old(self)@,
                id,
                update_step(old(value)@, session_of(old(self)@, id), input@).session,
            ),
            all_under_way(final(self)@),
    {
        let mut state = self.take(id);
        let output = state.update(value, input);
        self.keep(id, state);
        assert(final(self)@ =~= put(old(self)@, id, state@));
        proof {
            use_type_invariant(&*self);
        }
        output
    }
}

} // verus!
