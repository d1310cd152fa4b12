//! The capture of one control: a state machine that is armed by a
//! click, takes in the keys found down at each poll, and ends by writing
//! a binding or by being given up.

use crate::helper::{diff, keys_only_in, lemma_filter_keeps_distinct, lemma_keys_only_in_one_more};
use crate::keycodes::{KeyCode, KeyModifier};
use crate::{KeyBind, KeyBindView};
use vstd::prelude::*;

verus! {

/// Where a capture stands.
#[derive(Clone, Copy, Debug, PartialEq, Eq, Structural, Hash)]
pub enum CaptureState {
    /// No capture is under way.
    Idle,
    /// The control is armed and takes in key edges.
    Listening,
    /// Escape was pressed; the capture waits for a decision on it.
    AwaitingEscapeDecision,
}

/// What to do about an Escape that was pressed during a capture.
#[derive(Clone, Copy, Debug, PartialEq, Eq, Structural, Hash)]
pub enum EscapeChoice {
    /// Bind Escape itself, with the modifiers held.
    Bind,
    /// Unbind.
    Clear,
    /// Give the capture up and keep the binding as it was.
    Cancel,
}

/// The capture of one control, as a mathematical value.
pub struct SessionView {
    pub state: CaptureState,
    pub modifiers_held: Seq<KeyModifier>,
    pub last_keys_held: Seq<KeyCode>,
    pub escape_choice: EscapeChoice,
}

impl SessionView {
    /// The capture of a control that is not being set.
    pub open spec fn idle() -> SessionView {
        SessionView {
            state: CaptureState::Idle,
            modifiers_held: Seq::empty(),
            last_keys_held: Seq::empty(),
            escape_choice: EscapeChoice::Bind,
        }
    }

    /// A capture that has just been armed while `keys` were down.
    pub open spec fn armed(keys: Seq<KeyCode>) -> SessionView {
        SessionView {
            state: CaptureState::Listening,
            modifiers_held: Seq::empty(),
            last_keys_held: keys,
            escape_choice: EscapeChoice::Bind,
        }
    }

    /// No modifier is held twice, the pending choice is `Bind` until a
    /// decision is taken, and an idle capture holds nothing.
    pub open spec fn well_formed(self) -> bool {
        &&& self.modifiers_held.no_duplicates()
        &&& self.escape_choice == EscapeChoice::Bind
        &&& self.state is Idle ==> self == SessionView::idle()
    }

    /// The same capture after `keys` were seen down.
    pub open spec fn seen(self, keys: Seq<KeyCode>) -> SessionView {
        SessionView { last_keys_held: keys, ..self }
    }
}

/// `held` with `class` added, unless it is held already.
pub open spec fn hold(held: Seq<KeyModifier>, class: KeyModifier) -> Seq<KeyModifier> {
    if held.contains(class) {
        held
    } else {
        held.push(class)
    }
}

/// The test that every modifier but `class` passes.
pub open spec fn is_other_than(class: KeyModifier) -> spec_fn(KeyModifier) -> bool {
    |m: KeyModifier| m != class
}

/// `held` without `class`.
pub open spec fn release(held: Seq<KeyModifier>, class: KeyModifier) -> Seq<KeyModifier> {
    held.filter(is_other_than(class))
}

/// What a run of press edges comes to.
pub enum PressOutcome {
    /// Modifier keys alone were pressed; these are held now.
    Held { held: Seq<KeyModifier> },
    /// Escape was pressed while these were held.
    Escape { held: Seq<KeyModifier> },
    /// A key that is neither a modifier nor Escape was pressed while
    /// these were held.
    Bound { key: KeyCode, held: Seq<KeyModifier> },
}

/// Goes through the press edges `down` in order, starting with `held`.
/// A modifier key adds its class to the held ones. The first other key
/// ends the run and the keys after it are not looked at.
pub open spec fn after_presses(down: Seq<KeyCode>, held: Seq<KeyModifier>) -> PressOutcome
    decreases down.len(),
{
    if down.len() == 0 {
        PressOutcome::Held { held }
    } else {
        match down[0].modifier() {
            Some(class) => after_presses(down.drop_first(), hold(held, class)),
            None => if down[0] == KeyCode::Escape {
                PressOutcome::Escape { held }
            } else {
                PressOutcome::Bound { key: down[0], held }
            },
        }
    }
}

/// The first of the release edges `up` that is not Escape.
pub open spec fn first_released(up: Seq<KeyCode>) -> Option<KeyCode>
    decreases up.len(),
{
    if up.len() == 0 {
        None
    } else if up[0] == KeyCode::Escape {
        first_released(up.drop_first())
    } else {
        Some(up[0])
    }
}

/// The binding made when `key` is released while `held` are held. A
/// modifier key binds itself, with its own class taken off the held
/// ones.
pub open spec fn bound_on_release(key: KeyCode, held: Seq<KeyModifier>) -> KeyBindView {
    match key.modifier() {
        Some(class) => KeyBindView { key: Some(key), modifiers: release(held, class) },
        None => KeyBindView { key: Some(key), modifiers: held },
    }
}

/// A binding, the capture that sets it, and whether the capture has
/// just written the binding.
pub struct Polled {
    pub bind: KeyBindView,
    pub session: SessionView,
    pub committed: bool,
}

/// What a listening capture makes of the press edges `down` and the
/// release edges `up`. Press edges go first; release edges count only
/// where no press edge settled the matter.
pub open spec fn settle(
    bind: KeyBindView,
    session: SessionView,
    down: Seq<KeyCode>,
    up: Seq<KeyCode>,
) -> Polled {
    match after_presses(down, session.modifiers_held) {
        PressOutcome::Bound { key, held } => Polled {
            bind: KeyBindView { key: Some(key), modifiers: held },
            session: SessionView::idle(),
            committed: true,
        },
        PressOutcome::Escape { held } => Polled {
            bind,
            session: SessionView {
                state: CaptureState::AwaitingEscapeDecision,
                modifiers_held: held,
                escape_choice: EscapeChoice::Bind,
                ..session
            },
            committed: false,
        },
        PressOutcome::Held { held } => match first_released(up) {
            Some(key) => Polled {
                bind: bound_on_release(key, held),
                session: SessionView::idle(),
                committed: true,
            },
            None => Polled {
                bind,
                session: SessionView { modifiers_held: held, ..session },
                committed: false,
            },
        },
    }
}

/// One poll: what becomes of a binding and its capture when `keys` are
/// found down. An idle capture is left alone. A capture that waits for
/// a decision on Escape only takes note of the keys. A listening one
/// compares them with the keys it saw last and settles the edges.
pub open spec fn poll_step(bind: KeyBindView, session: SessionView, keys: Seq<KeyCode>) -> Polled {
    match session.state {
        CaptureState::Idle => Polled { bind, session, committed: false },
        CaptureState::AwaitingEscapeDecision => Polled {
            bind,
            session: session.seen(keys),
            committed: false,
        },
        CaptureState::Listening => settle(
            bind,
            session.seen(keys),
            keys_only_in(keys, session.last_keys_held),
            keys_only_in(session.last_keys_held, keys),
        ),
    }
}

/// Arming: an idle capture starts to listen and takes `keys`, the keys
/// that are down at that moment, as seen. Any other capture stays as it is.
pub open spec fn activate_step(session: SessionView, keys: Seq<KeyCode>) -> SessionView {
    if session.state is Idle {
        SessionView::armed(keys)
    } else {
        session
    }
}

/// The decision on a pending Escape. Outside of
/// `AwaitingEscapeDecision` nothing changes.
pub open spec fn resolve_step(
    bind: KeyBindView,
    session: SessionView,
    choice: EscapeChoice,
) -> Polled {
    if session.state is AwaitingEscapeDecision {
        match choice {
            EscapeChoice::Bind => Polled {
                bind: KeyBindView { key: Some(KeyCode::Escape), modifiers: session.modifiers_held },
                session: SessionView::idle(),
                committed: true,
            },
            EscapeChoice::Clear => Polled {
                bind: KeyBindView::unbound(),
                session: SessionView::idle(),
                committed: true,
            },
            EscapeChoice::Cancel => Polled { bind, session: SessionView::idle(), committed: false },
        }
    } else {
        Polled { bind, session, committed: false }
    }
}

/// What the host has to report of one frame, as a mathematical value.
pub struct FrameView {
    pub primary_click: bool,
    pub secondary_click: bool,
    pub escape_choice: Option<EscapeChoice>,
    pub keys_held: Seq<KeyCode>,
}

/// A binding and its capture after a frame, whether the frame wrote the
/// binding, and whether it held a gesture that the capture had to refuse.
pub struct Updated {
    pub bind: KeyBindView,
    pub session: SessionView,
    pub committed: bool,
    pub rejected: bool,
}

/// One frame of a control. The gestures are taken in a fixed order: a
/// primary click arms the control, a secondary click unbinds it, a
/// choice decides a pending Escape; then the control is polled. A
/// primary click on a control that is not idle, and a choice where no
/// decision is pending, are refused and change nothing.
pub open spec fn update_step(bind: KeyBindView, session: SessionView, frame: FrameView) -> Updated {
    let armed = if frame.primary_click {
        activate_step(session, frame.keys_held)
    } else {
        session
    };
    let cleared = if frame.secondary_click {
        Polled { bind: KeyBindView::unbound(), session: SessionView::idle(), committed: true }
    } else {
        Polled { bind, session: armed, committed: false }
    };
    let decided = match frame.escape_choice {
        Some(choice) => resolve_step(cleared.bind, cleared.session, choice),
        None => Polled { committed: false, ..cleared },
    };
    let polled = poll_step(decided.bind, decided.session, frame.keys_held);
    Updated {
        bind: polled.bind,
        session: polled.session,
        committed: cleared.committed || decided.committed || polled.committed,
        rejected: (frame.primary_click && !(session.state is Idle)) || (frame.escape_choice is Some
            && !(cleared.session.state is AwaitingEscapeDecision)),
    }
}

/// The capture of one control: whether it is under way, and what it
/// has seen so far.
#[derive(Debug, Hash)]
pub struct KeyBindWidgetState {
    state: CaptureState,
    modifiers_held: Vec<KeyModifier>,
    last_keys_held: Vec<KeyCode>,
    escape_choice: EscapeChoice,
}

impl View for KeyBindWidgetState {
    type V = SessionView;

    closed spec fn view(&self) -> SessionView {
        SessionView {
            state: self.state,
            modifiers_held: self.modifiers_held@,
            last_keys_held: self.last_keys_held@,
            escape_choice: self.escape_choice,
        }
    }
}

impl Clone for KeyBindWidgetState {
    fn clone(&self) -> (copy: Self)
        ensures
            copy@ == self@,
    {
        proof {
            use_type_invariant(self);
        }
        let modifiers_held = self.modifiers_held.clone();
        let last_keys_held = self.last_keys_held.clone();
        assert(modifiers_held@ =~= self.modifiers_held@);
        assert(last_keys_held@ =~= self.last_keys_held@);
        Self {
            state: self.state,
            modifiers_held,
            last_keys_held,
            escape_choice: self.escape_choice,
        }
    }
}

/// What the host has to report of one frame: the gestures made on the
/// control, and the keys that are down.
#[derive(Debug)]
pub struct FrameInput {
    /// The control was clicked with the primary button.
    pub primary_click: bool,
    /// The control was clicked with the secondary button.
    pub secondary_click: bool,
    /// The decision on a pending Escape, if one was taken.
    pub escape_choice: Option<EscapeChoice>,
    /// The keys that are down.
    pub keys_held: Vec<KeyCode>,
}

impl View for FrameInput {
    type V = FrameView;

    open spec fn view(&self) -> FrameView {
        FrameView {
            primary_click: self.primary_click,
            secondary_click: self.secondary_click,
            escape_choice: self.escape_choice,
            keys_held: self.keys_held@,
        }
    }
}

/// What a frame came to.
#[derive(Clone, Copy, Debug, PartialEq, Eq, Structural)]
pub struct FrameOutput {
    /// The binding was written: the control has to be drawn again.
    pub committed: bool,
    /// A gesture was refused.
    pub rejected: bool,
}

/// Whether `held` holds `class`.
fn holds_modifier(held: &Vec<KeyModifier>, class: KeyModifier) -> (found: bool)
    ensures
        found == held@.contains(class),
{
    let mut i: usize = 0;
    while i < held.len()
        invariant
            i <= held@.len(),
            forall|j: int| 0 <= j < i ==> held@[j] != class,
        decreases held@.len() - i,
    {
        if held[i] == class {
            return true;
        }
        i += 1;
    }
    false
}

/// `held` without `class`.
fn without_modifier(held: &Vec<KeyModifier>, class: KeyModifier) -> (rest: Vec<KeyModifier>)
    ensures
        rest@ == release(held@, class),
{
    let ghost other = is_other_than(class);
    let mut rest: Vec<KeyModifier> = Vec::new();
    let mut i: usize = 0;
    proof {
        reveal(Seq::filter);
        assert(held@.take(0).filter(other) =~= Seq::<KeyModifier>::empty());
    }
    while i < held.len()
        invariant
            i <= held@.len(),
            other == is_other_than(class),
            rest@ == held@.take(i as int).filter(other),
        decreases held@.len() - i,
    {
        proof {
            reveal(Seq::filter);
            assert(held@.take(i + 1).drop_last() =~= held@.take(i as int));
        }
        if held[i] != class {
            rest.push(held[i]);
        }
        i += 1;
    }
    proof {
        assert(held@.take(i as int) =~= held@);
    }
    rest
}

/// What a run of press edges comes to, in executable form.
enum Pressed {
    Held(Vec<KeyModifier>),
    Escape(Vec<KeyModifier>),
    Bound(KeyCode, Vec<KeyModifier>),
}

impl View for Pressed {
    type V = PressOutcome;

    closed spec fn view(&self) -> PressOutcome {
        match self {
            Pressed::Held(held) => PressOutcome::Held { held: held@ },
            Pressed::Escape(held) => PressOutcome::Escape { held: held@ },
            Pressed::Bound(key, held) => PressOutcome::Bound { key: *key, held: held@ },
        }
    }
}

/// Goes through the press edges in order.
fn scan_presses(down: &Vec<KeyCode>, held: Vec<KeyModifier>) -> (outcome: Pressed)
    ensures
        outcome@ == after_presses(down@, held@),
{
    let mut now = held;
    let mut i: usize = 0;
    assert(down@.skip(0) =~= down@);
    while i < down.len()
        invariant
            i <= down@.len(),
            after_presses(down@.skip(i as int), now@) == after_presses(down@, held@),
        decreases down@.len() - i,
    {
        let key = down[i];
        proof {
            assert(down@.skip(i as int)[0] == key);
            assert(down@.skip(i as int).drop_first() =~= down@.skip(i + 1));
        }
        match key.as_modifier() {
            Some(class) => {
                if !holds_modifier(&now, class) {
                    now.push(class);
                }
            },
            None => {
                if key == KeyCode::Escape {
                    return Pressed::Escape(now);
                } else {
                    return Pressed::Bound(key, now);
                }
            },
        }
        i += 1;
    }
    Pressed::Held(now)
}

/// The first of the release edges that is not Escape.
fn scan_releases(up: &Vec<KeyCode>) -> (key: Option<KeyCode>)
    ensures
        key == first_released(up@),
{
    let mut i: usize = 0;
    assert(up@.skip(0) =~= up@);
    while i < up.len()
        invariant
            i <= up@.len(),
            first_released(up@.skip(i as int)) == first_released(up@),
        decreases up@.len() - i,
    {
        let key = up[i];
        proof {
            assert(up@.skip(i as int)[0] == key);
            assert(up@.skip(i as int).drop_first() =~= up@.skip(i + 1));
        }
        if key != KeyCode::Escape {
            return Some(key);
        }
        i += 1;
    }
    None
}

impl KeyBindWidgetState {
    #[verifier::type_invariant]
    spec fn holds_together(self) -> bool {
        self@.well_formed()
    }

    /// The capture of a control that is not being set.
    pub fn new() -> (state: Self)
        ensures
            state@ == SessionView::idle(),
    {
        Self {
            state: CaptureState::Idle,
            modifiers_held: Vec::new(),
            last_keys_held: Vec::new(),
            escape_choice: EscapeChoice::Bind,
        }
    }

    /// Whether the control is armed and takes in key edges.
    pub fn is_listening(&self) -> (listening: bool)
        ensures
            listening == (self@.state is Listening),
            self@.well_formed(),
    {
        proof {
            use_type_invariant(self);
        }
        self.state == CaptureState::Listening
    }

    /// Whether the capture waits for a decision on Escape.
    pub fn is_awaiting_escape_decision(&self) -> (awaiting: bool)
        ensures
            awaiting == (self@.state is AwaitingEscapeDecision),
            self@.well_formed(),
    {
        proof {
            use_type_invariant(self);
        }
        self.state == CaptureState::AwaitingEscapeDecision
    }

    /// Whether the host has to keep polling although no input event
    /// arrives: so it is while a capture is under way.
    pub fn needs_frequent_polling(&self) -> (needed: bool)
        ensures
            needed == !(self@.state is Idle),
            self@.well_formed(),
    {
        proof {
            use_type_invariant(self);
        }
        self.state != CaptureState::Idle
    }

    /// Where the capture stands.
    pub fn state(&self) -> (state: CaptureState)
        ensures
            state == self@.state,
    {
        self.state
    }

    /// The modifiers held so far, in the order in which they went down.
    pub fn modifiers_held(&self) -> (held: &Vec<KeyModifier>)
        ensures
            held@ == self@.modifiers_held,
            held@.no_duplicates(),
    {
        proof {
            use_type_invariant(self);
        }
        &self.modifiers_held
    }

    /// The keys that were down when the capture last looked.
    pub fn last_keys_held(&self) -> (keys: &Vec<KeyCode>)
        ensures
            keys@ == self@.last_keys_held,
    {
        &self.last_keys_held
    }

    /// The choice that a prompt for the decision on Escape starts with.
    pub fn escape_choice(&self) -> (choice: EscapeChoice)
        ensures
            choice == self@.escape_choice,
            choice == EscapeChoice::Bind,
    {
        proof {
            use_type_invariant(self);
        }
        self.escape_choice
    }

    /// Arms an idle control. `keys_held` are the keys that are down at
    /// this moment; they count as seen, so that none of them is taken
    /// for a press later. On a control that is not idle nothing
    /// changes, and the result says so.
    pub fn activate(&mut self, keys_held: Vec<KeyCode>) -> (armed: bool)
        ensures
            armed == (old(self)@.state is Idle),
            final(self)@ == activate_step(old(self)@, keys_held@),
            final(self)@.well_formed(),
    {
        proof {
            use_type_invariant(&*self);
        }
        if self.state == CaptureState::Idle {
            *self = Self {
                state: CaptureState::Listening,
                modifiers_held: Vec::new(),
                last_keys_held: keys_held,
                escape_choice: EscapeChoice::Bind,
            };
            true
        } else {
            false
        }
    }

    /// Unbinds `value` and ends the capture, whatever its state. On an
    /// idle control whose binding is unbound already this changes
    /// nothing, and still succeeds.
    pub fn clear(&mut self, value: &mut KeyBind) -> (done: bool)
        ensures
            done,
            final(value)@ == KeyBindView::unbound(),
            final(self)@ == SessionView::idle(),
            old(value)@ == KeyBindView::unbound() && old(self)@ == SessionView::idle()
                ==> final(value)@ == old(value)@ && final(self)@ == old(self)@,
    {
        *value = KeyBind::empty();
        *self = Self::new();
        true
    }

    /// Takes the decision on a pending Escape and ends the capture.
    /// `Bind` binds Escape with the modifiers held, `Clear` unbinds,
    /// `Cancel` leaves `value` as it was. Where no decision is pending
    /// nothing changes, and the result says so.
    pub fn resolve_escape(&mut self, value: &mut KeyBind, choice: EscapeChoice) -> (taken: bool)
        ensures
            taken == (old(self)@.state is AwaitingEscapeDecision),
            final(value)@ == resolve_step(old(value)@, old(self)@, choice).bind,
            final(self)@ == resolve_step(old(value)@, old(self)@, choice).session,
            taken && choice != EscapeChoice::Cancel ==> final(value)@.well_formed(),
            final(self)@.well_formed(),
    {
        proof {
            use_type_invariant(&*self);
        }
        if self.state != CaptureState::AwaitingEscapeDecision {
            return false;
        }
        let mut ended = Self::new();
        core::mem::swap(self, &mut ended);
        match choice {
            EscapeChoice::Bind => {
                *value = KeyBind::new(Some(KeyCode::Escape), ended.modifiers_held);
            },
            EscapeChoice::Clear => {
                *value = KeyBind::empty();
            },
            EscapeChoice::Cancel => {},
        }
        true
    }

    /// Takes `keys_held` as the keys that are down now, and returns the
    /// keys that went down and the keys that went up since the last look.
    fn check_keys(&mut self, keys_held: Vec<KeyCode>) -> (edges: (Vec<KeyCode>, Vec<KeyCode>))
        requires
            !(old(self)@.state is Idle),
        ensures
            edges.0@ == keys_only_in(keys_held@, old(self)@.last_keys_held),
            edges.1@ == keys_only_in(old(self)@.last_keys_held, keys_held@),
            final(self)@ == old(self)@.seen(keys_held@),
    {
        proof {
            use_type_invariant(&*self);
        }
        let edges = diff(&self.last_keys_held, &keys_held);
        self.last_keys_held = keys_held;
        edges
    }

    /// Settles the press edges `down` and the release edges `up` of a
    /// listening capture. Returns whether `value` was written.
    fn run_input(
        &mut self,
        value: &mut KeyBind,
        down: Vec<KeyCode>,
        up: Vec<KeyCode>,
    ) -> (committed: bool)
        requires
            old(self)@.state is Listening,
        ensures
            (Polled { bind: final(value)@, session: final(self)@, committed }) == settle(
                old(value)@,
                old(self)@,
                down@,
                up@,
            ),
    {
        proof {
            use_type_invariant(&*self);
            lemma_settle_well_formed(value@, self@, down@, up@);
            lemma_presses_keep_distinct(down@, self@.modifiers_held);
        }
        let mut taken = Self::new();
        core::mem::swap(self, &mut taken);
        let Self { modifiers_held, last_keys_held, .. } = taken;
        match scan_presses(&down, modifiers_held) {
            Pressed::Bound(key, held) => {
                *value = KeyBind::new(Some(key), held);
                true
            },
            Pressed::Escape(held) => {
                *self = Self {
                    state: CaptureState::AwaitingEscapeDecision,
                    modifiers_held: held,
                    last_keys_held,
                    escape_choice: EscapeChoice::Bind,
                };
                false
            },
            Pressed::Held(held) => {
                match scan_releases(&up) {
                    Some(key) => {
                        let modifiers = match key.as_modifier() {
                            Some(class) => without_modifier(&held, class),
                            None => held,
                        };
                        *value = KeyBind::new(Some(key), modifiers);
                        true
                    },
                    None => {
                        *self = Self {
                            state: CaptureState::Listening,
                            modifiers_held: held,
                            last_keys_held,
                            escape_choice: EscapeChoice::Bind,
                        };
                        false
                    },
                }
            },
        }
    }

    /// One poll of the control. `keys_held` are the keys that are down
    /// now. Returns whether `value` was written; the capture has ended
    /// then.
    pub fn poll(&mut self, value: &mut KeyBind, keys_held: Vec<KeyCode>) -> (committed: bool)
        ensures
            (Polled { bind: final(value)@, session: final(self)@, committed }) == poll_step(
                old(value)@,
                old(self)@,
                keys_held@,
            ),
            final(self)@.well_formed(),
            committed ==> final(value)@.well_formed(),
    {
        proof {
            use_type_invariant(&*self);
        }
        match self.state {
            CaptureState::Idle => false,
            CaptureState::AwaitingEscapeDecision => {
                self.last_keys_held = keys_held;
                false
            },
            CaptureState::Listening => {
                proof {
                    lemma_settle_well_formed(
                        value@,
                        self@.seen(keys_held@),
                        keys_only_in(keys_held@, self@.last_keys_held),
                        keys_only_in(self@.last_keys_held, keys_held@),
                    );
                }
                let (down, up) = self.check_keys(keys_held);
                self.run_input(value, down, up)
            },
        }
    }

    /// One frame of the control: takes the gestures of `input` in
    /// order, then polls.
    pub fn update(&mut self, value: &mut KeyBind, input: FrameInput) -> (output: FrameOutput)
        ensures
            (Updated {
                bind: final(value)@,
                session: final(self)@,
                committed: output.committed,
                rejected: output.rejected,
            }) == update_step(old(value)@, old(self)@, input@),
            final(self)@.well_formed(),
    {
        let mut committed = false;
        let mut rejected = false;
        if input.primary_click {
            let keys_held = input.keys_held.clone();
            assert(keys_held@ =~= input.keys_held@);
            if !self.activate(keys_held) {
                rejected = true;
            }
        }
        if input.secondary_click {
            self.clear(value);
            committed = true;
        }
        if let Some(choice) = input.escape_choice {
            let was_set = choice != EscapeChoice::Cancel;
            if self.resolve_escape(value, choice) {
                committed = committed || was_set;
            } else {
                rejected = true;
            }
        }
        if self.poll(value, input.keys_held) {
            committed = true;
        }
        FrameOutput { committed, rejected }
    }
}

/// Holding one more modifier, or one fewer, leaves none held twice.
pub proof fn lemma_held_stay_distinct(held: Seq<KeyModifier>, class: KeyModifier)
    requires
        held.no_duplicates(),
    ensures
        hold(held, class).no_duplicates(),
        release(held, class).no_duplicates(),
{
    lemma_filter_keeps_distinct(held, is_other_than(class));
}

/// A run of press edges leaves no modifier held twice.
pub proof fn lemma_presses_keep_distinct(down: Seq<KeyCode>, held: Seq<KeyModifier>)
    requires
        held.no_duplicates(),
    ensures
        match after_presses(down, held) {
            PressOutcome::Held { held: now } => now.no_duplicates(),
            PressOutcome::Escape { held: now } => now.no_duplicates(),
            PressOutcome::Bound { key, held: now } => now.no_duplicates() && key.modifier() is None
                && key != KeyCode::Escape,
        },
    decreases down.len(),
{
    if down.len() > 0 {
        if let Some(class) = down[0].modifier() {
            lemma_held_stay_distinct(held, class);
            lemma_presses_keep_distinct(down.drop_first(), hold(held, class));
        }
    }
}

/// Whatever a listening capture makes of its edges, the capture stays
/// well formed, and a binding that it writes is well formed and bound.
pub proof fn lemma_settle_well_formed(
    bind: KeyBindView,
    session: SessionView,
    down: Seq<KeyCode>,
    up: Seq<KeyCode>,
)
    requires
        session.well_formed(),
        session.state is Listening,
    ensures
        settle(bind, session, down, up).session.well_formed(),
        settle(bind, session, down, up).committed ==> {
            &&& settle(bind, session, down, up).bind.well_formed()
            &&& settle(bind, session, down, up).bind.key is Some
            &&& settle(bind, session, down, up).session == SessionView::idle()
        },
        !settle(bind, session, down, up).committed ==> {
            &&& settle(bind, session, down, up).bind == bind
            &&& !(settle(bind, session, down, up).session.state is Idle)
            &&& settle(bind, session, down, up).session.last_keys_held == session.last_keys_held
        },
{
    lemma_presses_keep_distinct(down, session.modifiers_held);
    if let PressOutcome::Held { held } = after_presses(down, session.modifiers_held) {
        if let Some(key) = first_released(up) {
            if let Some(class) = key.modifier() {
                lemma_held_stay_distinct(held, class);
            }
        }
    }
}

/// The modifiers that a run of press edges leaves held.
pub open spec fn held_after(outcome: PressOutcome) -> Seq<KeyModifier> {
    match outcome {
        PressOutcome::Held { held } => held,
        PressOutcome::Escape { held } => held,
        PressOutcome::Bound { held, .. } => held,
    }
}

/// Whether one of the first `n` press edges of `down` is a key of `class`.
pub open spec fn pressed_before(down: Seq<KeyCode>, n: int, class: KeyModifier) -> bool {
    exists|j: int| 0 <= j < n && #[trigger] down[j].modifier() == Some(class)
}

/// What a run of press edges leaves held: the modifiers held before,
/// in their order, and after them the classes of the modifier keys that
/// went down before the first key that is no modifier. `n` is the
/// position of that key, or the number of edges where there is none.
pub proof fn lemma_presses_hold_classes(down: Seq<KeyCode>, held: Seq<KeyModifier>, n: int)
    requires
        0 <= n <= down.len(),
        forall|j: int| 0 <= j < n ==> #[trigger] down[j].modifier() is Some,
        n == down.len() || down[n].modifier() is None,
    ensures
        held.is_prefix_of(held_after(after_presses(down, held))),
        forall|class: KeyModifier|
            held_after(after_presses(down, held)).contains(class) <==> held.contains(class)
                || pressed_before(down, n, class),
        n == down.len() <==> after_presses(down, held) is Held,
        n < down.len() ==> (after_presses(down, held) is Escape <==> down[n] == KeyCode::Escape),
        n < down.len() ==> (after_presses(down, held) matches PressOutcome::Bound { key, .. }
            ==> key == down[n]),
    decreases n,
{
    let now = held_after(after_presses(down, held));
    if n == 0 {
        assert forall|class: KeyModifier| now.contains(class) <==> held.contains(class)
            || pressed_before(down, n, class) by {}
    } else {
        let first = down[0].modifier().unwrap();
        let rest = down.drop_first();
        let more = hold(held, first);
        assert forall|j: int| 0 <= j < n - 1 implies #[trigger] rest[j].modifier() is Some by {
            assert(rest[j] == down[j + 1]);
        }
        lemma_presses_hold_classes(rest, more, n - 1);
        assert forall|class: KeyModifier| now.contains(class) <==> held.contains(class)
            || pressed_before(down, n, class) by {
            if pressed_before(rest, n - 1, class) {
                let j = choose|j: int|
                    0 <= j < n - 1 && #[trigger] rest[j].modifier() == Some(class);
                assert(down[j + 1].modifier() == Some(class));
            }
            if pressed_before(down, n, class) {
                let j = choose|j: int| 0 <= j < n && #[trigger] down[j].modifier() == Some(class);
                if j > 0 {
                    assert(rest[j - 1].modifier() == Some(class));
                }
            }
            if more.contains(class) && !held.contains(class) {
                assert(class == first);
                assert(down[0].modifier() == Some(class));
            }
            if held.contains(class) {
                let i = choose|i: int| 0 <= i < held.len() && held[i] == class;
                assert(more[i] == class);
            }
            if class == first {
                assert(more.contains(first)) by {
                    if !held.contains(first) {
                        assert(more[held.len() as int] == first);
                    }
                }
            }
        }
    }
}

/// The release edge that counts is the first that is not Escape; where
/// Escape alone came up, none counts.
pub proof fn lemma_first_released(up: Seq<KeyCode>, i: int)
    requires
        0 <= i <= up.len(),
        forall|j: int| 0 <= j < i ==> #[trigger] up[j] == KeyCode::Escape,
        i == up.len() || up[i] != KeyCode::Escape,
    ensures
        first_released(up) == if i == up.len() {
            None
        } else {
            Some(up[i])
        },
    decreases i,
{
    if i > 0 {
        let rest = up.drop_first();
        assert(up[0] == KeyCode::Escape);
        assert forall|j: int| 0 <= j < i - 1 implies #[trigger] rest[j] == KeyCode::Escape by {
            assert(rest[j] == up[j + 1]);
        }
        lemma_first_released(rest, i - 1);
    }
}

/// The first key that is no modifier settles a run of press edges: the
/// edges after it change nothing.
pub proof fn lemma_presses_stop_at_first_key(down: Seq<KeyCode>, held: Seq<KeyModifier>, i: int)
    requires
        0 <= i < down.len(),
        down[i].modifier() is None,
    ensures
        after_presses(down, held) == after_presses(down.take(i + 1), held),
        !(after_presses(down, held) is Held),
    decreases i,
{
    let cut = down.take(i + 1);
    assert(cut[0] == down[0]);
    if let Some(class) = down[0].modifier() {
        assert(cut.drop_first() =~= down.drop_first().take(i));
        lemma_presses_stop_at_first_key(down.drop_first(), hold(held, class), i - 1);
    }
}

/// Press edges go before release edges: where a key that is no modifier
/// went down, the release edges of the same poll change nothing.
pub proof fn lemma_press_goes_first(
    bind: KeyBindView,
    session: SessionView,
    down: Seq<KeyCode>,
    up: Seq<KeyCode>,
    other_up: Seq<KeyCode>,
    i: int,
)
    requires
        0 <= i < down.len(),
        down[i].modifier() is None,
    ensures
        settle(bind, session, down, up) == settle(bind, session, down, other_up),
{
    lemma_presses_stop_at_first_key(down, session.modifiers_held, i);
}

/// A modifier key that is tapped binds itself. A capture was armed
/// while `seen` were down; then `key`, a modifier key, goes down and
/// comes up again while nothing else changes. The first poll holds the
/// modifier and writes nothing; the second binds `key` with no
/// modifiers and ends the capture.
pub proof fn lemma_modifier_tap(bind: KeyBindView, seen: Seq<KeyCode>, key: KeyCode)
    requires
        key.modifier() is Some,
        !seen.contains(key),
    ensures
        ({
            let pressed = poll_step(bind, SessionView::armed(seen), seen.push(key));
            let released = poll_step(pressed.bind, pressed.session, seen);
            &&& !pressed.committed
            &&& pressed.bind == bind
            &&& pressed.session == SessionView {
                modifiers_held: seq![key.modifier().unwrap()],
                ..SessionView::armed(seen.push(key))
            }
            &&& released.committed
            &&& released.bind == KeyBindView { key: Some(key), modifiers: Seq::empty() }
            &&& released.session == SessionView::idle()
        }),
{
    let class = key.modifier().unwrap();
    let none = Seq::<KeyModifier>::empty();
    lemma_keys_only_in_one_more(seen, key);
    reveal_with_fuel(after_presses, 2);
    reveal_with_fuel(first_released, 2);
    assert(seq![key].drop_first() =~= Seq::<KeyCode>::empty());
    assert(hold(none, class) =~= seq![class]);
    assert(release(seq![class], class) =~= none) by {
        reveal_with_fuel(Seq::filter, 2);
        assert(seq![class].drop_last() =~= none);
    }
    let pressed = poll_step(bind, SessionView::armed(seen), seen.push(key));
    assert(pressed.session.modifiers_held == seq![class]);
}

/// Escape does not bind at once. Where Escape is the first key to go
/// down that is no modifier, a listening capture goes on to wait for a
/// decision and leaves the binding as it was; while it waits, a poll
/// changes neither the binding nor the modifiers held.
pub proof fn lemma_escape_waits(bind: KeyBindView, session: SessionView, keys: Seq<KeyCode>)
    ensures
        session.state is Listening && after_presses(
            keys_only_in(keys, session.last_keys_held),
            session.modifiers_held,
        ) is Escape ==> {
            &&& poll_step(bind, session, keys).session.state is AwaitingEscapeDecision
            &&& poll_step(bind, session, keys).session.escape_choice == EscapeChoice::Bind
            &&& poll_step(bind, session, keys).bind == bind
            &&& !poll_step(bind, session, keys).committed
        },
        session.state is Listening && keys_only_in(keys, session.last_keys_held).len() > 0
            && keys_only_in(keys, session.last_keys_held)[0] == KeyCode::Escape ==> after_presses(
            keys_only_in(keys, session.last_keys_held),
            session.modifiers_held,
        ) == (PressOutcome::Escape { held: session.modifiers_held }),
        session.state is AwaitingEscapeDecision ==> poll_step(bind, session, keys) == (Polled {
            bind,
            session: session.seen(keys),
            committed: false,
        }),
{
}

/// The three ways out of a pending decision, each of which ends the
/// capture: `Cancel` leaves the binding as it was, `Clear` unbinds, and
/// `Bind` binds Escape with the modifiers held at the time.
pub proof fn lemma_escape_decided(bind: KeyBindView, session: SessionView)
    requires
        session.state is AwaitingEscapeDecision,
    ensures
        resolve_step(bind, session, EscapeChoice::Cancel) == (Polled {
            bind,
            session: SessionView::idle(),
            committed: false,
        }),
        resolve_step(bind, session, EscapeChoice::Clear) == (Polled {
            bind: KeyBindView::unbound(),
            session: SessionView::idle(),
            committed: true,
        }),
        resolve_step(bind, session, EscapeChoice::Bind) == (Polled {
            bind: KeyBindView { key: Some(KeyCode::Escape), modifiers: session.modifiers_held },
            session: SessionView::idle(),
            committed: true,
        }),
{
}

} // verus!
