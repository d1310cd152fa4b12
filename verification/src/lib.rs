//! Key bindings that a user sets by pressing the keys.
//!
//! A [`KeyBind`] is a key with its modifiers, and has a text form that
//! reads back. A [`KeyBindWidgetState`] is the capture of one control: it
//! turns the keys found down at each poll into press and release edges and
//! settles them into a binding. A [`SessionStore`] keeps the captures of
//! all controls apart, each under the identity of its control.

pub mod helper;
pub mod keycodes;
pub mod store;
pub mod widget;

pub use keycodes::{KeyCode, KeyModifier};
pub use store::SessionStore;
pub use widget::{CaptureState, EscapeChoice, FrameInput, FrameOutput, KeyBindWidgetState};

use keycodes::{is_modifier_symbol, unbound_text};
use vstd::prelude::*;
use vstd::relations::{sorted_by, total_ordering};
use vstd::seq_lib::{lemma_multiset_commutative, lemma_sorted_unique, to_multiset_build};
use vstd::std_specs::cmp::PartialEqSpecImpl;
use vstd::string::{StrSliceExecFns, StringExecFns};

verus! {

/// A key together with the modifiers that go with it. A binding without
/// a key is unbound.
#[derive(Debug, Hash)]
pub struct KeyBind {
    pub key: Option<KeyCode>,
    pub modifiers: Vec<KeyModifier>,
}

/// What a `KeyBind` holds, as a mathematical value.
pub struct KeyBindView {
    pub key: Option<KeyCode>,
    pub modifiers: Seq<KeyModifier>,
}

impl View for KeyBind {
    type V = KeyBindView;

    open spec fn view(&self) -> KeyBindView {
        KeyBindView { key: self.key, modifiers: self.modifiers@ }
    }
}

impl PartialEq for KeyBind {
    fn eq(&self, other: &Self) -> (same: bool) {
        let same_key = match (self.key, other.key) {
            (Some(mine), Some(theirs)) => mine == theirs,
            (None, None) => true,
            _ => false,
        };
        if !same_key || self.modifiers.len() != other.modifiers.len() {
            return false;
        }
        let mut i: usize = 0;
        while i < self.modifiers.len()
            invariant
                i <= self.modifiers@.len() == other.modifiers@.len(),
                forall|j: int| 0 <= j < i ==> self.modifiers@[j] == other.modifiers@[j],
            decreases self.modifiers@.len() - i,
        {
            if self.modifiers[i] != other.modifiers[i] {
                return false;
            }
            i += 1;
        }
        assert(self.modifiers@ =~= other.modifiers@);
        true
    }
}

impl Eq for KeyBind {}

impl PartialEqSpecImpl for KeyBind {
    open spec fn obeys_eq_spec() -> bool {
        true
    }

    open spec fn eq_spec(&self, other: &Self) -> bool {
        self@ == other@
    }
}

impl Clone for KeyBind {
    fn clone(&self) -> (copy: Self)
        ensures
            copy@ == self@,
    {
        let modifiers = self.modifiers.clone();
        assert(modifiers@ =~= self.modifiers@);
        Self { key: self.key, modifiers }
    }
}

/// Whether `a` comes no later than `b` in the canonical order.
pub open spec fn in_order(a: KeyModifier, b: KeyModifier) -> bool {
    a.rank() <= b.rank()
}

/// Whether `modifiers` are in canonical order.
pub open spec fn is_canonical(modifiers: Seq<KeyModifier>) -> bool {
    forall|i: int, j: int|
        0 <= i < j < modifiers.len() ==> in_order(#[trigger] modifiers[i], #[trigger] modifiers[j])
}

/// How often `class` occurs in `modifiers`.
pub open spec fn count_of(modifiers: Seq<KeyModifier>, class: KeyModifier) -> nat {
    modifiers.to_multiset().count(class)
}

/// `class`, `n` times over.
pub open spec fn run_of(class: KeyModifier, n: nat) -> Seq<KeyModifier> {
    Seq::new(n, |i: int| class)
}

/// The modifiers of `modifiers` in canonical order: every `CtrlCmd`
/// first, then every `Shift`, every `AltOpt` and every `Function`.
pub open spec fn canonical_order(modifiers: Seq<KeyModifier>) -> Seq<KeyModifier> {
    run_of(KeyModifier::CtrlCmd, count_of(modifiers, KeyModifier::CtrlCmd)) + run_of(
        KeyModifier::Shift,
        count_of(modifiers, KeyModifier::Shift),
    ) + run_of(KeyModifier::AltOpt, count_of(modifiers, KeyModifier::AltOpt)) + run_of(
        KeyModifier::Function,
        count_of(modifiers, KeyModifier::Function),
    )
}

/// The symbols of `modifiers`, one character each, in the order given.
pub open spec fn symbols_of(modifiers: Seq<KeyModifier>) -> Seq<char> {
    modifiers.map_values(|m: KeyModifier| m.symbol())
}

/// The modifiers that the characters of `symbols` stand for.
pub open spec fn modifiers_of(symbols: Seq<char>) -> Seq<KeyModifier> {
    symbols.map_values(|c: char| KeyModifier::from_symbol(c).unwrap())
}

/// How many modifier symbols `text` begins with.
pub open spec fn modifier_prefix_len(text: Seq<char>) -> nat
    decreases text.len(),
{
    if text.len() > 0 && is_modifier_symbol(text[0]) {
        1 + modifier_prefix_len(text.drop_first())
    } else {
        0
    }
}

impl KeyBindView {
    /// The binding without a key.
    pub open spec fn unbound() -> KeyBindView {
        KeyBindView { key: None, modifiers: Seq::empty() }
    }

    /// No modifier occurs twice, and an unbound binding has none.
    pub open spec fn well_formed(self) -> bool {
        &&& self.modifiers.no_duplicates()
        &&& self.key is None ==> self.modifiers.len() == 0
    }

    /// The same binding with its modifiers in canonical order. An
    /// unbound binding is left as it is.
    pub open spec fn sorted(self) -> KeyBindView {
        match self.key {
            Some(_) => KeyBindView { key: self.key, modifiers: canonical_order(self.modifiers) },
            None => self,
        }
    }

    /// The text of the binding: the modifier symbols in canonical
    /// order, then the name of the key.
    pub open spec fn text(self) -> Seq<char> {
        match self.key {
            Some(key) => symbols_of(canonical_order(self.modifiers)) + key.symbol(),
            None => unbound_text(),
        }
    }

    /// The text of the binding with the modifier symbols in the order
    /// in which the binding holds them.
    pub open spec fn plain_text(self) -> Seq<char> {
        match self.key {
            Some(key) => symbols_of(self.modifiers) + key.symbol(),
            None => unbound_text(),
        }
    }

    /// The binding that `text` stands for: the leading modifier symbols
    /// give the modifiers, what follows them names the key. Text that
    /// names no key stands for no binding.
    pub open spec fn parse(text: Seq<char>) -> Option<KeyBindView> {
        let n = modifier_prefix_len(text) as int;
        let name = text.skip(n);
        if name == unbound_text() {
            None
        } else {
            match KeyCode::from_symbol(name) {
                Some(key) => Some(
                    KeyBindView { key: Some(key), modifiers: modifiers_of(text.take(n)) },
                ),
                None => None,
            }
        }
    }
}

/// `modifier_prefix_len` is the position of the first character that is
/// no modifier symbol, or the length of the text where there is none.
pub proof fn lemma_modifier_prefix_len(text: Seq<char>, n: int)
    requires
        0 <= n <= text.len(),
        forall|j: int| 0 <= j < n ==> is_modifier_symbol(#[trigger] text[j]),
        n == text.len() || !is_modifier_symbol(text[n]),
    ensures
        modifier_prefix_len(text) == n,
    decreases n,
{
    if n > 0 {
        let rest = text.drop_first();
        assert(is_modifier_symbol(text[0]));
        assert forall|j: int| 0 <= j < n - 1 implies is_modifier_symbol(#[trigger] rest[j]) by {
            assert(rest[j] == text[j + 1]);
        }
        lemma_modifier_prefix_len(rest, n - 1);
    }
}

/// Appends to `out` every occurrence of `class` in `modifiers`.
fn append_class(modifiers: &Vec<KeyModifier>, class: KeyModifier, out: &mut Vec<KeyModifier>)
    ensures
        final(out)@ == old(out)@ + run_of(class, count_of(modifiers@, class)),
{
    let ghost before = out@;
    let mut i: usize = 0;
    proof {
        modifiers@.take(0).to_multiset_ensures();
        assert(!modifiers@.take(0).contains(class));
        assert(out@ =~= before + run_of(class, 0));
    }
    while i < modifiers.len()
        invariant
            i <= modifiers@.len(),
            out@ == before + run_of(class, count_of(modifiers@.take(i as int), class)),
        decreases modifiers@.len() - i,
    {
        let ghost seen = count_of(modifiers@.take(i as int), class);
        proof {
            assert(modifiers@.take(i + 1) =~= modifiers@.take(i as int).push(modifiers@[i as int]));
            to_multiset_build(modifiers@.take(i as int), modifiers@[i as int]);
        }
        if modifiers[i] == class {
            out.push(class);
            proof {
                assert(run_of(class, seen + 1) =~= run_of(class, seen).push(class));
                assert(out@ =~= before + run_of(class, seen + 1));
            }
        }
        i += 1;
    }
    proof {
        assert(modifiers@.take(i as int) =~= modifiers@);
    }
}

/// The modifiers of `modifiers` in canonical order.
pub fn sort_modifiers(modifiers: &Vec<KeyModifier>) -> (sorted: Vec<KeyModifier>)
    ensures
        sorted@ == canonical_order(modifiers@),
{
    let mut sorted: Vec<KeyModifier> = Vec::new();
    append_class(modifiers, KeyModifier::CtrlCmd, &mut sorted);
    append_class(modifiers, KeyModifier::Shift, &mut sorted);
    append_class(modifiers, KeyModifier::AltOpt, &mut sorted);
    append_class(modifiers, KeyModifier::Function, &mut sorted);
    assert(sorted@ =~= canonical_order(modifiers@));
    sorted
}

/// The symbols of `modifiers`, in the order given, as text.
fn modifier_prefix(modifiers: &Vec<KeyModifier>) -> (prefix: String)
    ensures
        prefix@ == symbols_of(modifiers@),
{
    let mut prefix = String::new();
    let mut i: usize = 0;
    assert(prefix@ =~= symbols_of(modifiers@.take(0)));
    while i < modifiers.len()
        invariant
            i <= modifiers@.len(),
            prefix@ == symbols_of(modifiers@.take(i as int)),
        decreases modifiers@.len() - i,
    {
        prefix.append(modifiers[i].symbol_text());
        assert(prefix@ =~= symbols_of(modifiers@.take(i + 1)));
        i += 1;
    }
    assert(modifiers@.take(i as int) =~= modifiers@);
    prefix
}

impl KeyBind {
    pub fn new(key: Option<KeyCode>, modifiers: Vec<KeyModifier>) -> (bind: Self)
        ensures
            bind.key == key,
            bind.modifiers == modifiers,
    {
        Self { key, modifiers }
    }

    pub fn empty() -> (bind: Self)
        ensures
            bind@ == KeyBindView::unbound(),
    {
        Self { key: None, modifiers: Vec::new() }
    }

    /// Writes the binding as text, and leaves the modifiers of a bound
    /// binding in canonical order.
    pub fn serialize(&mut self) -> (text: String)
        ensures
            text@ == old(self)@.text(),
            final(self)@ == old(self)@.sorted(),
    {
        match self.key {
            Some(key) => {
                let sorted = sort_modifiers(&self.modifiers);
                let mut text = modifier_prefix(&sorted);
                text.append(key.serialize());
                self.modifiers = sorted;
                text
            },
            None => {
                proof {
                    reveal_strlit("...");
                    assert("..."@ =~= unbound_text());
                }
                String::from_str("...")
            },
        }
    }

    /// Writes the binding as text with the modifiers in the order held.
    pub fn simple_name(&self) -> (text: String)
        ensures
            text@ == self@.plain_text(),
    {
        match self.key {
            Some(key) => {
                let mut text = modifier_prefix(&self.modifiers);
                text.append(key.serialize());
                text
            },
            None => {
                proof {
                    reveal_strlit("...");
                    assert("..."@ =~= unbound_text());
                }
                String::from_str("...")
            },
        }
    }

    /// Reads a binding from its text. Fails on text that names no key:
    /// the empty text, modifier symbols alone, the text of the unbound
    /// binding, and a name that the vocabulary does not hold.
    pub fn deserialize(data: String) -> (result: Result<Self, ()>)
        ensures
            match result {
                Ok(bind) => KeyBindView::parse(data@) == Some(bind@),
                Err(_) => KeyBindView::parse(data@) is None,
            },
    {
        let text = data.as_str();
        let len = text.unicode_len();
        let mut modifiers: Vec<KeyModifier> = Vec::new();
        let mut i: usize = 0;
        assert(modifiers@ =~= modifiers_of(text@.take(0)));
        while i < len
            invariant
                i <= len == text@.len(),
                text@ == data@,
                forall|j: int| 0 <= j < i ==> is_modifier_symbol(#[trigger] text@[j]),
                modifiers@ == modifiers_of(text@.take(i as int)),
            decreases len - i,
        {
            let ch = text.get_char(i);
            match KeyModifier::deserialize(ch) {
                Ok(modifier) => {
                    modifiers.push(modifier);
                    assert(modifiers@ =~= modifiers_of(text@.take(i + 1)));
                },
                Err(_) => {
                    proof {
                        lemma_modifier_prefix_len(text@, i as int);
                        assert(text@.subrange(i as int, len as int) =~= text@.skip(i as int));
                    }
                    let name = text.substring_char(i, len);
                    return match KeyCode::deserialize(name) {
                        Ok(Some(key)) => Ok(KeyBind::new(Some(key), modifiers)),
                        _ => Err(()),
                    };
                },
            }
            i += 1;
        }
        proof {
            lemma_modifier_prefix_len(text@, len as int);
            let name = text@.skip(len as int);
            assert(name.len() == 0);
            if KeyCode::from_symbol(name) is Some {
                KeyCode::lemma_symbol_is_no_prefix(KeyCode::from_symbol(name).unwrap());
            }
        }
        Err(())
    }
}

/// A run of one class holds that class as often as it is long, and no other.
pub proof fn lemma_run_of_count(class: KeyModifier, n: nat, other: KeyModifier)
    ensures
        count_of(run_of(class, n), other) == if other == class { n } else { 0 },
    decreases n,
{
    if n == 0 {
        run_of(class, 0).to_multiset_ensures();
        assert(!run_of(class, 0).contains(other));
    } else {
        let shorter = (n - 1) as nat;
        lemma_run_of_count(class, shorter, other);
        assert(run_of(class, n) =~= run_of(class, shorter).push(class));
        to_multiset_build(run_of(class, shorter), class);
    }
}

/// The canonical order holds each modifier as often as the sequence it
/// was made from, and holds them in ascending order.
pub proof fn lemma_canonical_order_sorts(modifiers: Seq<KeyModifier>)
    ensures
        canonical_order(modifiers).to_multiset() == modifiers.to_multiset(),
        canonical_order(modifiers).len() == modifiers.len(),
        is_canonical(canonical_order(modifiers)),
{
    let a = run_of(KeyModifier::CtrlCmd, count_of(modifiers, KeyModifier::CtrlCmd));
    let b = run_of(KeyModifier::Shift, count_of(modifiers, KeyModifier::Shift));
    let c = run_of(KeyModifier::AltOpt, count_of(modifiers, KeyModifier::AltOpt));
    let d = run_of(KeyModifier::Function, count_of(modifiers, KeyModifier::Function));
    let sorted = canonical_order(modifiers);
    assert(sorted == a + b + c + d);
    lemma_multiset_commutative(a, b);
    lemma_multiset_commutative(a + b, c);
    lemma_multiset_commutative(a + b + c, d);
    assert forall|m: KeyModifier|
        sorted.to_multiset().count(m) == modifiers.to_multiset().count(m) by {
        lemma_run_of_count(KeyModifier::CtrlCmd, count_of(modifiers, KeyModifier::CtrlCmd), m);
        lemma_run_of_count(KeyModifier::Shift, count_of(modifiers, KeyModifier::Shift), m);
        lemma_run_of_count(KeyModifier::AltOpt, count_of(modifiers, KeyModifier::AltOpt), m);
        lemma_run_of_count(KeyModifier::Function, count_of(modifiers, KeyModifier::Function), m);
    }
    assert(sorted.to_multiset() =~= modifiers.to_multiset());
    sorted.to_multiset_ensures();
    modifiers.to_multiset_ensures();
}

/// A sequence that is already in ascending order is its own canonical order.
pub proof fn lemma_canonical_order_keeps_sorted(modifiers: Seq<KeyModifier>)
    requires
        is_canonical(modifiers),
    ensures
        canonical_order(modifiers) == modifiers,
{
    let leq = |a: KeyModifier, b: KeyModifier| in_order(a, b);
    lemma_canonical_order_sorts(modifiers);
    assert(sorted_by(modifiers, leq)) by {
        assert forall|i: int, j: int| 0 <= i < j < modifiers.len() implies #[trigger] leq(
            modifiers[i],
            modifiers[j],
        ) by {
            assert(in_order(modifiers[i], modifiers[j]));
        }
    }
    assert(total_ordering(leq)) by {
        assert forall|a: KeyModifier, b: KeyModifier| #[trigger]
            leq(a, b) && #[trigger] leq(b, a) implies a == b by {
            assert(a.rank() == b.rank());
        }
    }
    lemma_sorted_unique(canonical_order(modifiers), modifiers, leq);
}

/// Two bindings with the same key whose modifiers differ in order
/// alone have the same text.
pub proof fn lemma_text_ignores_order(a: KeyBindView, b: KeyBindView)
    requires
        a.key == b.key,
        a.modifiers.to_multiset() == b.modifiers.to_multiset(),
    ensures
        a.text() == b.text(),
        canonical_order(a.modifiers) == canonical_order(b.modifiers),
{
}

/// The text of a binding stays the same when its modifiers are put in
/// canonical order.
pub proof fn lemma_text_of_sorted(bind: KeyBindView)
    ensures
        bind.sorted().text() == bind.text(),
        bind.sorted().plain_text() == bind.text(),
{
    lemma_canonical_order_sorts(bind.modifiers);
    lemma_canonical_order_sorts(canonical_order(bind.modifiers));
    lemma_canonical_order_keeps_sorted(canonical_order(bind.modifiers));
}

/// Reading the plain text of a bound binding gives the binding back.
pub proof fn lemma_parse_plain_text(bind: KeyBindView)
    requires
        bind.key is Some,
    ensures
        KeyBindView::parse(bind.plain_text()) == Some(bind),
{
    let key = bind.key.unwrap();
    let text = bind.plain_text();
    let n = bind.modifiers.len() as int;
    KeyCode::lemma_symbol_is_no_prefix(key);
    KeyCode::lemma_from_symbol_inverts(key);
    assert(text[n] == key.symbol()[0]);
    assert forall|j: int| 0 <= j < n implies is_modifier_symbol(#[trigger] text[j]) by {
        assert(text[j] == bind.modifiers[j].symbol());
    }
    lemma_modifier_prefix_len(text, n);
    assert(text.skip(n) =~= key.symbol());
    assert(text.take(n) =~= symbols_of(bind.modifiers));
    assert(modifiers_of(symbols_of(bind.modifiers)) =~= bind.modifiers);
}

/// Reading the text of a bound binding gives the binding back, with its
/// modifiers in canonical order: the very same binding where it held
/// them in that order.
pub proof fn lemma_round_trip(bind: KeyBindView)
    requires
        bind.key is Some,
    ensures
        KeyBindView::parse(bind.text()) == Some(bind.sorted()),
        is_canonical(bind.modifiers) ==> KeyBindView::parse(bind.text()) == Some(bind),
{
    lemma_parse_plain_text(bind.sorted());
    if is_canonical(bind.modifiers) {
        lemma_canonical_order_keeps_sorted(bind.modifiers);
    }
}

/// An unbound binding is written as the unbound text whatever else it
/// holds, and the unbound text reads as no binding.
pub proof fn lemma_unbound_text(bind: KeyBindView)
    requires
        bind.key is None,
    ensures
        bind.text() == unbound_text(),
        bind.plain_text() == unbound_text(),
        KeyBindView::parse(unbound_text()) is None,
{
    lemma_modifier_prefix_len(unbound_text(), 0);
    assert(unbound_text().skip(0) =~= unbound_text());
}

} // verus!
