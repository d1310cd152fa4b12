use egui_keybinds::store::SessionStore;
use egui_keybinds::widget::{CaptureState, EscapeChoice, FrameInput, FrameOutput};
use egui_keybinds::{KeyBind, KeyCode, KeyModifier};

#[test]
fn a_new_store_knows_only_idle_controls() {
    let store = SessionStore::new();
    assert!(!store.needs_frequent_polling());
    assert!(!store.is_listening(1));
    assert!(!store.is_awaiting_escape_decision(1));
    assert_eq!(store.session(1).state(), CaptureState::Idle);
}

#[test]
fn two_listening_controls_do_not_touch_each_other() {
    let mut store = SessionStore::new();
    let mut first = KeyBind::new(Some(KeyCode::A), vec![]);
    let mut second = KeyBind::new(Some(KeyCode::B), vec![]);
    assert!(store.activate(1, vec![KeyCode::X]));
    assert!(store.activate(2, vec![]));
    assert!(store.is_listening(1));
    assert!(store.is_listening(2));

    assert!(!store.poll(1, &mut first, vec![KeyCode::X, KeyCode::LShift]));
    assert_eq!(store.session(1).modifiers_held(), &vec![KeyModifier::Shift]);
    assert_eq!(store.session(1).last_keys_held(), &vec![KeyCode::X, KeyCode::LShift]);
    assert!(store.session(2).modifiers_held().is_empty());
    assert!(store.session(2).last_keys_held().is_empty());

    assert!(!store.poll(2, &mut second, vec![KeyCode::LControl]));
    assert_eq!(store.session(1).modifiers_held(), &vec![KeyModifier::Shift]);
    assert_eq!(store.session(1).last_keys_held(), &vec![KeyCode::X, KeyCode::LShift]);
    assert_eq!(store.session(2).modifiers_held(), &vec![KeyModifier::CtrlCmd]);
    assert_eq!(store.session(2).last_keys_held(), &vec![KeyCode::LControl]);

    assert!(store.poll(2, &mut second, vec![KeyCode::LControl, KeyCode::C]));
    assert_eq!(second, KeyBind::new(Some(KeyCode::C), vec![KeyModifier::CtrlCmd]));
    assert_eq!(first, KeyBind::new(Some(KeyCode::A), vec![]));
    assert_eq!(store.session(2).state(), CaptureState::Idle);
    assert!(store.is_listening(1));
    assert_eq!(store.session(1).modifiers_held(), &vec![KeyModifier::Shift]);
    assert_eq!(store.session(1).last_keys_held(), &vec![KeyCode::X, KeyCode::LShift]);
}

#[test]
fn controls_with_equal_bindings_have_captures_of_their_own() {
    let mut store = SessionStore::new();
    let mut first = KeyBind::new(Some(KeyCode::A), vec![]);
    let mut second = KeyBind::new(Some(KeyCode::A), vec![]);
    assert!(store.activate(10, vec![]));
    assert!(!store.poll(20, &mut second, vec![KeyCode::Z]));
    assert_eq!(second, KeyBind::new(Some(KeyCode::A), vec![]));
    assert!(store.poll(10, &mut first, vec![KeyCode::Z]));
    assert_eq!(first, KeyBind::new(Some(KeyCode::Z), vec![]));
    assert_eq!(second, KeyBind::new(Some(KeyCode::A), vec![]));
}

#[test]
fn a_pending_escape_of_one_control_leaves_the_other_listening() {
    let mut store = SessionStore::new();
    let mut first = KeyBind::empty();
    let mut second = KeyBind::empty();
    assert!(store.activate(1, vec![]));
    assert!(store.activate(2, vec![]));
    assert!(!store.poll(1, &mut first, vec![KeyCode::Escape]));
    assert!(store.is_awaiting_escape_decision(1));
    assert!(store.is_listening(2));
    assert!(!store.resolve_escape(2, &mut second, EscapeChoice::Bind));
    assert!(store.is_listening(2));
    assert_eq!(second, KeyBind::empty());
    assert!(store.resolve_escape(1, &mut first, EscapeChoice::Bind));
    assert_eq!(first, KeyBind::new(Some(KeyCode::Escape), vec![]));
    assert_eq!(store.session(1).state(), CaptureState::Idle);
    assert!(store.is_listening(2));
}

#[test]
fn clear_ends_the_capture_of_its_control_alone() {
    let mut store = SessionStore::new();
    let mut first = KeyBind::new(Some(KeyCode::A), vec![]);
    assert!(store.activate(1, vec![]));
    assert!(store.activate(2, vec![KeyCode::Q]));
    assert!(store.clear(1, &mut first));
    assert_eq!(first, KeyBind::empty());
    assert_eq!(store.session(1).state(), CaptureState::Idle);
    assert!(store.is_listening(2));
    assert_eq!(store.session(2).last_keys_held(), &vec![KeyCode::Q]);
}

#[test]
fn clear_on_an_idle_unbound_control_of_a_store_succeeds() {
    let mut store = SessionStore::new();
    let mut bind = KeyBind::empty();
    assert!(store.clear(5, &mut bind));
    assert_eq!(bind, KeyBind::empty());
    assert_eq!(store.session(5).state(), CaptureState::Idle);
    assert!(!store.needs_frequent_polling());
}

#[test]
fn activate_is_refused_for_a_control_under_capture() {
    let mut store = SessionStore::new();
    assert!(store.activate(1, vec![KeyCode::A]));
    assert!(!store.activate(1, vec![]));
    assert_eq!(store.session(1).last_keys_held(), &vec![KeyCode::A]);
}

#[test]
fn polling_is_needed_while_any_capture_is_under_way() {
    let mut store = SessionStore::new();
    let mut bind = KeyBind::empty();
    assert!(!store.needs_frequent_polling());
    assert!(store.activate(1, vec![]));
    assert!(store.activate(2, vec![]));
    assert!(store.needs_frequent_polling());
    assert!(store.poll(1, &mut bind, vec![KeyCode::A]));
    assert!(store.needs_frequent_polling());
    assert!(!store.poll(2, &mut bind, vec![KeyCode::Escape]));
    assert!(store.needs_frequent_polling());
    assert!(store.resolve_escape(2, &mut bind, EscapeChoice::Cancel));
    assert!(!store.needs_frequent_polling());
    assert_eq!(bind, KeyBind::new(Some(KeyCode::A), vec![]));
}

#[test]
fn a_frame_of_one_control_goes_through_the_store() {
    let mut store = SessionStore::new();
    let mut bind = KeyBind::new(Some(KeyCode::A), vec![]);
    assert!(store.activate(7, vec![]));
    let click = FrameInput {
        primary_click: true,
        secondary_click: false,
        escape_choice: None,
        keys_held: vec![],
    };
    assert_eq!(
        store.update(3, &mut bind, click),
        FrameOutput { committed: false, rejected: false }
    );
    assert!(store.is_listening(3));
    let keys = FrameInput {
        primary_click: false,
        secondary_click: false,
        escape_choice: None,
        keys_held: vec![KeyCode::RShift, KeyCode::Home],
    };
    assert_eq!(
        store.update(3, &mut bind, keys),
        FrameOutput { committed: true, rejected: false }
    );
    assert_eq!(bind, KeyBind::new(Some(KeyCode::Home), vec![KeyModifier::Shift]));
    assert_eq!(store.session(3).state(), CaptureState::Idle);
    assert!(store.is_listening(7));
    assert!(store.session(7).modifiers_held().is_empty());
}
