use egui_keybinds::keycodes::KEY_COUNT;
use egui_keybinds::{sort_modifiers, KeyBind, KeyCode, KeyModifier};

const CLASSES: [KeyModifier; 4] = [
    KeyModifier::CtrlCmd,
    KeyModifier::Shift,
    KeyModifier::AltOpt,
    KeyModifier::Function,
];

fn subset(mask: usize) -> Vec<KeyModifier> {
    let mut chosen = vec![];
    for (bit, class) in CLASSES.iter().enumerate() {
        if mask & (1 << bit) != 0 {
            chosen.push(*class);
        }
    }
    chosen
}

#[test]
fn every_binding_reads_back_from_its_text() {
    for i in 0..KEY_COUNT {
        let key = KeyCode::nth(i).unwrap();
        for mask in 0..16usize {
            let mut bind = KeyBind::new(Some(key), subset(mask));
            let text = bind.serialize();
            assert_eq!(KeyBind::deserialize(text), Ok(bind));
        }
    }
}

#[test]
fn a_binding_reads_back_whatever_the_order_it_was_given_in() {
    for mask in 0..16usize {
        let mut reversed = subset(mask);
        reversed.reverse();
        let mut bind = KeyBind::new(Some(KeyCode::PageUp), reversed);
        let text = bind.serialize();
        assert_eq!(
            KeyBind::deserialize(text),
            Ok(KeyBind::new(Some(KeyCode::PageUp), subset(mask)))
        );
    }
}

#[test]
fn the_order_of_the_modifiers_does_not_show_in_the_text() {
    let mut one = KeyBind::new(Some(KeyCode::A), vec![KeyModifier::Shift, KeyModifier::CtrlCmd]);
    let mut two = KeyBind::new(Some(KeyCode::A), vec![KeyModifier::CtrlCmd, KeyModifier::Shift]);
    assert_eq!(one.serialize(), "^_A");
    assert_eq!(two.serialize(), "^_A");
}

#[test]
fn all_four_modifiers_come_out_in_canonical_order() {
    let mut bind = KeyBind::new(
        Some(KeyCode::F5),
        vec![
            KeyModifier::Function,
            KeyModifier::AltOpt,
            KeyModifier::Shift,
            KeyModifier::CtrlCmd,
        ],
    );
    assert_eq!(bind.serialize(), "^_*!F5");
}

#[test]
fn serialize_leaves_the_modifiers_sorted() {
    let mut bind = KeyBind::new(
        Some(KeyCode::Tab),
        vec![KeyModifier::AltOpt, KeyModifier::CtrlCmd],
    );
    assert_eq!(bind.serialize(), "^*Tab");
    assert_eq!(bind.key, Some(KeyCode::Tab));
    assert_eq!(bind.modifiers, vec![KeyModifier::CtrlCmd, KeyModifier::AltOpt]);
    assert_eq!(bind.serialize(), "^*Tab");
}

#[test]
fn a_binding_without_modifiers_is_the_name_of_its_key() {
    let mut bind = KeyBind::new(Some(KeyCode::Escape), vec![]);
    assert_eq!(bind.serialize(), "Escape");
    assert_eq!(bind.simple_name(), "Escape");
}

#[test]
fn modifiers_given_twice_are_written_twice() {
    let mut bind = KeyBind::new(
        Some(KeyCode::A),
        vec![KeyModifier::Shift, KeyModifier::CtrlCmd, KeyModifier::Shift],
    );
    assert_eq!(bind.serialize(), "^__A");
    assert_eq!(
        bind.modifiers,
        vec![KeyModifier::CtrlCmd, KeyModifier::Shift, KeyModifier::Shift]
    );
}

#[test]
fn the_unbound_binding_is_three_dots() {
    assert_eq!(KeyBind::empty().serialize(), "...");
    assert_eq!(KeyBind::empty().simple_name(), "...");
    assert_eq!(KeyBind::new(None, vec![]).serialize(), "...");
}

#[test]
fn three_dots_do_not_read_as_a_binding() {
    assert_eq!(KeyBind::deserialize("...".to_string()), Err(()));
    assert_eq!(KeyBind::deserialize(KeyBind::empty().serialize()), Err(()));
}

#[test]
fn an_unbound_binding_keeps_what_it_holds_when_written() {
    let mut bind = KeyBind::new(None, vec![KeyModifier::Shift, KeyModifier::CtrlCmd]);
    assert_eq!(bind.serialize(), "...");
    assert_eq!(bind.key, None);
    assert_eq!(bind.modifiers, vec![KeyModifier::Shift, KeyModifier::CtrlCmd]);
}

#[test]
fn simple_name_keeps_the_order_held() {
    let bind = KeyBind::new(Some(KeyCode::A), vec![KeyModifier::Shift, KeyModifier::CtrlCmd]);
    assert_eq!(bind.simple_name(), "_^A");
    assert_eq!(bind.modifiers, vec![KeyModifier::Shift, KeyModifier::CtrlCmd]);
    let bind = KeyBind::new(Some(KeyCode::Space), vec![KeyModifier::Function]);
    assert_eq!(bind.simple_name(), "!Space");
}

#[test]
fn text_reads_into_a_binding() {
    assert_eq!(
        KeyBind::deserialize("^_A".to_string()),
        Ok(KeyBind::new(Some(KeyCode::A), vec![KeyModifier::CtrlCmd, KeyModifier::Shift]))
    );
    assert_eq!(
        KeyBind::deserialize("Enter".to_string()),
        Ok(KeyBind::new(Some(KeyCode::Enter), vec![]))
    );
    assert_eq!(
        KeyBind::deserialize("!*LShift".to_string()),
        Ok(KeyBind::new(
            Some(KeyCode::LShift),
            vec![KeyModifier::Function, KeyModifier::AltOpt]
        ))
    );
}

#[test]
fn reading_keeps_order_and_repeats() {
    assert_eq!(
        KeyBind::deserialize("_^A".to_string()),
        Ok(KeyBind::new(Some(KeyCode::A), vec![KeyModifier::Shift, KeyModifier::CtrlCmd]))
    );
    assert_eq!(
        KeyBind::deserialize("^^A".to_string()),
        Ok(KeyBind::new(Some(KeyCode::A), vec![KeyModifier::CtrlCmd, KeyModifier::CtrlCmd]))
    );
}

#[test]
fn text_without_a_key_does_not_read() {
    assert_eq!(KeyBind::deserialize(String::new()), Err(()));
    assert_eq!(KeyBind::deserialize("^".to_string()), Err(()));
    assert_eq!(KeyBind::deserialize("^_*!".to_string()), Err(()));
}

#[test]
fn modifiers_before_three_dots_do_not_read() {
    assert_eq!(KeyBind::deserialize("^...".to_string()), Err(()));
    assert_eq!(KeyBind::deserialize("_^...".to_string()), Err(()));
}

#[test]
fn an_unknown_key_does_not_read() {
    assert_eq!(KeyBind::deserialize("^Nope".to_string()), Err(()));
    assert_eq!(KeyBind::deserialize("a".to_string()), Err(()));
    assert_eq!(KeyBind::deserialize("A^".to_string()), Err(()));
    assert_eq!(KeyBind::deserialize("^ A".to_string()), Err(()));
    assert_eq!(KeyBind::deserialize("^A_".to_string()), Err(()));
    assert_eq!(KeyBind::deserialize("^\u{e9}".to_string()), Err(()));
    assert_eq!(KeyBind::deserialize("\u{e9}^A".to_string()), Err(()));
}

#[test]
fn a_failed_read_leaves_the_binding_in_use_alone() {
    let current = KeyBind::new(Some(KeyCode::S), vec![KeyModifier::CtrlCmd]);
    let kept = match KeyBind::deserialize("^_".to_string()) {
        Ok(read) => read,
        Err(()) => current.clone(),
    };
    assert_eq!(kept, current);
}

#[test]
fn sort_modifiers_sorts_and_keeps_every_one() {
    assert_eq!(sort_modifiers(&vec![]), vec![]);
    assert_eq!(
        sort_modifiers(&vec![
            KeyModifier::Function,
            KeyModifier::Shift,
            KeyModifier::Function,
            KeyModifier::CtrlCmd,
            KeyModifier::AltOpt,
            KeyModifier::Shift,
        ]),
        vec![
            KeyModifier::CtrlCmd,
            KeyModifier::Shift,
            KeyModifier::Shift,
            KeyModifier::AltOpt,
            KeyModifier::Function,
            KeyModifier::Function,
        ]
    );
    for mask in 0..16usize {
        let mut reversed = subset(mask);
        reversed.reverse();
        assert_eq!(sort_modifiers(&reversed), subset(mask));
        assert_eq!(sort_modifiers(&subset(mask)), subset(mask));
    }
}

#[test]
fn new_and_empty_hold_what_they_say() {
    let bind = KeyBind::new(Some(KeyCode::B), vec![KeyModifier::AltOpt]);
    assert_eq!(bind.key, Some(KeyCode::B));
    assert_eq!(bind.modifiers, vec![KeyModifier::AltOpt]);
    let none = KeyBind::empty();
    assert_eq!(none.key, None);
    assert_eq!(none.modifiers, vec![]);
}

#[test]
fn a_clone_is_equal_and_apart() {
    let bind = KeyBind::new(Some(KeyCode::B), vec![KeyModifier::AltOpt, KeyModifier::CtrlCmd]);
    let mut copy = bind.clone();
    assert_eq!(copy, bind);
    copy.serialize();
    assert_eq!(bind.modifiers, vec![KeyModifier::AltOpt, KeyModifier::CtrlCmd]);
    assert_eq!(copy.modifiers, vec![KeyModifier::CtrlCmd, KeyModifier::AltOpt]);
}

#[test]
fn sort_modifiers_agrees_with_the_order_of_the_modifiers() {
    let given = vec![
        KeyModifier::Function,
        KeyModifier::Shift,
        KeyModifier::AltOpt,
        KeyModifier::Shift,
        KeyModifier::CtrlCmd,
    ];
    let mut expected = given.clone();
    expected.sort();
    assert_eq!(sort_modifiers(&given), expected);
}

#[test]
fn bindings_are_equal_when_key_and_modifiers_are() {
    let bind = KeyBind::new(Some(KeyCode::A), vec![KeyModifier::Shift, KeyModifier::CtrlCmd]);
    assert!(bind == KeyBind::new(Some(KeyCode::A), vec![KeyModifier::Shift, KeyModifier::CtrlCmd]));
    assert!(bind != KeyBind::new(Some(KeyCode::B), vec![KeyModifier::Shift, KeyModifier::CtrlCmd]));
    assert!(bind != KeyBind::new(None, vec![KeyModifier::Shift, KeyModifier::CtrlCmd]));
    assert!(bind != KeyBind::new(Some(KeyCode::A), vec![KeyModifier::CtrlCmd, KeyModifier::Shift]));
    assert!(bind != KeyBind::new(Some(KeyCode::A), vec![KeyModifier::Shift]));
    assert!(bind != KeyBind::new(Some(KeyCode::A), vec![]));
    assert!(KeyBind::empty() == KeyBind::new(None, vec![]));
    assert!(KeyBind::empty() != KeyBind::new(None, vec![KeyModifier::Shift]));
}
