use egui_keybinds::keycodes::{same_text, KEY_COUNT};
use egui_keybinds::{KeyCode, KeyModifier};

#[test]
fn every_key_name_reads_back() {
    for i in 0..KEY_COUNT {
        let key = KeyCode::nth(i).unwrap();
        assert_eq!(KeyCode::deserialize(key.serialize()), Ok(Some(key)));
    }
}

#[test]
fn no_two_keys_share_a_name() {
    for i in 0..KEY_COUNT {
        for j in 0..KEY_COUNT {
            let (a, b) = (KeyCode::nth(i).unwrap(), KeyCode::nth(j).unwrap());
            assert_eq!(a.serialize() == b.serialize(), i == j);
            assert_eq!(a == b, i == j);
        }
    }
}

#[test]
fn no_key_name_begins_with_a_modifier_symbol() {
    for i in 0..KEY_COUNT {
        let name = KeyCode::nth(i).unwrap().serialize();
        let first = name.chars().next().unwrap();
        assert!(first.is_ascii_uppercase());
        assert!(KeyModifier::deserialize(first).is_err());
        assert_ne!(name, "...");
    }
}

#[test]
fn the_vocabulary_ends_at_its_count() {
    assert_eq!(KEY_COUNT, 97);
    assert_eq!(KeyCode::nth(0), Some(KeyCode::Key0));
    assert_eq!(KeyCode::nth(96), Some(KeyCode::Slash));
    assert_eq!(KeyCode::nth(97), None);
    assert_eq!(KeyCode::nth(255), None);
}

#[test]
fn key_names_are_as_written() {
    assert_eq!(KeyCode::A.serialize(), "A");
    assert_eq!(KeyCode::Key0.serialize(), "Key0");
    assert_eq!(KeyCode::F12.serialize(), "F12");
    assert_eq!(KeyCode::Escape.serialize(), "Escape");
    assert_eq!(KeyCode::LShift.serialize(), "LShift");
    assert_eq!(KeyCode::RControl.serialize(), "RControl");
    assert_eq!(KeyCode::Function.serialize(), "Function");
    assert_eq!(KeyCode::NumpadMultiply.serialize(), "NumpadMultiply");
    assert_eq!(KeyCode::BackSlash.serialize(), "BackSlash");
}

#[test]
fn key_names_read_exactly() {
    assert_eq!(KeyCode::deserialize("F1"), Ok(Some(KeyCode::F1)));
    assert_eq!(KeyCode::deserialize("F10"), Ok(Some(KeyCode::F10)));
    assert_eq!(KeyCode::deserialize("F"), Ok(Some(KeyCode::F)));
    assert_eq!(KeyCode::deserialize("Numpad1"), Ok(Some(KeyCode::Numpad1)));
    assert_eq!(KeyCode::deserialize("Slash"), Ok(Some(KeyCode::Slash)));
}

#[test]
fn the_unbound_text_reads_as_no_key() {
    assert_eq!(KeyCode::deserialize("..."), Ok(None));
}

#[test]
fn an_unknown_name_is_an_error() {
    assert_eq!(KeyCode::deserialize(""), Err(()));
    assert_eq!(KeyCode::deserialize("a"), Err(()));
    assert_eq!(KeyCode::deserialize("F13"), Err(()));
    assert_eq!(KeyCode::deserialize("Escap"), Err(()));
    assert_eq!(KeyCode::deserialize("Escapee"), Err(()));
    assert_eq!(KeyCode::deserialize(" A"), Err(()));
    assert_eq!(KeyCode::deserialize(".."), Err(()));
    assert_eq!(KeyCode::deserialize("...."), Err(()));
    assert_eq!(KeyCode::deserialize("\u{c4}"), Err(()));
}

#[test]
fn modifier_symbols_are_as_written() {
    assert_eq!(KeyModifier::CtrlCmd.serialize(), '^');
    assert_eq!(KeyModifier::Shift.serialize(), '_');
    assert_eq!(KeyModifier::AltOpt.serialize(), '*');
    assert_eq!(KeyModifier::Function.serialize(), '!');
    assert_eq!(KeyModifier::CtrlCmd.symbol_text(), "^");
    assert_eq!(KeyModifier::Shift.symbol_text(), "_");
    assert_eq!(KeyModifier::AltOpt.symbol_text(), "*");
    assert_eq!(KeyModifier::Function.symbol_text(), "!");
}

#[test]
fn modifier_symbols_read_back() {
    let all = [
        KeyModifier::CtrlCmd,
        KeyModifier::Shift,
        KeyModifier::AltOpt,
        KeyModifier::Function,
    ];
    for modifier in all {
        assert_eq!(KeyModifier::deserialize(modifier.serialize()), Ok(modifier));
    }
    assert_eq!(KeyModifier::deserialize('A'), Err(()));
    assert_eq!(KeyModifier::deserialize('.'), Err(()));
    assert_eq!(KeyModifier::deserialize('-'), Err(()));
}

#[test]
fn modifiers_are_ordered_as_declared() {
    assert!(KeyModifier::CtrlCmd < KeyModifier::Shift);
    assert!(KeyModifier::Shift < KeyModifier::AltOpt);
    assert!(KeyModifier::AltOpt < KeyModifier::Function);
    assert!(KeyModifier::CtrlCmd < KeyModifier::Function);
    assert!(!(KeyModifier::Shift < KeyModifier::Shift));
    assert!(KeyModifier::Shift <= KeyModifier::Shift);
    assert!(KeyModifier::Function > KeyModifier::AltOpt);
}

#[test]
fn modifier_positions_count_from_zero() {
    assert_eq!(KeyModifier::CtrlCmd.position(), 0);
    assert_eq!(KeyModifier::Shift.position(), 1);
    assert_eq!(KeyModifier::AltOpt.position(), 2);
    assert_eq!(KeyModifier::Function.position(), 3);
}

#[test]
fn comparing_modifiers_goes_by_position() {
    let all = [
        KeyModifier::CtrlCmd,
        KeyModifier::Shift,
        KeyModifier::AltOpt,
        KeyModifier::Function,
    ];
    for a in all {
        for b in all {
            assert_eq!(a.partial_cmp(&b), Some(a.position().cmp(&b.position())));
            assert_eq!(a.cmp(&b), a.position().cmp(&b.position()));
            assert_eq!(a == b, a.position() == b.position());
        }
    }
}

#[test]
fn modifier_keys_fall_into_their_class() {
    assert_eq!(KeyCode::LControl.as_modifier(), Some(KeyModifier::CtrlCmd));
    assert_eq!(KeyCode::RControl.as_modifier(), Some(KeyModifier::CtrlCmd));
    assert_eq!(KeyCode::Meta.as_modifier(), Some(KeyModifier::CtrlCmd));
    assert_eq!(KeyCode::LShift.as_modifier(), Some(KeyModifier::Shift));
    assert_eq!(KeyCode::RShift.as_modifier(), Some(KeyModifier::Shift));
    assert_eq!(KeyCode::LAlt.as_modifier(), Some(KeyModifier::AltOpt));
    assert_eq!(KeyCode::RAlt.as_modifier(), Some(KeyModifier::AltOpt));
    assert_eq!(KeyCode::Function.as_modifier(), Some(KeyModifier::Function));
}

#[test]
fn other_keys_are_no_modifiers() {
    let mut modifier_keys: usize = 0;
    for i in 0..KEY_COUNT {
        if KeyCode::nth(i).unwrap().as_modifier().is_some() {
            modifier_keys += 1;
        }
    }
    assert_eq!(modifier_keys, 8);
    assert_eq!(KeyCode::A.as_modifier(), None);
    assert_eq!(KeyCode::Escape.as_modifier(), None);
    assert_eq!(KeyCode::CapsLock.as_modifier(), None);
}

#[test]
fn same_text_compares_whole_texts() {
    assert!(same_text("", ""));
    assert!(same_text("Escape", "Escape"));
    assert!(!same_text("Escape", "Escapf"));
    assert!(!same_text("F1", "F10"));
    assert!(!same_text("F10", "F1"));
    assert!(!same_text("", "A"));
    assert!(same_text("\u{e9}t\u{e9}", "\u{e9}t\u{e9}"));
    assert!(!same_text("\u{e9}", "\u{e8}"));
}
