use pong_core::keycode::{map_keycode, KeyCode, VirtualKeyCode};

#[test]
fn a_key_without_a_name_is_no_key() {
    assert_eq!(map_keycode(&None), KeyCode::NoKey);
}

#[test]
fn the_keys_of_the_game_keep_their_names() {
    assert_eq!(map_keycode(&Some(VirtualKeyCode::Escape)), KeyCode::Escape);
    assert_eq!(map_keycode(&Some(VirtualKeyCode::W)), KeyCode::W);
    assert_eq!(map_keycode(&Some(VirtualKeyCode::S)), KeyCode::S);
    assert_eq!(map_keycode(&Some(VirtualKeyCode::Up)), KeyCode::Up);
    assert_eq!(map_keycode(&Some(VirtualKeyCode::Down)), KeyCode::Down);
    assert_eq!(map_keycode(&Some(VirtualKeyCode::Space)), KeyCode::Space);
}

#[test]
fn the_first_and_the_last_key_of_the_table_are_mapped() {
    assert_eq!(map_keycode(&Some(VirtualKeyCode::Key1)), KeyCode::Key1);
    assert_eq!(map_keycode(&Some(VirtualKeyCode::Yen)), KeyCode::Yen);
}

#[test]
fn keys_of_every_part_of_the_keyboard_are_mapped() {
    let pairs = [
        (VirtualKeyCode::Key0, KeyCode::Key0),
        (VirtualKeyCode::A, KeyCode::A),
        (VirtualKeyCode::Z, KeyCode::Z),
        (VirtualKeyCode::F1, KeyCode::F1),
        (VirtualKeyCode::F15, KeyCode::F15),
        (VirtualKeyCode::Snapshot, KeyCode::Snapshot),
        (VirtualKeyCode::PageDown, KeyCode::PageDown),
        (VirtualKeyCode::Left, KeyCode::Left),
        (VirtualKeyCode::Right, KeyCode::Right),
        (VirtualKeyCode::Back, KeyCode::Back),
        (VirtualKeyCode::Return, KeyCode::Return),
        (VirtualKeyCode::Numlock, KeyCode::Numlock),
        (VirtualKeyCode::Numpad0, KeyCode::Numpad0),
        (VirtualKeyCode::Numpad9, KeyCode::Numpad9),
        (VirtualKeyCode::AbntC1, KeyCode::AbntC1),
        (VirtualKeyCode::LAlt, KeyCode::LAlt),
        (VirtualKeyCode::LControl, KeyCode::LControl),
        (VirtualKeyCode::LShift, KeyCode::LShift),
        (VirtualKeyCode::RAlt, KeyCode::RAlt),
        (VirtualKeyCode::RControl, KeyCode::RControl),
        (VirtualKeyCode::RShift, KeyCode::RShift),
        (VirtualKeyCode::NumpadEnter, KeyCode::NumpadEnter),
        (VirtualKeyCode::OEM102, KeyCode::OEM102),
        (VirtualKeyCode::Tab, KeyCode::Tab),
        (VirtualKeyCode::VolumeUp, KeyCode::VolumeUp),
        (VirtualKeyCode::WebStop, KeyCode::WebStop),
    ];
    for (index, (key, code)) in pairs.iter().enumerate() {
        assert_eq!(map_keycode(&Some(*key)), *code);
        assert_ne!(*code, KeyCode::NoKey);
        for (_, other) in pairs.iter().skip(index + 1) {
            assert_ne!(code, other);
        }
    }
}
