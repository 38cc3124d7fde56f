//! Key codes of the platform and the portable key codes they stand for.
//!
//! The platform names each key of the keyboard; the device events carry a
//! portable code instead, so that bindings do not depend on the platform. The
//! table between the two is total: every platform key has a portable code of
//! its own, and a key press that comes without a platform key code gets the
//! portable code `KeyCode::NoKey`.

use vstd::prelude::*;

verus! {

/// A key as the platform names it.
#[derive(Clone, Copy, PartialEq, Eq, Structural, Debug, Hash)]
pub enum VirtualKeyCode {
    Key1,
    Key2,
    Key3,
    Key4,
    Key5,
    Key6,
    Key7,
    Key8,
    Key9,
    Key0,
    A,
    B,
    C,
    D,
    E,
    F,
    G,
    H,
    I,
    J,
    K,
    L,
    M,
    N,
    O,
    P,
    Q,
    R,
    S,
    T,
    U,
    V,
    W,
    X,
    Y,
    Z,
    Escape,
    F1,
    F2,
    F3,
    F4,
    F5,
    F6,
    F7,
    F8,
    F9,
    F10,
    F11,
    F12,
    F13,
    F14,
    F15,
    Snapshot,
    Scroll,
    Pause,
    Insert,
    Home,
    Delete,
    End,
    PageDown,
    PageUp,
    Left,
    Up,
    Right,
    Down,
    Back,
    Return,
    Space,
    Compose,
    Numlock,
    Numpad0,
    Numpad1,
    Numpad2,
    Numpad3,
    Numpad4,
    Numpad5,
    Numpad6,
    Numpad7,
    Numpad8,
    Numpad9,
    AbntC1,
    AbntC2,
    Add,
    Apostrophe,
    Apps,
    At,
    Ax,
    Backslash,
    Calculator,
    Capital,
    Colon,
    Comma,
    Convert,
    Decimal,
    Divide,
    Equals,
    Grave,
    Kana,
    Kanji,
    LAlt,
    LBracket,
    LControl,
    LMenu,
    LShift,
    LWin,
    Mail,
    MediaSelect,
    MediaStop,
    Minus,
    Multiply,
    Mute,
    MyComputer,
    NavigateForward,
    NavigateBackward,
    NextTrack,
    NoConvert,
    NumpadComma,
    NumpadEnter,
    NumpadEquals,
    OEM102,
    Period,
    PlayPause,
    Power,
    PrevTrack,
    RAlt,
    RBracket,
    RControl,
    RMenu,
    RShift,
    RWin,
    Semicolon,
    Slash,
    Sleep,
    Stop,
    Subtract,
    Sysrq,
    Tab,
    Underline,
    Unlabeled,
    VolumeDown,
    VolumeUp,
    Wake,
    WebBack,
    WebFavorites,
    WebForward,
    WebHome,
    WebRefresh,
    WebSearch,
    WebStop,
    Yen,
}

/// A key as the device events name it.
#[derive(Clone, Copy, PartialEq, Eq, Structural, Debug, Hash)]
pub enum KeyCode {
    /// The code of a key press that came without a platform key code.
    NoKey,
    Key1,
    Key2,
    Key3,
    Key4,
    Key5,
    Key6,
    Key7,
    Key8,
    Key9,
    Key0,
    A,
    B,
    C,
    D,
    E,
    F,
    G,
    H,
    I,
    J,
    K,
    L,
    M,
    N,
    O,
    P,
    Q,
    R,
    S,
    T,
    U,
    V,
    W,
    X,
    Y,
    Z,
    Escape,
    F1,
    F2,
    F3,
    F4,
    F5,
    F6,
    F7,
    F8,
    F9,
    F10,
    F11,
    F12,
    F13,
    F14,
    F15,
    Snapshot,
    Scroll,
    Pause,
    Insert,
    Home,
    Delete,
    End,
    PageDown,
    PageUp,
    Left,
    Up,
    Right,
    Down,
    Back,
    Return,
    Space,
    Compose,
    Numlock,
    Numpad0,
    Numpad1,
    Numpad2,
    Numpad3,
    Numpad4,
    Numpad5,
    Numpad6,
    Numpad7,
    Numpad8,
    Numpad9,
    AbntC1,
    AbntC2,
    Add,
    Apostrophe,
    Apps,
    At,
    Ax,
    Backslash,
    Calculator,
    Capital,
    Colon,
    Comma,
    Convert,
    Decimal,
    Divide,
    Equals,
    Grave,
    Kana,
    Kanji,
    LAlt,
    LBracket,
    LControl,
    LMenu,
    LShift,
    LWin,
    Mail,
    MediaSelect,
    MediaStop,
    Minus,
    Multiply,
    Mute,
    MyComputer,
    NavigateForward,
    NavigateBackward,
    NextTrack,
    NoConvert,
    NumpadComma,
    NumpadEnter,
    NumpadEquals,
    OEM102,
    Period,
    PlayPause,
    Power,
    PrevTrack,
    RAlt,
    RBracket,
    RControl,
    RMenu,
    RShift,
    RWin,
    Semicolon,
    Slash,
    Sleep,
    Stop,
    Subtract,
    Sysrq,
    Tab,
    Underline,
    Unlabeled,
    VolumeDown,
    VolumeUp,
    Wake,
    WebBack,
    WebFavorites,
    WebForward,
    WebHome,
    WebRefresh,
    WebSearch,
    WebStop,
    Yen,
}

/// The portable code that stands for a platform key.
pub open spec fn portable(key: VirtualKeyCode) -> KeyCode {
    match key {
        VirtualKeyCode::Key1 => KeyCode::Key1,
        VirtualKeyCode::Key2 => KeyCode::Key2,
        VirtualKeyCode::Key3 => KeyCode::Key3,
        VirtualKeyCode::Key4 => KeyCode::Key4,
        VirtualKeyCode::Key5 => KeyCode::Key5,
        VirtualKeyCode::Key6 => KeyCode::Key6,
        VirtualKeyCode::Key7 => KeyCode::Key7,
        VirtualKeyCode::Key8 => KeyCode::Key8,
        VirtualKeyCode::Key9 => KeyCode::Key9,
        VirtualKeyCode::Key0 => KeyCode::Key0,
        VirtualKeyCode::A => KeyCode::A,
        VirtualKeyCode::B => KeyCode::B,
        VirtualKeyCode::C => KeyCode::C,
        VirtualKeyCode::D => KeyCode::D,
        VirtualKeyCode::E => KeyCode::E,
        VirtualKeyCode::F => KeyCode::F,
        VirtualKeyCode::G => KeyCode::G,
        VirtualKeyCode::H => KeyCode::H,
        VirtualKeyCode::I => KeyCode::I,
        VirtualKeyCode::J => KeyCode::J,
        VirtualKeyCode::K => KeyCode::K,
        VirtualKeyCode::L => KeyCode::L,
        VirtualKeyCode::M => KeyCode::M,
        VirtualKeyCode::N => KeyCode::N,
        VirtualKeyCode::O => KeyCode::O,
        VirtualKeyCode::P => KeyCode::P,
        VirtualKeyCode::Q => KeyCode::Q,
        VirtualKeyCode::R => KeyCode::R,
        VirtualKeyCode::S => KeyCode::S,
        VirtualKeyCode::T => KeyCode::T,
        VirtualKeyCode::U => KeyCode::U,
        VirtualKeyCode::V => KeyCode::V,
        VirtualKeyCode::W => KeyCode::W,
        VirtualKeyCode::X => KeyCode::X,
        VirtualKeyCode::Y => KeyCode::Y,
        VirtualKeyCode::Z => KeyCode::Z,
        VirtualKeyCode::Escape => KeyCode::Escape,
        VirtualKeyCode::F1 => KeyCode::F1,
        VirtualKeyCode::F2 => KeyCode::F2,
        VirtualKeyCode::F3 => KeyCode::F3,
        VirtualKeyCode::F4 => KeyCode::F4,
        VirtualKeyCode::F5 => KeyCode::F5,
        VirtualKeyCode::F6 => KeyCode::F6,
        VirtualKeyCode::F7 => KeyCode::F7,
        VirtualKeyCode::F8 => KeyCode::F8,
        VirtualKeyCode::F9 => KeyCode::F9,
        VirtualKeyCode::F10 => KeyCode::F10,
        VirtualKeyCode::F11 => KeyCode::F11,
        VirtualKeyCode::F12 => KeyCode::F12,
        VirtualKeyCode::F13 => KeyCode::F13,
        VirtualKeyCode::F14 => KeyCode::F14,
        VirtualKeyCode::F15 => KeyCode::F15,
        VirtualKeyCode::Snapshot => KeyCode::Snapshot,
        VirtualKeyCode::Scroll => KeyCode::Scroll,
        VirtualKeyCode::Pause => KeyCode::Pause,
        VirtualKeyCode::Insert => KeyCode::Insert,
        VirtualKeyCode::Home => KeyCode::Home,
        VirtualKeyCode::Delete => KeyCode::Delete,
        VirtualKeyCode::End => KeyCode::End,
        VirtualKeyCode::PageDown => KeyCode::PageDown,
        VirtualKeyCode::PageUp => KeyCode::PageUp,
        VirtualKeyCode::Left => KeyCode::Left,
        VirtualKeyCode::Up => KeyCode::Up,
        VirtualKeyCode::Right => KeyCode::Right,
        VirtualKeyCode::Down => KeyCode::Down,
        VirtualKeyCode::Back => KeyCode::Back,
        VirtualKeyCode::Return => KeyCode::Return,
        VirtualKeyCode::Space => KeyCode::Space,
        VirtualKeyCode::Compose => KeyCode::Compose,
        VirtualKeyCode::Numlock => KeyCode::Numlock,
        VirtualKeyCode::Numpad0 => KeyCode::Numpad0,
        VirtualKeyCode::Numpad1 => KeyCode::Numpad1,
        VirtualKeyCode::Numpad2 => KeyCode::Numpad2,
        VirtualKeyCode::Numpad3 => KeyCode::Numpad3,
        VirtualKeyCode::Numpad4 => KeyCode::Numpad4,
        VirtualKeyCode::Numpad5 => KeyCode::Numpad5,
        VirtualKeyCode::Numpad6 => KeyCode::Numpad6,
        VirtualKeyCode::Numpad7 => KeyCode::Numpad7,
        VirtualKeyCode::Numpad8 => KeyCode::Numpad8,
        VirtualKeyCode::Numpad9 => KeyCode::Numpad9,
        VirtualKeyCode::AbntC1 => KeyCode::AbntC1,
        VirtualKeyCode::AbntC2 => KeyCode::AbntC2,
        VirtualKeyCode::Add => KeyCode::Add,
        VirtualKeyCode::Apostrophe => KeyCode::Apostrophe,
        VirtualKeyCode::Apps => KeyCode::Apps,
        VirtualKeyCode::At => KeyCode::At,
        VirtualKeyCode::Ax => KeyCode::Ax,
        VirtualKeyCode::Backslash => KeyCode::Backslash,
        VirtualKeyCode::Calculator => KeyCode::Calculator,
        VirtualKeyCode::Capital => KeyCode::Capital,
        VirtualKeyCode::Colon => KeyCode::Colon,
        VirtualKeyCode::Comma => KeyCode::Comma,
        VirtualKeyCode::Convert => KeyCode::Convert,
        VirtualKeyCode::Decimal => KeyCode::Decimal,
        VirtualKeyCode::Divide => KeyCode::Divide,
        VirtualKeyCode::Equals => KeyCode::Equals,
        VirtualKeyCode::Grave => KeyCode::Grave,
        VirtualKeyCode::Kana => KeyCode::Kana,
        VirtualKeyCode::Kanji => KeyCode::Kanji,
        VirtualKeyCode::LAlt => KeyCode::LAlt,
        VirtualKeyCode::LBracket => KeyCode::LBracket,
        VirtualKeyCode::LControl => KeyCode::LControl,
        VirtualKeyCode::LMenu => KeyCode::LMenu,
        VirtualKeyCode::LShift => KeyCode::LShift,
        VirtualKeyCode::LWin => KeyCode::LWin,
        VirtualKeyCode::Mail => KeyCode::Mail,
        VirtualKeyCode::MediaSelect => KeyCode::MediaSelect,
        VirtualKeyCode::MediaStop => KeyCode::MediaStop,
        VirtualKeyCode::Minus => KeyCode::Minus,
        VirtualKeyCode::Multiply => KeyCode::Multiply,
        VirtualKeyCode::Mute => KeyCode::Mute,
        VirtualKeyCode::MyComputer => KeyCode::MyComputer,
        VirtualKeyCode::NavigateForward => KeyCode::NavigateForward,
        VirtualKeyCode::NavigateBackward => KeyCode::NavigateBackward,
        VirtualKeyCode::NextTrack => KeyCode::NextTrack,
        VirtualKeyCode::NoConvert => KeyCode::NoConvert,
        VirtualKeyCode::NumpadComma => KeyCode::NumpadComma,
        VirtualKeyCode::NumpadEnter => KeyCode::NumpadEnter,
        VirtualKeyCode::NumpadEquals => KeyCode::NumpadEquals,
        VirtualKeyCode::OEM102 => KeyCode::OEM102,
        VirtualKeyCode::Period => KeyCode::Period,
        VirtualKeyCode::PlayPause => KeyCode::PlayPause,
        VirtualKeyCode::Power => KeyCode::Power,
        VirtualKeyCode::PrevTrack => KeyCode::PrevTrack,
        VirtualKeyCode::RAlt => KeyCode::RAlt,
        VirtualKeyCode::RBracket => KeyCode::RBracket,
        VirtualKeyCode::RControl => KeyCode::RControl,
        VirtualKeyCode::RMenu => KeyCode::RMenu,
        VirtualKeyCode::RShift => KeyCode::RShift,
        VirtualKeyCode::RWin => KeyCode::RWin,
        VirtualKeyCode::Semicolon => KeyCode::Semicolon,
        VirtualKeyCode::Slash => KeyCode::Slash,
        VirtualKeyCode::Sleep => KeyCode::Sleep,
        VirtualKeyCode::Stop => KeyCode::Stop,
        VirtualKeyCode::Subtract => KeyCode::Subtract,
        VirtualKeyCode::Sysrq => KeyCode::Sysrq,
        VirtualKeyCode::Tab => KeyCode::Tab,
        VirtualKeyCode::Underline => KeyCode::Underline,
        VirtualKeyCode::Unlabeled => KeyCode::Unlabeled,
        VirtualKeyCode::VolumeDown => KeyCode::VolumeDown,
        VirtualKeyCode::VolumeUp => KeyCode::VolumeUp,
        VirtualKeyCode::Wake => KeyCode::Wake,
        VirtualKeyCode::WebBack => KeyCode::WebBack,
        VirtualKeyCode::WebFavorites => KeyCode::WebFavorites,
        VirtualKeyCode::WebForward => KeyCode::WebForward,
        VirtualKeyCode::WebHome => KeyCode::WebHome,
        VirtualKeyCode::WebRefresh => KeyCode::WebRefresh,
        VirtualKeyCode::WebSearch => KeyCode::WebSearch,
        VirtualKeyCode::WebStop => KeyCode::WebStop,
        VirtualKeyCode::Yen => KeyCode::Yen,
    }
}

/// The portable code of a key event, which may come without a platform key.
pub open spec fn portable_or_none(keycode: Option<VirtualKeyCode>) -> KeyCode {
    match keycode {
        Some(key) => portable(key),
        None => KeyCode::NoKey,
    }
}

/// Every platform key has a portable code: none of them is mapped to `NoKey`.
pub proof fn lemma_every_key_is_defined(key: VirtualKeyCode)
    ensures
        portable(key) != KeyCode::NoKey,
{
}

/// Distinct platform keys have distinct portable codes.
pub proof fn lemma_keys_stay_distinct(a: VirtualKeyCode, b: VirtualKeyCode)
    requires
        portable(a) == portable(b),
    ensures
        a == b,
{
}

/// A key event has the code `NoKey` exactly when it came without a key code.
pub proof fn lemma_none_only_for_absent(keycode: Option<VirtualKeyCode>)
    ensures
        portable_or_none(keycode) == KeyCode::NoKey <==> keycode is None,
{
    if let Some(key) = keycode {
        lemma_every_key_is_defined(key);
    }
}

/// Gives the portable code of a key event.
pub fn map_keycode(keycode: &Option<VirtualKeyCode>) -> (code: KeyCode)
    ensures
        code == portable_or_none(*keycode),
        code == KeyCode::NoKey <==> *keycode is None,
{
    match *keycode {
        Some(kc) => {
            match kc {
                VirtualKeyCode::Key1 => KeyCode::Key1,
                VirtualKeyCode::Key2 => KeyCode::Key2,
                VirtualKeyCode::Key3 => KeyCode::Key3,
                VirtualKeyCode::Key4 => KeyCode::Key4,
                VirtualKeyCode::Key5 => KeyCode::Key5,
                VirtualKeyCode::Key6 => KeyCode::Key6,
                VirtualKeyCode::Key7 => KeyCode::Key7,
                VirtualKeyCode::Key8 => KeyCode::Key8,
                VirtualKeyCode::Key9 => KeyCode::Key9,
                VirtualKeyCode::Key0 => KeyCode::Key0,
                VirtualKeyCode::A => KeyCode::A,
                VirtualKeyCode::B => KeyCode::B,
                VirtualKeyCode::C => KeyCode::C,
                VirtualKeyCode::D => KeyCode::D,
                VirtualKeyCode::E => KeyCode::E,
                VirtualKeyCode::F => KeyCode::F,
                VirtualKeyCode::G => KeyCode::G,
                VirtualKeyCode::H => KeyCode::H,
                VirtualKeyCode::I => KeyCode::I,
                VirtualKeyCode::J => KeyCode::J,
                VirtualKeyCode::K => KeyCode::K,
                VirtualKeyCode::L => KeyCode::L,
                VirtualKeyCode::M => KeyCode::M,
                VirtualKeyCode::N => KeyCode::N,
                VirtualKeyCode::O => KeyCode::O,
                VirtualKeyCode::P => KeyCode::P,
                VirtualKeyCode::Q => KeyCode::Q,
                VirtualKeyCode::R => KeyCode::R,
                VirtualKeyCode::S => KeyCode::S,
                VirtualKeyCode::T => KeyCode::T,
                VirtualKeyCode::U => KeyCode::U,
                VirtualKeyCode::V => KeyCode::V,
                VirtualKeyCode::W => KeyCode::W,
                VirtualKeyCode::X => KeyCode::X,
                VirtualKeyCode::Y => KeyCode::Y,
                VirtualKeyCode::Z => KeyCode::Z,
                VirtualKeyCode::Escape => KeyCode::Escape,
                VirtualKeyCode::F1 => KeyCode::F1,
                VirtualKeyCode::F2 => KeyCode::F2,
                VirtualKeyCode::F3 => KeyCode::F3,
                VirtualKeyCode::F4 => KeyCode::F4,
                VirtualKeyCode::F5 => KeyCode::F5,
                VirtualKeyCode::F6 => KeyCode::F6,
                VirtualKeyCode::F7 => KeyCode::F7,
                VirtualKeyCode::F8 => KeyCode::F8,
                VirtualKeyCode::F9 => KeyCode::F9,
                VirtualKeyCode::F10 => KeyCode::F10,
                VirtualKeyCode::F11 => KeyCode::F11,
                VirtualKeyCode::F12 => KeyCode::F12,
                VirtualKeyCode::F13 => KeyCode::F13,
                VirtualKeyCode::F14 => KeyCode::F14,
                VirtualKeyCode::F15 => KeyCode::F15,
                VirtualKeyCode::Snapshot => KeyCode::Snapshot,
                VirtualKeyCode::Scroll => KeyCode::Scroll,
                VirtualKeyCode::Pause => KeyCode::Pause,
                VirtualKeyCode::Insert => KeyCode::Insert,
                VirtualKeyCode::Home => KeyCode::Home,
                VirtualKeyCode::Delete => KeyCode::Delete,
                VirtualKeyCode::End => KeyCode::End,
                VirtualKeyCode::PageDown => KeyCode::PageDown,
                VirtualKeyCode::PageUp => KeyCode::PageUp,
                VirtualKeyCode::Left => KeyCode::Left,
                VirtualKeyCode::Up => KeyCode::Up,
                VirtualKeyCode::Right => KeyCode::Right,
                VirtualKeyCode::Down => KeyCode::Down,
                VirtualKeyCode::Back => KeyCode::Back,
                VirtualKeyCode::Return => KeyCode::Return,
                VirtualKeyCode::Space => KeyCode::Space,
                VirtualKeyCode::Compose => KeyCode::Compose,
                VirtualKeyCode::Numlock => KeyCode::Numlock,
                VirtualKeyCode::Numpad0 => KeyCode::Numpad0,
                VirtualKeyCode::Numpad1 => KeyCode::Numpad1,
                VirtualKeyCode::Numpad2 => KeyCode::Numpad2,
                VirtualKeyCode::Numpad3 => KeyCode::Numpad3,
                VirtualKeyCode::Numpad4 => KeyCode::Numpad4,
                VirtualKeyCode::Numpad5 => KeyCode::Numpad5,
                VirtualKeyCode::Numpad6 => KeyCode::Numpad6,
                VirtualKeyCode::Numpad7 => KeyCode::Numpad7,
                VirtualKeyCode::Numpad8 => KeyCode::Numpad8,
                VirtualKeyCode::Numpad9 => KeyCode::Numpad9,
                VirtualKeyCode::AbntC1 => KeyCode::AbntC1,
                VirtualKeyCode::AbntC2 => KeyCode::AbntC2,
                VirtualKeyCode::Add => KeyCode::Add,
                VirtualKeyCode::Apostrophe => KeyCode::Apostrophe,
                VirtualKeyCode::Apps => KeyCode::Apps,
                VirtualKeyCode::At => KeyCode::At,
                VirtualKeyCode::Ax => KeyCode::Ax,
                VirtualKeyCode::Backslash => KeyCode::Backslash,
                VirtualKeyCode::Calculator => KeyCode::Calculator,
                VirtualKeyCode::Capital => KeyCode::Capital,
                VirtualKeyCode::Colon => KeyCode::Colon,
                VirtualKeyCode::Comma => KeyCode::Comma,
                VirtualKeyCode::Convert => KeyCode::Convert,
                VirtualKeyCode::Decimal => KeyCode::Decimal,
                VirtualKeyCode::Divide => KeyCode::Divide,
                VirtualKeyCode::Equals => KeyCode::Equals,
                VirtualKeyCode::Grave => KeyCode::Grave,
                VirtualKeyCode::Kana => KeyCode::Kana,
                VirtualKeyCode::Kanji => KeyCode::Kanji,
                VirtualKeyCode::LAlt => KeyCode::LAlt,
                VirtualKeyCode::LBracket => KeyCode::LBracket,
                VirtualKeyCode::LControl => KeyCode::LControl,
                VirtualKeyCode::LMenu => KeyCode::LMenu,
                VirtualKeyCode::LShift => KeyCode::LShift,
                VirtualKeyCode::LWin => KeyCode::LWin,
                VirtualKeyCode::Mail => KeyCode::Mail,
                VirtualKeyCode::MediaSelect => KeyCode::MediaSelect,
                VirtualKeyCode::MediaStop => KeyCode::MediaStop,
                VirtualKeyCode::Minus => KeyCode::Minus,
                VirtualKeyCode::Multiply => KeyCode::Multiply,
                VirtualKeyCode::Mute => KeyCode::Mute,
                VirtualKeyCode::MyComputer => KeyCode::MyComputer,
                VirtualKeyCode::NavigateForward => KeyCode::NavigateForward,
                VirtualKeyCode::NavigateBackward => KeyCode::NavigateBackward,
                VirtualKeyCode::NextTrack => KeyCode::NextTrack,
                VirtualKeyCode::NoConvert => KeyCode::NoConvert,
                VirtualKeyCode::NumpadComma => KeyCode::NumpadComma,
                VirtualKeyCode::NumpadEnter => KeyCode::NumpadEnter,
                VirtualKeyCode::NumpadEquals => KeyCode::NumpadEquals,
                VirtualKeyCode::OEM102 => KeyCode::OEM102,
                VirtualKeyCode::Period => KeyCode::Period,
                VirtualKeyCode::PlayPause => KeyCode::PlayPause,
                VirtualKeyCode::Power => KeyCode::Power,
                VirtualKeyCode::PrevTrack => KeyCode::PrevTrack,
                VirtualKeyCode::RAlt => KeyCode::RAlt,
                VirtualKeyCode::RBracket => KeyCode::RBracket,
                VirtualKeyCode::RControl => KeyCode::RControl,
                VirtualKeyCode::RMenu => KeyCode::RMenu,
                VirtualKeyCode::RShift => KeyCode::RShift,
                VirtualKeyCode::RWin => KeyCode::RWin,
                VirtualKeyCode::Semicolon => KeyCode::Semicolon,
                VirtualKeyCode::Slash => KeyCode::Slash,
                VirtualKeyCode::Sleep => KeyCode::Sleep,
                VirtualKeyCode::Stop => KeyCode::Stop,
                VirtualKeyCode::Subtract => KeyCode::Subtract,
                VirtualKeyCode::Sysrq => KeyCode::Sysrq,
                VirtualKeyCode::Tab => KeyCode::Tab,
                VirtualKeyCode::Underline => KeyCode::Underline,
                VirtualKeyCode::Unlabeled => KeyCode::Unlabeled,
                VirtualKeyCode::VolumeDown => KeyCode::VolumeDown,
                VirtualKeyCode::VolumeUp => KeyCode::VolumeUp,
                VirtualKeyCode::Wake => KeyCode::Wake,
                VirtualKeyCode::WebBack => KeyCode::WebBack,
                VirtualKeyCode::WebFavorites => KeyCode::WebFavorites,
                VirtualKeyCode::WebForward => KeyCode::WebForward,
                VirtualKeyCode::WebHome => KeyCode::WebHome,
                VirtualKeyCode::WebRefresh => KeyCode::WebRefresh,
                VirtualKeyCode::WebSearch => KeyCode::WebSearch,
                VirtualKeyCode::WebStop => KeyCode::WebStop,
                VirtualKeyCode::Yen => KeyCode::Yen,
            }
        },
        None => KeyCode::NoKey,
    }
}

} // verus!
