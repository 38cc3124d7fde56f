use pong_core::input_mapper::{
    map_action, map_mouse_button, process_event, process_event_at, AmethystEventMapper, DeviceType,
    ElementState, Event, MouseButton, RawInput, RawInputAction, RawInputEvent, RawInputModifiers,
    WindowData,
};
use pong_core::keycode::{KeyCode, VirtualKeyCode};
use pong_core::ratio::{Magnitude, Ratio};

fn window(width: u32, height: u32) -> WindowData {
    WindowData { size: (width, height), cursor_position: None }
}

fn reports(raw: &[RawInput]) -> Vec<RawInputEvent> {
    raw.iter().map(|r| r.event).collect()
}

#[test]
fn a_new_mapper_knows_the_size_and_no_cursor() {
    let mapper = AmethystEventMapper::new((640, 480));
    assert_eq!(mapper.window_data(), window(640, 480));
}

#[test]
fn closing_gives_one_event_of_the_window() {
    let mut next = window(640, 480);
    let raw = process_event_at(7, &Event::Closed, &mut next);
    assert_eq!(raw, vec![RawInput::new(7, DeviceType::Window, 0, RawInputEvent::Close)]);
    assert_eq!(next, window(640, 480));
}

#[test]
fn a_change_of_size_is_reported_and_remembered() {
    let mut next = window(640, 480);
    let raw = process_event_at(8, &Event::Resized(800, 600), &mut next);
    assert_eq!(raw, vec![RawInput::new(8, DeviceType::Window, 0, RawInputEvent::Resize(800, 600))]);
    assert_eq!(next, window(800, 600));
}

#[test]
fn focus_is_reported_as_it_comes() {
    let mut next = window(640, 480);
    for gained in [true, false] {
        let raw = process_event_at(9, &Event::Focused(gained), &mut next);
        assert_eq!(
            raw,
            vec![RawInput::new(9, DeviceType::Window, 0, RawInputEvent::Focus(gained))]
        );
    }
    assert_eq!(next, window(640, 480));
}

#[test]
fn a_character_comes_from_the_keyboard() {
    let mut next = window(640, 480);
    let raw = process_event_at(10, &Event::ReceivedCharacter('ä'), &mut next);
    assert_eq!(raw, vec![RawInput::new(10, DeviceType::Keyboard, 0, RawInputEvent::Char('ä'))]);
}

#[test]
fn a_key_is_reported_by_its_portable_code() {
    let mut next = window(640, 480);
    let down = Event::KeyboardInput(ElementState::Pressed, 17, Some(VirtualKeyCode::W));
    let raw = process_event_at(11, &down, &mut next);
    assert_eq!(
        raw,
        vec![RawInput::new(
            11,
            DeviceType::Keyboard,
            0,
            RawInputEvent::Key(KeyCode::W, RawInputAction::Press, RawInputModifiers::empty()),
        )]
    );
    let up = Event::KeyboardInput(ElementState::Released, 57, Some(VirtualKeyCode::Space));
    let raw = process_event_at(12, &up, &mut next);
    assert_eq!(
        reports(&raw),
        vec![RawInputEvent::Key(KeyCode::Space, RawInputAction::Release, RawInputModifiers::empty())]
    );
}

#[test]
fn a_key_without_a_name_has_the_code_for_no_key() {
    let mut next = window(640, 480);
    let raw = process_event_at(1, &Event::KeyboardInput(ElementState::Pressed, 200, None), &mut next);
    assert_eq!(
        reports(&raw),
        vec![RawInputEvent::Key(KeyCode::NoKey, RawInputAction::Press, RawInputModifiers::empty())]
    );
}

#[test]
fn no_modifiers_are_reported() {
    let none = RawInputModifiers::empty();
    assert!(!none.shift && !none.control && !none.alt && !none.logo);
}

#[test]
fn presses_and_releases_are_told_apart() {
    assert_eq!(map_action(&ElementState::Pressed), RawInputAction::Press);
    assert_eq!(map_action(&ElementState::Released), RawInputAction::Release);
}

#[test]
fn the_buttons_are_numbered() {
    assert_eq!(map_mouse_button(&MouseButton::Left), 1);
    assert_eq!(map_mouse_button(&MouseButton::Right), 2);
    assert_eq!(map_mouse_button(&MouseButton::Middle), 3);
    assert_eq!(map_mouse_button(&MouseButton::Other(0)), 0);
    assert_eq!(map_mouse_button(&MouseButton::Other(2)), 2);
    assert_eq!(map_mouse_button(&MouseButton::Other(9)), 9);
    assert_eq!(map_mouse_button(&MouseButton::Other(255)), 255);
}

#[test]
fn a_button_before_any_move_is_reported_at_zero() {
    let mut next = window(640, 480);
    let raw = process_event_at(
        3,
        &Event::MouseInput(ElementState::Pressed, MouseButton::Left),
        &mut next,
    );
    assert_eq!(
        raw,
        vec![RawInput::new(
            3,
            DeviceType::Mouse,
            0,
            RawInputEvent::Button(
                1,
                Ratio::zero(),
                Ratio::zero(),
                RawInputAction::Press,
                RawInputModifiers::empty(),
            ),
        )]
    );
    assert_eq!(next, window(640, 480));
}

#[test]
fn a_button_is_reported_where_the_cursor_was_last_seen() {
    let mut next = WindowData { size: (640, 480), cursor_position: Some((160, 360)) };
    let raw = process_event_at(
        3,
        &Event::MouseInput(ElementState::Released, MouseButton::Other(7)),
        &mut next,
    );
    assert_eq!(
        reports(&raw),
        vec![RawInputEvent::Button(
            7,
            Ratio::new(160, 640),
            Ratio::new(360, 480),
            RawInputAction::Release,
            RawInputModifiers::empty(),
        )]
    );
}

#[test]
fn the_first_move_reports_a_position_only() {
    let mut next = window(640, 480);
    let raw = process_event_at(5, &Event::MouseMoved(320, 120), &mut next);
    assert_eq!(
        raw,
        vec![RawInput::new(
            5,
            DeviceType::Mouse,
            0,
            RawInputEvent::CursorPosition(Ratio::new(320, 640), Ratio::new(120, 480)),
        )]
    );
    assert_eq!(next.cursor_position, Some((320, 120)));
    assert_eq!(next.size, (640, 480));
}

#[test]
fn every_later_move_reports_the_motion_too() {
    let mut next = window(640, 480);
    process_event_at(5, &Event::MouseMoved(320, 120), &mut next);
    let raw = process_event_at(6, &Event::MouseMoved(300, 180), &mut next);
    assert_eq!(
        raw,
        vec![
            RawInput::new(
                6,
                DeviceType::Mouse,
                0,
                RawInputEvent::CursorPosition(Ratio::new(300, 640), Ratio::new(180, 480)),
            ),
            RawInput::new(
                6,
                DeviceType::Mouse,
                0,
                RawInputEvent::Motion(Ratio::new(-20, 640), Ratio::new(60, 480)),
            ),
        ]
    );
    let raw = process_event_at(7, &Event::MouseMoved(300, 180), &mut next);
    assert_eq!(
        reports(&raw),
        vec![
            RawInputEvent::CursorPosition(Ratio::new(300, 640), Ratio::new(180, 480)),
            RawInputEvent::Motion(Ratio::new(0, 640), Ratio::new(0, 480)),
        ]
    );
}

#[test]
fn a_position_inside_the_window_lies_between_zero_and_one() {
    for (width, height) in [(1u32, 1u32), (640, 480), (1920, 1080), (u32::MAX, 7)] {
        let xs = [0i64, 1, width as i64 / 2, width as i64];
        let ys = [0i64, 1, height as i64 / 2, height as i64];
        for x in xs {
            for y in ys {
                if x > i32::MAX as i64 {
                    continue;
                }
                let mut next = window(width, height);
                let raw = process_event_at(0, &Event::MouseMoved(x as i32, y as i32), &mut next);
                match raw[0].event {
                    RawInputEvent::CursorPosition(px, py) => {
                        assert!(px.den > 0 && 0 <= px.num && px.num <= px.den as i64);
                        assert!(py.den > 0 && 0 <= py.num && py.num <= py.den as i64);
                        let fx = px.num as f64 / px.den as f64;
                        let fy = py.num as f64 / py.den as f64;
                        assert!((0.0..=1.0).contains(&fx) && (0.0..=1.0).contains(&fy));
                    }
                    other => panic!("not a position: {:?}", other),
                }
            }
        }
    }
}

#[test]
fn a_move_in_a_window_without_size_divides_by_zero() {
    let mut next = window(0, 0);
    let raw = process_event_at(0, &Event::MouseMoved(5, 0), &mut next);
    assert_eq!(reports(&raw), vec![RawInputEvent::CursorPosition(Ratio::new(5, 0), Ratio::new(0, 0))]);
    let raw = process_event_at(0, &Event::MouseMoved(2, 0), &mut next);
    match raw[1].event {
        RawInputEvent::Motion(dx, dy) => {
            assert_eq!(dx, Ratio::new(-3, 0));
            assert_eq!(dx.classify(), Magnitude::NegativeInfinity);
            assert_eq!(dy.classify(), Magnitude::Undefined);
        }
        other => panic!("not a motion: {:?}", other),
    }
}

#[test]
fn the_largest_move_does_not_overflow() {
    let mut next = window(1, 1);
    process_event_at(0, &Event::MouseMoved(i32::MIN, i32::MAX), &mut next);
    let raw = process_event_at(0, &Event::MouseMoved(i32::MAX, i32::MIN), &mut next);
    assert_eq!(
        reports(&raw),
        vec![
            RawInputEvent::CursorPosition(Ratio::new(2_147_483_647, 1), Ratio::new(-2_147_483_648, 1)),
            RawInputEvent::Motion(Ratio::new(4_294_967_295, 1), Ratio::new(-4_294_967_295, 1)),
        ]
    );
}

#[test]
fn the_other_events_of_the_window_give_nothing() {
    let others = [
        Event::Moved(10, 20),
        Event::DroppedFile,
        Event::MouseEntered,
        Event::MouseLeft,
        Event::MouseWheel,
        Event::TouchpadPressure,
        Event::Awakened,
        Event::Refresh,
        Event::Suspended(true),
        Event::Touch,
    ];
    for event in others {
        let mut next = WindowData { size: (640, 480), cursor_position: Some((1, 2)) };
        assert_eq!(process_event_at(0, &event, &mut next), Vec::new());
        assert_eq!(next, WindowData { size: (640, 480), cursor_position: Some((1, 2)) });
    }
}

#[test]
fn a_frame_of_events_is_reported_in_its_order() {
    let mut mapper = AmethystEventMapper::new((640, 480));
    let events = vec![
        Event::Focused(true),
        Event::MouseMoved(320, 240),
        Event::Awakened,
        Event::KeyboardInput(ElementState::Pressed, 1, Some(VirtualKeyCode::Escape)),
        Event::MouseMoved(330, 240),
        Event::Closed,
    ];
    let raw = mapper.process_events(&events);
    assert_eq!(
        reports(&raw),
        vec![
            RawInputEvent::Focus(true),
            RawInputEvent::CursorPosition(Ratio::new(320, 640), Ratio::new(240, 480)),
            RawInputEvent::Key(KeyCode::Escape, RawInputAction::Press, RawInputModifiers::empty()),
            RawInputEvent::CursorPosition(Ratio::new(330, 640), Ratio::new(240, 480)),
            RawInputEvent::Motion(Ratio::new(10, 640), Ratio::new(0, 480)),
            RawInputEvent::Close,
        ]
    );
    let devices: Vec<DeviceType> = raw.iter().map(|r| r.device_type).collect();
    assert_eq!(
        devices,
        vec![
            DeviceType::Window,
            DeviceType::Mouse,
            DeviceType::Keyboard,
            DeviceType::Mouse,
            DeviceType::Mouse,
            DeviceType::Window,
        ]
    );
    assert!(raw.iter().all(|r| r.id == 0));
    assert_eq!(raw[3].time, raw[4].time);
    assert_eq!(mapper.window_data(), WindowData { size: (640, 480), cursor_position: Some((330, 240)) });
}

#[test]
fn a_new_size_counts_for_the_rest_of_the_frame() {
    let mut mapper = AmethystEventMapper::new((640, 480));
    let events = vec![
        Event::MouseMoved(320, 240),
        Event::Resized(1280, 960),
        Event::MouseMoved(640, 480),
        Event::MouseInput(ElementState::Pressed, MouseButton::Right),
    ];
    let raw = mapper.process_events(&events);
    assert_eq!(
        reports(&raw),
        vec![
            RawInputEvent::CursorPosition(Ratio::new(320, 640), Ratio::new(240, 480)),
            RawInputEvent::Resize(1280, 960),
            RawInputEvent::CursorPosition(Ratio::new(640, 1280), Ratio::new(480, 960)),
            RawInputEvent::Motion(Ratio::new(320, 1280), Ratio::new(240, 960)),
            RawInputEvent::Button(
                2,
                Ratio::new(640, 1280),
                Ratio::new(480, 960),
                RawInputAction::Press,
                RawInputModifiers::empty(),
            ),
        ]
    );
}

#[test]
fn the_cursor_is_remembered_from_frame_to_frame() {
    let mut mapper = AmethystEventMapper::new((100, 100));
    let first = mapper.process_events(&vec![Event::Focused(true), Event::MouseMoved(10, 10)]);
    assert_eq!(first.len(), 2);
    let empty = mapper.process_events(&Vec::new());
    assert_eq!(empty, Vec::new());
    let second = mapper.process_events(&vec![Event::MouseMoved(30, 5)]);
    assert_eq!(
        reports(&second),
        vec![
            RawInputEvent::CursorPosition(Ratio::new(30, 100), Ratio::new(5, 100)),
            RawInputEvent::Motion(Ratio::new(20, 100), Ratio::new(-5, 100)),
        ]
    );
}

#[test]
fn two_frames_give_what_one_frame_of_all_their_events_gives() {
    let a = vec![Event::MouseMoved(1, 2), Event::Resized(50, 60)];
    let b = vec![Event::MouseMoved(3, 4), Event::Closed];
    let mut whole = a.clone();
    whole.extend(b.iter().cloned());
    let mut in_two = AmethystEventMapper::new((10, 20));
    let mut raw = in_two.process_events(&a);
    raw.extend(in_two.process_events(&b));
    let mut in_one = AmethystEventMapper::new((10, 20));
    assert_eq!(reports(&raw), reports(&in_one.process_events(&whole)));
    assert_eq!(in_two.window_data(), in_one.window_data());
}

#[test]
fn events_carry_the_time_of_the_clock() {
    let mut next = window(640, 480);
    let first = process_event(&Event::MouseMoved(1, 1), &mut next);
    let second = process_event(&Event::MouseMoved(2, 2), &mut next);
    assert_eq!(first.len(), 1);
    assert_eq!(second.len(), 2);
    assert_eq!(second[0].time, second[1].time);
    assert!(first[0].time > 0);
    let mut later = 0;
    for _ in 0..1000 {
        later = process_event(&Event::Closed, &mut next)[0].time;
        if later != first[0].time {
            break;
        }
    }
    assert_ne!(later, first[0].time);
}
