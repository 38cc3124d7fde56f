//! From the events of the window to device events.
//!
//! Every event of the window is turned into zero, one or two device events,
//! in the order in which the events arrive. The size of the window and the
//! last position of the cursor are remembered from one event to the next:
//! positions are reported as fractions of the window's size, and a move of
//! the cursor is also reported as the difference to the position before it.

use vstd::prelude::*;
use crate::keycode::{map_keycode, portable_or_none, KeyCode, VirtualKeyCode};
use crate::ratio::Ratio;

verus! {

/// Whether a key or a button went down or up.
#[derive(Clone, Copy, PartialEq, Eq, Structural, Debug)]
pub enum ElementState {
    Pressed,
    Released,
}

/// A button of the mouse as the platform names it.
#[derive(Clone, Copy, PartialEq, Eq, Structural, Debug)]
pub enum MouseButton {
    Left,
    Right,
    Middle,
    Other(u8),
}

/// An event of the window. Sizes and positions are counted in pixels.
#[derive(Clone, Copy, PartialEq, Eq, Structural, Debug)]
pub enum Event {
    Resized(u32, u32),
    Moved(i32, i32),
    Closed,
    DroppedFile,
    ReceivedCharacter(char),
    Focused(bool),
    /// The state of the key, its scan code and the key's name, if it has one.
    KeyboardInput(ElementState, u8, Option<VirtualKeyCode>),
    MouseMoved(i32, i32),
    MouseEntered,
    MouseLeft,
    MouseWheel,
    MouseInput(ElementState, MouseButton),
    TouchpadPressure,
    Awakened,
    Refresh,
    Suspended(bool),
    Touch,
}

/// The class of device that an event comes from.
#[derive(Clone, Copy, PartialEq, Eq, Structural, Debug)]
pub enum DeviceType {
    Window,
    Keyboard,
    Mouse,
}

/// Whether a key or a button was pressed or released.
#[derive(Clone, Copy, PartialEq, Eq, Structural, Debug)]
pub enum RawInputAction {
    Press,
    Release,
}

/// The modifier keys that were held down when an event occurred.
#[derive(Clone, Copy, PartialEq, Eq, Structural, Debug)]
pub struct RawInputModifiers {
    pub shift: bool,
    pub control: bool,
    pub alt: bool,
    pub logo: bool,
}

impl RawInputModifiers {
    /// No modifier key at all.
    pub open spec fn none() -> RawInputModifiers {
        RawInputModifiers { shift: false, control: false, alt: false, logo: false }
    }

    /// No modifier key at all.
    pub fn empty() -> (modifiers: RawInputModifiers)
        ensures
            modifiers == RawInputModifiers::none(),
    {
        RawInputModifiers { shift: false, control: false, alt: false, logo: false }
    }
}

/// What a device event reports.
#[derive(Clone, Copy, PartialEq, Eq, Structural, Debug)]
pub enum RawInputEvent {
    Close,
    /// The new width and height of the window, in pixels.
    Resize(u32, u32),
    Focus(bool),
    Char(char),
    Key(KeyCode, RawInputAction, RawInputModifiers),
    /// The number of the button, and where the cursor was last seen, as
    /// fractions of the window's width and height.
    Button(u32, Ratio, Ratio, RawInputAction, RawInputModifiers),
    /// Where the cursor is, as fractions of the window's width and height.
    CursorPosition(Ratio, Ratio),
    /// By how much the cursor moved, as fractions of the window's width and
    /// height.
    Motion(Ratio, Ratio),
}

/// A device event: what happened, when, and on which device.
#[derive(Clone, Copy, PartialEq, Eq, Structural, Debug)]
pub struct RawInput {
    /// Nanoseconds since an epoch that is not specified.
    pub time: u64,
    pub device_type: DeviceType,
    /// The number of the device within its class.
    pub id: u32,
    pub event: RawInputEvent,
}

impl RawInput {
    pub fn new(time: u64, device_type: DeviceType, id: u32, event: RawInputEvent) -> (raw: RawInput)
        ensures
            raw == (RawInput { time, device_type, id, event }),
    {
        RawInput { time, device_type, id, event }
    }
}

/// What is remembered of the window between two events: its size in pixels
/// and the last position of the cursor, if the cursor has moved yet.
#[derive(Clone, Copy, PartialEq, Eq, Debug)]
pub struct WindowData {
    pub size: (u32, u32),
    pub cursor_position: Option<(i32, i32)>,
}

/// Press for a key or button that went down, release for one that went up.
pub open spec fn action_of(state: ElementState) -> RawInputAction {
    match state {
        ElementState::Pressed => RawInputAction::Press,
        ElementState::Released => RawInputAction::Release,
    }
}

/// The number of a button: one, two and three for the left, right and middle
/// button, and the platform's own number for any other.
pub open spec fn button_number(button: MouseButton) -> u32 {
    match button {
        MouseButton::Left => 1,
        MouseButton::Right => 2,
        MouseButton::Middle => 3,
        MouseButton::Other(b) => b as u32,
    }
}

/// A count of pixels as a fraction of an extent of the window.
pub open spec fn normalized(pixels: int, extent: u32) -> Ratio {
    Ratio { num: pixels as i64, den: extent }
}

/// The position that a button event reports: the last position of the
/// cursor as a fraction of the window's size, or zero if the cursor has not
/// moved yet.
pub open spec fn last_seen(window: WindowData) -> (Ratio, Ratio) {
    match window.cursor_position {
        Some(position) => (
            normalized(position.0 as int, window.size.0),
            normalized(position.1 as int, window.size.1),
        ),
        None => (Ratio { num: 0, den: 1 }, Ratio { num: 0, den: 1 }),
    }
}

/// What the device events report that one event of the window gives rise to,
/// in a window of which `window` is remembered.
///
/// A move of the cursor reports the new position and, unless it is the first
/// move, the difference to the position before it. A change of size reports
/// the new size. Closing, focus, characters, keys and buttons give one event
/// each, and every other event of the window gives none.
pub open spec fn emitted(event: Event, window: WindowData) -> Seq<RawInputEvent> {
    match event {
        Event::Closed => seq![RawInputEvent::Close],
        Event::Resized(width, height) => seq![RawInputEvent::Resize(width, height)],
        Event::Focused(gained) => seq![RawInputEvent::Focus(gained)],
        Event::ReceivedCharacter(ch) => seq![RawInputEvent::Char(ch)],
        Event::KeyboardInput(state, _, keycode) => seq![
            RawInputEvent::Key(
                portable_or_none(keycode),
                action_of(state),
                RawInputModifiers::none(),
            ),
        ],
        Event::MouseInput(state, button) => seq![
            RawInputEvent::Button(
                button_number(button),
                last_seen(window).0,
                last_seen(window).1,
                action_of(state),
                RawInputModifiers::none(),
            ),
        ],
        Event::MouseMoved(x, y) => {
            let position = RawInputEvent::CursorPosition(
                normalized(x as int, window.size.0),
                normalized(y as int, window.size.1),
            );
            match window.cursor_position {
                Some(before) => seq![
                    position,
                    RawInputEvent::Motion(
                        normalized(x - before.0, window.size.0),
                        normalized(y - before.1, window.size.1),
                    ),
                ],
                None => seq![position],
            }
        },
        _ => Seq::empty(),
    }
}

/// What is remembered of the window after one of its events: a change of
/// size sets the size, a move of the cursor sets the cursor's position, and
/// nothing else changes anything.
pub open spec fn next_window(event: Event, window: WindowData) -> WindowData {
    match event {
        Event::Resized(width, height) => WindowData { size: (width, height), ..window },
        Event::MouseMoved(x, y) => WindowData { cursor_position: Some((x, y)), ..window },
        _ => window,
    }
}

/// The class of device that reports an event.
pub open spec fn device_of(event: RawInputEvent) -> DeviceType {
    match event {
        RawInputEvent::Close => DeviceType::Window,
        RawInputEvent::Resize(_, _) => DeviceType::Window,
        RawInputEvent::Focus(_) => DeviceType::Window,
        RawInputEvent::Char(_) => DeviceType::Keyboard,
        RawInputEvent::Key(_, _, _) => DeviceType::Keyboard,
        RawInputEvent::Button(_, _, _, _, _) => DeviceType::Mouse,
        RawInputEvent::CursorPosition(_, _) => DeviceType::Mouse,
        RawInputEvent::Motion(_, _) => DeviceType::Mouse,
    }
}

/// The device events that report `reports` at the time `time`. There is one
/// device of each class, so every event comes from device zero.
pub open spec fn stamped(time: u64, reports: Seq<RawInputEvent>) -> Seq<RawInput> {
    Seq::new(
        reports.len(),
        |i: int| RawInput { time, device_type: device_of(reports[i]), id: 0, event: reports[i] },
    )
}

/// What a sequence of device events reports, without times and devices.
pub open spec fn reports_of(raw: Seq<RawInput>) -> Seq<RawInputEvent> {
    Seq::new(raw.len(), |i: int| raw[i].event)
}

/// What is remembered of the window after a sequence of its events.
pub open spec fn window_after(window: WindowData, events: Seq<Event>) -> WindowData
    decreases events.len(),
{
    if events.len() == 0 {
        window
    } else {
        next_window(events.last(), window_after(window, events.drop_last()))
    }
}

/// What the device events report that a sequence of events of the window
/// gives rise to: the reports of each event in turn, each in the window as
/// the events before it have left it.
pub open spec fn emitted_all(window: WindowData, events: Seq<Event>) -> Seq<RawInputEvent>
    decreases events.len(),
{
    if events.len() == 0 {
        Seq::empty()
    } else {
        emitted_all(window, events.drop_last()) + emitted(
            events.last(),
            window_after(window, events.drop_last()),
        )
    }
}

/// Whether the event at `i`, if it reports a motion, directly follows the
/// report of the position that it belongs to, with the same time.
pub open spec fn motion_follows_position(raw: Seq<RawInput>, i: int) -> bool {
    raw[i].event is Motion ==> i > 0 && raw[i - 1].event is CursorPosition && raw[i - 1].time
        == raw[i].time
}

/// Whether the device events carry the device class of what they report and
/// the device number zero, and every report of a motion directly follows the
/// report of the position that it belongs to, with the same time.
pub open spec fn well_stamped(raw: Seq<RawInput>) -> bool {
    &&& forall|i: int|
        0 <= i < raw.len() ==> (#[trigger] raw[i]).id == 0 && raw[i].device_type == device_of(
            raw[i].event,
        )
    &&& forall|i: int| 0 <= i < raw.len() ==> #[trigger] motion_follows_position(raw, i)
}

/// One more event adds its reports to those of the events before it, and
/// leaves the window as it follows from the window that they left.
pub proof fn lemma_one_more_event(window: WindowData, events: Seq<Event>, i: int)
    requires
        0 <= i < events.len(),
    ensures
        emitted_all(window, events.take(i + 1)) == emitted_all(window, events.take(i)) + emitted(
            events[i],
            window_after(window, events.take(i)),
        ),
        window_after(window, events.take(i + 1)) == next_window(
            events[i],
            window_after(window, events.take(i)),
        ),
{
    assert(events.take(i + 1).drop_last() =~= events.take(i));
    assert(events.take(i + 1).last() == events[i]);
}

/// Two runs of device events, one after the other, report what the first
/// reports and then what the second reports, and are well stamped if both
/// are.
pub proof fn lemma_joined(first: Seq<RawInput>, second: Seq<RawInput>)
    ensures
        reports_of(first + second) == reports_of(first) + reports_of(second),
        well_stamped(first) && well_stamped(second) ==> well_stamped(first + second),
{
    let joined = first + second;
    assert(reports_of(joined) =~= reports_of(first) + reports_of(second));
    if well_stamped(first) && well_stamped(second) {
        assert forall|k: int| 0 <= k < joined.len() implies (#[trigger] joined[k]).id == 0
            && joined[k].device_type == device_of(joined[k].event) by {
            if k >= first.len() {
                assert(joined[k] == second[k - first.len()]);
            } else {
                assert(joined[k] == first[k]);
            }
        }
        assert forall|k: int| 0 <= k < joined.len() implies #[trigger] motion_follows_position(
            joined,
            k,
        ) by {
            if k >= first.len() {
                assert(motion_follows_position(second, k - first.len()));
                assert(joined[k] == second[k - first.len()]);
                if k - first.len() > 0 {
                    assert(joined[k - 1] == second[k - first.len() - 1]);
                }
            } else {
                assert(motion_follows_position(first, k));
                assert(joined[k] == first[k]);
                if k > 0 {
                    assert(joined[k - 1] == first[k - 1]);
                }
            }
        }
    }
}

/// A cursor inside a window of positive size is reported at a position whose
/// two fractions lie between zero and one.
pub proof fn lemma_position_in_unit_square(window: WindowData, x: i32, y: i32)
    requires
        window.size.0 > 0,
        window.size.1 > 0,
        0 <= x <= window.size.0,
        0 <= y <= window.size.1,
    ensures
        emitted(Event::MouseMoved(x, y), window).len() >= 1,
        match emitted(Event::MouseMoved(x, y), window)[0] {
            RawInputEvent::CursorPosition(px, py) => px.in_unit_interval()
                && py.in_unit_interval(),
            _ => false,
        },
{
}

/// Events that do not move the cursor leave its remembered position as it
/// was.
pub proof fn lemma_cursor_stays(window: WindowData, events: Seq<Event>)
    requires
        forall|k: int| 0 <= k < events.len() ==> !((#[trigger] events[k]) is MouseMoved),
    ensures
        window_after(window, events).cursor_position == window.cursor_position,
    decreases events.len(),
{
    if events.len() > 0 {
        assert(!(events[events.len() - 1] is MouseMoved));
        lemma_cursor_stays(window, events.drop_last());
    }
}

/// After a move of the cursor that no other move follows, the remembered
/// position is that of the move.
pub proof fn lemma_cursor_remembered(window: WindowData, events: Seq<Event>, j: int, x: i32, y: i32)
    requires
        0 <= j < events.len(),
        events[j] == Event::MouseMoved(x, y),
        forall|k: int| j < k < events.len() ==> !((#[trigger] events[k]) is MouseMoved),
    ensures
        window_after(window, events).cursor_position == Some((x, y)),
    decreases events.len(),
{
    if j < events.len() - 1 {
        assert(!(events[events.len() - 1] is MouseMoved));
        lemma_cursor_remembered(window, events.drop_last(), j, x, y);
    }
}

/// After a change of size that no other change of size follows, the
/// remembered size is that of the change; without any change of size it is
/// the size that was remembered before.
pub proof fn lemma_size_remembered(window: WindowData, events: Seq<Event>, j: int, size: (u32, u32))
    requires
        -1 <= j < events.len(),
        j >= 0 ==> events[j] == Event::Resized(size.0, size.1),
        j == -1 ==> size == window.size,
        forall|k: int| j < k < events.len() ==> !((#[trigger] events[k]) is Resized),
    ensures
        window_after(window, events).size == size,
    decreases events.len(),
{
    if j < events.len() - 1 {
        assert(!(events[events.len() - 1] is Resized));
        lemma_size_remembered(window, events.drop_last(), j, size);
    }
}

/// The first move of the cursor in a window that was just set up reports a
/// position and no motion, whatever other events came before it.
pub proof fn lemma_first_move_reports_no_motion(
    size: (u32, u32),
    events: Seq<Event>,
    i: int,
    x: i32,
    y: i32,
)
    requires
        0 <= i < events.len(),
        events[i] == Event::MouseMoved(x, y),
        forall|k: int| 0 <= k < i ==> !((#[trigger] events[k]) is MouseMoved),
    ensures
        ({
            let window = window_after(
                WindowData { size, cursor_position: None },
                events.take(i),
            );
            emitted(events[i], window) == seq![
                RawInputEvent::CursorPosition(
                    normalized(x as int, window.size.0),
                    normalized(y as int, window.size.1),
                ),
            ]
        }),
{
    let fresh = WindowData { size, cursor_position: None };
    assert forall|k: int| 0 <= k < events.take(i).len() implies !((#[trigger] events.take(
        i,
    )[k]) is MouseMoved) by {
        assert(events.take(i)[k] == events[k]);
    }
    lemma_cursor_stays(fresh, events.take(i));
}

/// Every move of the cursor after another one reports its position and then
/// the motion since the move before it: the difference of the two positions
/// in pixels, over the size that the window has at the time of the move.
pub proof fn lemma_later_move_reports_motion(
    window: WindowData,
    events: Seq<Event>,
    j: int,
    i: int,
    from: (i32, i32),
    to: (i32, i32),
)
    requires
        0 <= j < i < events.len(),
        events[j] == Event::MouseMoved(from.0, from.1),
        events[i] == Event::MouseMoved(to.0, to.1),
        forall|k: int| j < k < i ==> !((#[trigger] events[k]) is MouseMoved),
    ensures
        ({
            let now = window_after(window, events.take(i));
            emitted(events[i], now) == seq![
                RawInputEvent::CursorPosition(
                    normalized(to.0 as int, now.size.0),
                    normalized(to.1 as int, now.size.1),
                ),
                RawInputEvent::Motion(
                    normalized(to.0 - from.0, now.size.0),
                    normalized(to.1 - from.1, now.size.1),
                ),
            ]
        }),
{
    let earlier = events.take(i);
    assert(earlier[j] == events[j]);
    assert forall|k: int| j < k < earlier.len() implies !((#[trigger] earlier[k]) is MouseMoved) by {
        assert(earlier[k] == events[k]);
    }
    lemma_cursor_remembered(window, earlier, j, from.0, from.1);
}

/// Events processed in two runs give what they give when processed in one:
/// the reports of the first run followed by those of the second, and the
/// same window at the end.
pub proof fn lemma_runs_compose(window: WindowData, first: Seq<Event>, second: Seq<Event>)
    ensures
        window_after(window, first + second) == window_after(
            window_after(window, first),
            second,
        ),
        emitted_all(window, first + second) == emitted_all(window, first) + emitted_all(
            window_after(window, first),
            second,
        ),
    decreases second.len(),
{
    if second.len() == 0 {
        assert(first + second =~= first);
        assert(emitted_all(window, first) + Seq::<RawInputEvent>::empty() =~= emitted_all(
            window,
            first,
        ));
    } else {
        lemma_runs_compose(window, first, second.drop_last());
        assert((first + second).drop_last() =~= first + second.drop_last());
        assert((first + second).last() == second.last());
        let head = emitted_all(window, first);
        let middle = emitted_all(window_after(window, first), second.drop_last());
        let tail = emitted(
            second.last(),
            window_after(window_after(window, first), second.drop_last()),
        );
        assert((head + middle) + tail =~= head + (middle + tail));
    }
}

/// The time of the clock of highest resolution, in nanoseconds since an
/// epoch that is not specified: `time::precise_time_ns`. Nothing is claimed
/// of the value.
#[verifier::external_body]
fn precise_time_ns() -> (now: u64) {
    time::precise_time_ns()
}

/// Tells a press from a release.
pub fn map_action(element_state: &ElementState) -> (action: RawInputAction)
    ensures
        action == action_of(*element_state),
{
    match element_state {
        ElementState::Pressed => RawInputAction::Press,
        ElementState::Released => RawInputAction::Release,
    }
}

/// Gives a button its number.
pub fn map_mouse_button(button: &MouseButton) -> (number: u32)
    ensures
        number == button_number(*button),
{
    match button {
        MouseButton::Left => 1,
        MouseButton::Right => 2,
        MouseButton::Middle => 3,
        MouseButton::Other(b) => *b as u32,
    }
}

/// Turns one event of the window, received at `time`, into device events, and
/// updates what is remembered of the window.
pub fn process_event_at(time: u64, event: &Event, next: &mut WindowData) -> (raw: Vec<RawInput>)
    ensures
        raw@ == stamped(time, emitted(*event, *old(next))),
        *final(next) == next_window(*event, *old(next)),
{
    let mut raw: Vec<RawInput> = Vec::new();
    match event {
        Event::Closed => {
            raw.push(RawInput::new(time, DeviceType::Window, 0, RawInputEvent::Close));
        },
        Event::Resized(x, y) => {
            next.size = (*x, *y);
            raw.push(RawInput::new(time, DeviceType::Window, 0, RawInputEvent::Resize(*x, *y)));
        },
        Event::Focused(b) => {
            raw.push(RawInput::new(time, DeviceType::Window, 0, RawInputEvent::Focus(*b)));
        },
        Event::ReceivedCharacter(ch) => {
            raw.push(RawInput::new(time, DeviceType::Keyboard, 0, RawInputEvent::Char(*ch)));
        },
        Event::KeyboardInput(state, _, virtual_keycode) => {
            raw.push(
                RawInput::new(
                    time,
                    DeviceType::Keyboard,
                    0,
                    RawInputEvent::Key(
                        map_keycode(virtual_keycode),
                        map_action(state),
                        RawInputModifiers::empty(),
                    ),
                ),
            );
        },
        Event::MouseInput(state, button) => {
            let (x, y): (Ratio, Ratio) = match next.cursor_position {
                Some(position) => (
                    Ratio::new(position.0 as i64, next.size.0),
                    Ratio::new(position.1 as i64, next.size.1),
                ),
                None => (Ratio::zero(), Ratio::zero()),
            };
            raw.push(
                RawInput::new(
                    time,
                    DeviceType::Mouse,
                    0,
                    RawInputEvent::Button(
                        map_mouse_button(button),
                        x,
                        y,
                        map_action(state),
                        RawInputModifiers::empty(),
                    ),
                ),
            );
        },
        Event::MouseMoved(x, y) => {
            raw.push(
                RawInput::new(
                    time,
                    DeviceType::Mouse,
                    0,
                    RawInputEvent::CursorPosition(
                        Ratio::new(*x as i64, next.size.0),
                        Ratio::new(*y as i64, next.size.1),
                    ),
                ),
            );
            match next.cursor_position {
                Some((px, py)) => {
                    raw.push(
                        RawInput::new(
                            time,
                            DeviceType::Mouse,
                            0,
                            RawInputEvent::Motion(
                                Ratio::new(*x as i64 - px as i64, next.size.0),
                                Ratio::new(*y as i64 - py as i64, next.size.1),
                            ),
                        ),
                    );
                },
                None => {},
            }
            next.cursor_position = Some((*x, *y));
        },
        _ => {},
    }
    assert(raw@ =~= stamped(time, emitted(*event, *old(next))));
    raw
}

/// Turns one event of the window into device events that carry the time at
/// which it is processed, and updates what is remembered of the window.
pub fn process_event(event: &Event, next: &mut WindowData) -> (raw: Vec<RawInput>)
    ensures
        exists|time: u64| raw@ == stamped(time, emitted(*event, *old(next))),
        reports_of(raw@) == emitted(*event, *old(next)),
        well_stamped(raw@),
        *final(next) == next_window(*event, *old(next)),
{
    let t: u64 = precise_time_ns();
    let raw: Vec<RawInput> = process_event_at(t, event, next);
    assert(reports_of(raw@) =~= emitted(*event, *old(next)));
    raw
}

/// The part of the input chain that looks at the window: it remembers the
/// size of the window and the last position of the cursor, and turns the
/// events of the window into device events.
pub struct AmethystEventMapper {
    window_data: WindowData,
}

impl AmethystEventMapper {
    /// What is remembered of the window.
    pub closed spec fn window(&self) -> WindowData {
        self.window_data
    }

    /// A mapper for a window of the given size, in pixels, in which the
    /// cursor has not moved yet.
    pub fn new(current_size: (u32, u32)) -> (mapper: AmethystEventMapper)
        ensures
            mapper.window() == (WindowData { size: current_size, cursor_position: None }),
    {
        AmethystEventMapper {
            window_data: WindowData { size: current_size, cursor_position: None },
        }
    }

    /// What is remembered of the window.
    pub fn window_data(&self) -> (window: WindowData)
        ensures
            window == self.window(),
    {
        self.window_data
    }

    /// Turns the events of one frame into device events, in their order.
    pub fn process_events(&mut self, events: &Vec<Event>) -> (raw: Vec<RawInput>)
        ensures
            reports_of(raw@) == emitted_all(old(self).window(), events@),
            well_stamped(raw@),
            final(self).window() == window_after(old(self).window(), events@),
    {
        let mut next: WindowData = self.window_data;
        let mut raw: Vec<RawInput> = Vec::new();
        let mut i: usize = 0;
        assert(events@.take(0) =~= Seq::<Event>::empty());
        assert(reports_of(raw@) =~= Seq::<RawInputEvent>::empty());
        while i < events.len()
            invariant
                0 <= i <= events.len(),
                reports_of(raw@) == emitted_all(old(self).window(), events@.take(i as int)),
                well_stamped(raw@),
                next == window_after(old(self).window(), events@.take(i as int)),
            decreases events.len() - i,
        {
            let ghost before: Seq<RawInput> = raw@;
            let mut more: Vec<RawInput> = process_event(&events[i], &mut next);
            proof {
                lemma_one_more_event(old(self).window(), events@, i as int);
                lemma_joined(before, more@);
            }
            raw.append(&mut more);
            i += 1;
        }
        assert(events@.take(events.len() as int) =~= events@);
        self.window_data = next;
        raw
    }
}

} // verus!
