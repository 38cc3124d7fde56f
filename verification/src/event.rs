//! The events that reach the game once the bindings have been applied.
//!
//! The device events are turned into events of the window and into actions by
//! a binding engine that is not part of this crate. What comes out of it is
//! sorted here: the two kinds of events go to their own queues, and a request
//! to leave ends the sorting.

use shrev::{EventError, EventHandler, ReaderId};
use vstd::prelude::*;
use crate::input::Action;

verus! {

/// The queue of events of the crate `shrev`, which some fill and from which
/// each reader gets what has come in since its last read.
#[verifier::external_type_specification]
#[verifier::external_body]
#[verifier::reject_recursive_types(E)]
pub struct ExEventHandler<E>(EventHandler<E>);

/// The mark of a reader of such a queue: it says where the reader's last read
/// ended.
#[verifier::external_type_specification]
#[verifier::external_body]
pub struct ExReaderId(ReaderId);

/// A change in a state that is held for some time.
#[derive(Clone, Copy, PartialEq, Eq, Structural, Debug)]
pub enum StateAction {
    /// The state has just been switched on.
    Activated,
    /// The state is still on.
    Active,
    /// The state has just been switched off.
    Deactivated,
}

/// What happens to the window, as far as the game needs to know.
#[derive(Clone, Copy, PartialEq, Eq, Structural, Debug)]
pub enum WindowEvent {
    Close,
    Resize(u32, u32),
    Focus(bool),
}

/// What a user asks for, `A` being the set of actions: an action that occurs
/// once, a change in a state, or the value of a range, in millionths.
#[derive(Clone, Copy, PartialEq, Eq, Structural, Debug)]
pub enum ActionEvent<A> {
    Action(A),
    State(A, StateAction),
    Range(A, i32),
}

/// An event after the bindings have been applied.
#[derive(Clone, Copy, PartialEq, Eq, Structural, Debug)]
pub enum MappedEvent<A> {
    Window(WindowEvent),
    Controller(ActionEvent<A>),
}

/// An event of the window on its way to those who listen for them.
#[derive(Clone, Copy, PartialEq, Eq, Structural, Debug)]
pub struct IWindowEvent {
    pub payload: WindowEvent,
}

impl IWindowEvent {
    pub fn new(event: WindowEvent) -> (wrapped: IWindowEvent)
        ensures
            wrapped == (IWindowEvent { payload: event }),
    {
        IWindowEvent { payload: event }
    }
}

/// A player's request on its way to the simulation.
#[derive(Clone, Copy, PartialEq, Eq, Structural, Debug)]
pub struct ControllerEvent {
    pub payload: ActionEvent<Action>,
}

impl ControllerEvent {
    pub fn new(event: ActionEvent<Action>) -> (wrapped: ControllerEvent)
        ensures
            wrapped == (ControllerEvent { payload: event }),
    {
        ControllerEvent { payload: event }
    }
}

/// The events of one frame, sorted.
#[derive(Debug)]
pub struct Sorted {
    /// The events of the window, in their order.
    pub window: Vec<IWindowEvent>,
    /// The players' requests, in their order.
    pub controller: Vec<ControllerEvent>,
    /// Whether the game is to end: the window was closed or a player asked
    /// to leave.
    pub quit: bool,
}

/// Whether an event asks for the game to end.
pub open spec fn asks_to_quit(event: MappedEvent<Action>) -> bool {
    event == MappedEvent::<Action>::Controller(ActionEvent::Action(Action::Exit)) || event
        == MappedEvent::<Action>::Window(WindowEvent::Close)
}

/// How many events come before the first that asks for the game to end: all
/// of them if none does.
pub open spec fn until_quit(events: Seq<MappedEvent<Action>>) -> int
    decreases events.len(),
{
    if events.len() == 0 {
        0
    } else if asks_to_quit(events.first()) {
        0
    } else {
        1 + until_quit(events.drop_first())
    }
}

/// The events of the window among `events`, in their order.
pub open spec fn window_events(events: Seq<MappedEvent<Action>>) -> Seq<IWindowEvent>
    decreases events.len(),
{
    if events.len() == 0 {
        Seq::empty()
    } else {
        let before = window_events(events.drop_last());
        match events.last() {
            MappedEvent::Window(event) => before.push(IWindowEvent { payload: event }),
            MappedEvent::Controller(_) => before,
        }
    }
}

/// The players' requests among `events`, in their order.
pub open spec fn controller_events(events: Seq<MappedEvent<Action>>) -> Seq<ControllerEvent>
    decreases events.len(),
{
    if events.len() == 0 {
        Seq::empty()
    } else {
        let before = controller_events(events.drop_last());
        match events.last() {
            MappedEvent::Window(_) => before,
            MappedEvent::Controller(event) => before.push(ControllerEvent { payload: event }),
        }
    }
}

/// The place of the first request to end is within the events, no event
/// before it asks to end, and the event at that place does, if there is one.
pub proof fn lemma_until_quit(events: Seq<MappedEvent<Action>>)
    ensures
        0 <= until_quit(events) <= events.len(),
        forall|k: int| 0 <= k < until_quit(events) ==> !asks_to_quit(#[trigger] events[k]),
        until_quit(events) < events.len() ==> asks_to_quit(events[until_quit(events)]),
    decreases events.len(),
{
    if events.len() > 0 && !asks_to_quit(events.first()) {
        let rest = events.drop_first();
        lemma_until_quit(rest);
        assert forall|k: int| 0 <= k < until_quit(events) implies !asks_to_quit(
            #[trigger] events[k],
        ) by {
            if k > 0 {
                assert(events[k] == rest[k - 1]);
            }
        }
        if until_quit(events) < events.len() {
            assert(events[until_quit(events)] == rest[until_quit(rest)]);
        }
    }
}

/// The first place at which an event asks to end is the one that
/// `until_quit` names.
pub proof fn lemma_first_quit_is_unique(events: Seq<MappedEvent<Action>>, n: int)
    requires
        0 <= n <= events.len(),
        forall|k: int| 0 <= k < n ==> !asks_to_quit(#[trigger] events[k]),
        n < events.len() ==> asks_to_quit(events[n]),
    ensures
        until_quit(events) == n,
{
    lemma_until_quit(events);
    let m = until_quit(events);
    if m < n {
        assert(!asks_to_quit(events[m]));
    } else if n < m {
        assert(!asks_to_quit(events[n]));
    }
}

/// Sorts the events of one frame. Events of the window and players' requests
/// are told apart and kept in the order in which they come, up to the first
/// event that asks for the game to end: that event and all that follow it are
/// dropped.
pub fn sort_events(events: &Vec<MappedEvent<Action>>) -> (sorted: Sorted)
    ensures
        sorted.quit <==> until_quit(events@) < events@.len(),
        sorted.window@ == window_events(events@.take(until_quit(events@))),
        sorted.controller@ == controller_events(events@.take(until_quit(events@))),
{
    let mut window: Vec<IWindowEvent> = Vec::new();
    let mut controller: Vec<ControllerEvent> = Vec::new();
    let mut quit: bool = false;
    let mut i: usize = 0;
    assert(events@.take(0) =~= Seq::<MappedEvent<Action>>::empty());
    while i < events.len() && !quit
        invariant
            0 <= i <= events.len(),
            forall|k: int| 0 <= k < i ==> !asks_to_quit(#[trigger] events@[k]),
            quit ==> i < events.len() && asks_to_quit(events@[i as int]),
            window@ == window_events(events@.take(i as int)),
            controller@ == controller_events(events@.take(i as int)),
        decreases events.len() - i + (if quit { 0int } else { 1int }),
    {
        let event: MappedEvent<Action> = events[i];
        proof {
            assert(events@.take(i + 1).drop_last() =~= events@.take(i as int));
            assert(events@.take(i + 1).last() == events@[i as int]);
        }
        match event {
            MappedEvent::Controller(ActionEvent::Action(Action::Exit)) => {
                quit = true;
            },
            MappedEvent::Window(WindowEvent::Close) => {
                quit = true;
            },
            MappedEvent::Window(inner) => {
                window.push(IWindowEvent::new(inner));
                i += 1;
            },
            MappedEvent::Controller(inner) => {
                controller.push(ControllerEvent::new(inner));
                i += 1;
            },
        }
    }
    proof {
        lemma_first_quit_is_unique(events@, i as int);
    }
    Sorted { window, controller, quit }
}

/// Why a read of a queue did not give the events that came in since the read
/// before.
#[derive(Debug)]
pub enum ReadError {
    /// More was written in one go than the queue can hold.
    TooLargeWrite,
    /// The reader has fallen behind by more than the queue can hold. The
    /// requests that are still there, and the number of those that are gone.
    LostData(Vec<ControllerEvent>, usize),
    /// The reader belongs to a queue of another type of event.
    InvalidReader,
}

/// The number of events that a queue of the default size holds.
pub const QUEUE_SIZE: usize = 200;

/// What a read of the queue hands to the reader: the events that
/// `EventHandler::read` returns, those that it could keep where the reader
/// had fallen behind, and none where it fails otherwise.
pub uninterp spec fn unread(events: EventHandler<ControllerEvent>, reader_id: ReaderId) -> Seq<
    ControllerEvent,
>;

/// By how many events the queue reckons the reader to be behind: the
/// difference that `EventHandler::read` takes between its own count of what
/// was written and the count that the reader's mark holds.
pub uninterp spec fn behind(events: EventHandler<ControllerEvent>, reader_id: ReaderId) -> nat;

/// An empty queue of the default size: `EventHandler::new`. Nothing is
/// claimed of it.
#[verifier::external_body]
fn new_queue<E: Send + Sync + Clone + 'static>() -> (queue: EventHandler<E>) {
    EventHandler::new()
}

/// Puts one event at the end of a queue: `EventHandler::write_single`.
/// Nothing is claimed of what the queue holds afterwards: it keeps a limited
/// number of events and drops the oldest for the newest.
#[verifier::external_body]
fn write_single<E: Send + Sync + Clone + 'static>(queue: &mut EventHandler<E>, event: E) {
    queue.write_single(event)
}

/// A new reader of the queue: `EventHandler::register_reader`. The mark that
/// it returns stands at the place where the queue writes next and holds the
/// queue's count of what was written, so that the reader is behind by
/// nothing and a read would hand it nothing.
#[verifier::external_body]
fn register_reader(events: &mut EventHandler<ControllerEvent>) -> (reader_id: ReaderId)
    ensures
        unread(*final(events), reader_id) == Seq::<ControllerEvent>::empty(),
        behind(*final(events), reader_id) == 0,
{
    events.register_reader()
}

/// Puts one request at the end of the queue of the players' requests:
/// `EventHandler::write_single`, on a queue of the default size.
///
/// The queue counts one more event as written, or starts its count anew, so
/// that the reader is behind by at most one more. The request takes the
/// place after the last one written, which belongs to none of the events
/// that a read would hand over as long as those are fewer than the queue
/// holds; so a read hands over the same events as before and then the
/// request, provided that the reader was behind by less than the queue
/// holds and that there is one place left.
#[verifier::external_body]
fn write_request(queue: &mut ControllerQueue, event: ControllerEvent)
    ensures
        final(queue).behind() <= old(queue).behind() + 1,
        old(queue).behind() < QUEUE_SIZE && old(queue).pending().len() + 1 < QUEUE_SIZE
            ==> final(queue).pending() == old(queue).pending().push(event),
{
    queue.events.write_single(event)
}

/// What the queue gives to its reader: `EventHandler::read`, with its error
/// told apart variant by variant. The read moves the reader's mark to the
/// place where the queue writes next and gives it the queue's count, so
/// that the reader is behind by nothing afterwards and a second read would
/// hand it nothing. Which events are handed over is not claimed beyond the
/// name that they have: a queue keeps a limited number of events, and what
/// its reader gets depends on how far the reader has fallen behind.
#[verifier::external_body]
fn read_events(queue: &mut ControllerQueue) -> (batch: Result<Vec<ControllerEvent>, ReadError>)
    ensures
        requests_of(batch) == old(queue).pending(),
        final(queue).pending() == Seq::<ControllerEvent>::empty(),
        final(queue).behind() == 0,
{
    match queue.events.read(&mut queue.reader_id) {
        Ok(batch) => Ok(batch),
        Err(EventError::TooLargeWrite) => Err(ReadError::TooLargeWrite),
        Err(EventError::LostData(kept, missed)) => Err(ReadError::LostData(kept, missed)),
        Err(EventError::InvalidReader) => Err(ReadError::InvalidReader),
    }
}

/// The requests that a read of the queue leaves to be applied: what was
/// read, or what could be kept of it if the reader had fallen behind, and
/// nothing after any other failure.
pub open spec fn requests_of(read: Result<Vec<ControllerEvent>, ReadError>) -> Seq<ControllerEvent> {
    match read {
        Ok(batch) => batch@,
        Err(ReadError::LostData(kept, _)) => kept@,
        Err(_) => Seq::empty(),
    }
}

/// The requests that a read of the queue leaves to be applied.
pub fn requests_to_apply(read: Result<Vec<ControllerEvent>, ReadError>) -> (batch: Vec<
    ControllerEvent,
>)
    ensures
        batch@ == requests_of(read),
{
    match read {
        Ok(batch) => batch,
        Err(ReadError::LostData(kept, _)) => kept,
        Err(_) => Vec::new(),
    }
}

/// The queue of the players' requests together with its reader, the
/// simulation. The two are made together and never parted, so that the
/// reader's mark is only ever used with the queue that it belongs to.
pub struct ControllerQueue {
    events: EventHandler<ControllerEvent>,
    reader_id: ReaderId,
}

impl ControllerQueue {
    /// The requests that the next read takes: those that have come in since
    /// the last read, as long as the reader has not fallen behind.
    pub closed spec fn pending(&self) -> Seq<ControllerEvent> {
        unread(self.events, self.reader_id)
    }

    /// By how many requests the queue reckons its reader to be behind.
    pub closed spec fn behind(&self) -> nat {
        behind(self.events, self.reader_id)
    }

    /// How many more requests the queue is certain to keep for its reader:
    /// as many as the reader may still fall behind by, and one less than
    /// there are places left beside the requests that wait to be read.
    pub open spec fn room(&self) -> int {
        let by_count = QUEUE_SIZE - self.behind();
        let by_place = QUEUE_SIZE - 1 - self.pending().len();
        if by_count < by_place {
            by_count
        } else {
            by_place
        }
    }

    /// An empty queue, read up to its end.
    pub fn new() -> (queue: ControllerQueue)
        ensures
            queue.pending() == Seq::<ControllerEvent>::empty(),
            queue.behind() == 0,
            queue.room() == QUEUE_SIZE - 1,
    {
        let mut events: EventHandler<ControllerEvent> = new_queue();
        let reader_id: ReaderId = register_reader(&mut events);
        ControllerQueue { events, reader_id }
    }

    /// Puts one request at the end of the queue. While the queue has room,
    /// the request is the last of those that the next read takes.
    pub fn write_single(&mut self, event: ControllerEvent)
        ensures
            final(self).behind() <= old(self).behind() + 1,
            old(self).room() > 0 ==> final(self).pending() == old(self).pending().push(event)
                && final(self).room() >= old(self).room() - 1,
    {
        write_request(self, event);
    }

    /// Takes the requests that have come in since the last read. If more
    /// have come in than the queue can hold, those that it still holds are
    /// taken.
    pub fn read(&mut self) -> (batch: Vec<ControllerEvent>)
        ensures
            batch@ == old(self).pending(),
            final(self).pending() == Seq::<ControllerEvent>::empty(),
            final(self).behind() == 0,
            final(self).room() == QUEUE_SIZE - 1,
    {
        requests_to_apply(read_events(self))
    }
}

/// The two queues of the game, both empty: one for the events of the window
/// and one for the players' requests.
pub fn init_event_system() -> (queues: (EventHandler<IWindowEvent>, ControllerQueue))
    ensures
        queues.1.pending() == Seq::<ControllerEvent>::empty(),
        queues.1.behind() == 0,
        queues.1.room() == QUEUE_SIZE - 1,
{
    (new_queue(), ControllerQueue::new())
}

/// Sorts the events of one frame into the two queues, in their order, and
/// tells whether the game is to end. The event that asks for the end and all
/// that follow it are dropped. While the queue of the players' requests has
/// room for them, the requests of the frame are the last of those that the
/// next read takes.
pub fn handle_events(
    events: &Vec<MappedEvent<Action>>,
    window_queue: &mut EventHandler<IWindowEvent>,
    controller_queue: &mut ControllerQueue,
) -> (quit: bool)
    ensures
        quit <==> until_quit(events@) < events@.len(),
        ({
            let requests = controller_events(events@.take(until_quit(events@)));
            old(controller_queue).room() >= requests.len() ==> final(controller_queue).pending()
                == old(controller_queue).pending() + requests && final(controller_queue).room()
                >= old(controller_queue).room() - requests.len()
        }),
{
    let sorted: Sorted = sort_events(events);
    let mut i: usize = 0;
    while i < sorted.window.len()
        invariant
            0 <= i <= sorted.window@.len(),
        decreases sorted.window@.len() - i,
    {
        write_single(window_queue, sorted.window[i]);
        i += 1;
    }
    let mut k: usize = 0;
    assert(old(controller_queue).pending() + sorted.controller@.take(0) =~= old(
        controller_queue,
    ).pending());
    while k < sorted.controller.len()
        invariant
            0 <= k <= sorted.controller@.len(),
            old(controller_queue).room() >= sorted.controller@.len() ==> controller_queue.pending()
                == old(controller_queue).pending() + sorted.controller@.take(k as int)
                && controller_queue.room() >= old(controller_queue).room() - k,
        decreases sorted.controller@.len() - k,
    {
        let ghost before: Seq<ControllerEvent> = controller_queue.pending();
        controller_queue.write_single(sorted.controller[k]);
        proof {
            if old(controller_queue).room() >= sorted.controller@.len() {
                assert(sorted.controller@.take(k + 1) =~= sorted.controller@.take(k as int).push(
                    sorted.controller@[k as int],
                ));
                assert(before.push(sorted.controller@[k as int]) =~= old(
                    controller_queue,
                ).pending() + sorted.controller@.take(k + 1));
            }
        }
        k += 1;
    }
    assert(sorted.controller@.take(sorted.controller@.len() as int) =~= sorted.controller@);
    sorted.quit
}

} // verus!
