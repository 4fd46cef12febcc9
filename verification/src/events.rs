//! Commands, events, errors, and the event sink.
//!
//! The event sequence returned by a command is the immutable, ordered
//! record of what happened while it resolved; order is meaningful.  Each
//! exec type has a ghost view over character sequences and mathematical
//! integers, and every contract speaks of those views.

use vstd::prelude::*;

verus! {

/// A command the dispatcher accepts: register a player, drop a player,
/// move with an explicit roll, or move with rolls drawn from the dice
/// source.
pub enum Command {
    Add(String),
    Remove(String),
    Move(String, u32, u32),
    RollAndMove(String),
}

/// One entry of the ordered record of what a command did.
#[derive(PartialEq, Debug)]
pub enum Event {
    /// The full roster, in registration order, after an `Add` or `Remove`.
    Players(Vec<String>),
    /// The player moved from the first square to the second.
    Moved(String, u32, u32),
    /// A goose square granted another hop with the same distance.
    MovedAgain(String, u32, u32),
    /// The player rolled these two dice.
    Roll(String, u32, u32),
    /// The move overshot the end square.
    Bounced(String),
    /// After the bounce, the player came to rest on this square.
    Return(String, u32),
    /// The player reached the end square.
    Win(String),
    /// An occupant of the landing square (first field) was displaced from
    /// it (second field) back to the mover's pre-command square (third
    /// field).
    Prank(String, u32, u32),
    /// The player landed on the bridge and was relocated to its target.
    Jump(String, u32),
}

/// Error surfaced by the player-state capability.  The roster shipped with
/// this crate cannot fail, so the engine never produces a value of this
/// type; it remains for hosts that wrap the engine's errors together with
/// their own.
#[derive(PartialEq, Eq, Structural, Clone, Copy, Debug)]
pub struct StateError;

/// Why a command was rejected.
#[derive(PartialEq, Debug)]
pub enum Error {
    /// A failure of the player-state capability, surfaced verbatim.
    Inner(StateError),
    /// `Add` of a player that is already registered.
    DuplicatePlayer(String),
    /// A move of a player that is not registered.
    PlayerNotFound(String),
}

/// Ghost counterpart of `Event`: player names as character sequences,
/// squares as mathematical integers.
pub enum EventView {
    Players(Seq<Seq<char>>),
    Moved(Seq<char>, int, int),
    MovedAgain(Seq<char>, int, int),
    Roll(Seq<char>, int, int),
    Bounced(Seq<char>),
    Return(Seq<char>, int),
    Win(Seq<char>),
    Prank(Seq<char>, int, int),
    Jump(Seq<char>, int),
}

/// Ghost counterpart of `Error`.
pub enum ErrorView {
    Inner,
    DuplicatePlayer(Seq<char>),
    PlayerNotFound(Seq<char>),
}

impl View for Event {
    type V = EventView;

    open spec fn view(&self) -> EventView {
        match self {
            Event::Players(roster) => EventView::Players(roster.deep_view()),
            Event::Moved(p, from, to) => EventView::Moved(p@, *from as int, *to as int),
            Event::MovedAgain(p, from, to) => EventView::MovedAgain(p@, *from as int, *to as int),
            Event::Roll(p, d1, d2) => EventView::Roll(p@, *d1 as int, *d2 as int),
            Event::Bounced(p) => EventView::Bounced(p@),
            Event::Return(p, to) => EventView::Return(p@, *to as int),
            Event::Win(p) => EventView::Win(p@),
            Event::Prank(p, from, to) => EventView::Prank(p@, *from as int, *to as int),
            Event::Jump(p, to) => EventView::Jump(p@, *to as int),
        }
    }
}

impl DeepView for Event {
    type V = EventView;

    open spec fn deep_view(&self) -> EventView {
        self.view()
    }
}

impl View for Error {
    type V = ErrorView;

    open spec fn view(&self) -> ErrorView {
        match self {
            Error::Inner(_) => ErrorView::Inner,
            Error::DuplicatePlayer(p) => ErrorView::DuplicatePlayer(p@),
            Error::PlayerNotFound(p) => ErrorView::PlayerNotFound(p@),
        }
    }
}

/// The ghost views of a sequence of events, in order.
pub open spec fn views_of(s: Seq<Event>) -> Seq<EventView> {
    s.map_values(|e: Event| e@)
}

/// Appending an event appends its view.
pub broadcast proof fn lemma_views_of_push(s: Seq<Event>, e: Event)
    ensures
        #[trigger] views_of(s.push(e)) == views_of(s).push(e@),
{
    assert(views_of(s.push(e)) =~= views_of(s).push(e@));
}

/// A vector's deep view is the sequence of its events' views.
pub broadcast proof fn lemma_views_of_vec(v: Vec<Event>)
    ensures
        #[trigger] v.deep_view() == views_of(v@),
{
    assert(v.deep_view() =~= views_of(v@));
}

/// An event sink: a default-constructible, append-only log of events,
/// created fresh for each command and handed to the caller when the
/// command completes.
pub struct SampleEvents {
    events: Vec<Event>,
}

impl View for SampleEvents {
    type V = Seq<Event>;

    closed spec fn view(&self) -> Seq<Event> {
        self.events@
    }
}

impl Default for SampleEvents {
    /// An empty log.
    fn default() -> (sink: SampleEvents)
        ensures
            sink@ == Seq::<Event>::empty(),
    {
        SampleEvents::new()
    }
}

impl SampleEvents {
    /// An empty log.
    pub fn new() -> (sink: SampleEvents)
        ensures
            sink@ == Seq::<Event>::empty(),
    {
        SampleEvents { events: Vec::new() }
    }

    /// Append one event to the log.
    pub fn notify(&mut self, event: Event)
        ensures
            final(self)@ == old(self)@.push(event),
    {
        self.events.push(event);
    }

    /// Hand the accumulated record to the caller.
    pub fn into_vec(self) -> (log: Vec<Event>)
        ensures
            log@ == self@,
    {
        self.events
    }
}

} // verus!
