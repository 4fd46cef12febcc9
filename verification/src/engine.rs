//! The move-resolution engine and the command dispatcher.
//!
//! A move is resolved as a chain of hops: the roll total is computed once
//! and reused on every hop.  Each hop advances the mover (bouncing off the
//! end square on an overshoot), displaces every occupant of the landing
//! square back to the mover's pre-command square, and then either ends the
//! chain (a normal square, the end square, or the bridge with its
//! relocation) or, on a goose square, repeats with the same distance.
//!
//! The ghost function `chain` is the specification of that state machine:
//! it maps a roster, a mover, and a distance to the exact event sequence
//! and the final roster.  `move_player` is verified to return precisely
//! `chain`'s answer.  The chain carries a fuel of `MAX_HOPS` hops: every
//! hop past the first leaves a goose square, and a chain that revisits a
//! goose square with the same distance would repeat forever, so any chain
//! that terminates at all does so within `MAX_HOPS` hops; the fuel is a
//! defensive bound, not a behavioural limit.

use vstd::prelude::*;

use crate::board::AddPosition;
use crate::board::BRIDGE_TARGET;
use crate::board::END_SQUARE;
use crate::board::MAX_DISTANCE;
use crate::board::PositionType;
use crate::board::advance;
use crate::board::bounces;
use crate::board::classify;
use crate::board::landing;
use crate::board::square_type;
use crate::board::touched;
use crate::events::Command;
use crate::events::Error;
use crate::events::ErrorView;
use crate::events::Event;
use crate::events::EventView;
use crate::events::SampleEvents;
use crate::events::views_of;
use crate::roster::RosterView;
use crate::roster::SampleTheGoose;
use crate::roster::contains_name;
use crate::roster::lemma_idx_of;
use crate::roster::names;
use crate::roster::names_at;
use crate::roster::pos_of;
use crate::roster::remove_name;
use crate::roster::set_pos;

verus! {

broadcast use crate::events::lemma_views_of_push, crate::events::lemma_views_of_vec;

/// Upper bound on the hops of one move chain: the number of goose squares
/// plus one.  A longer chain would revisit a goose square with the same
/// distance and therefore never terminate.
pub const MAX_HOPS: u32 = 7;

/// The movement event of one hop: `Moved` on the first hop, `MovedAgain`
/// on every hop a goose square granted.
pub open spec fn move_event(again: bool, mover: Seq<char>, from: int, to: int) -> EventView {
    if again {
        EventView::MovedAgain(mover, from, to)
    } else {
        EventView::Moved(mover, from, to)
    }
}

/// One `Prank` event per occupant of the landing square, in roster order.
pub open spec fn prank_events(occupants: Seq<Seq<char>>, land: int, initial: int) -> Seq<
    EventView,
> {
    occupants.map_values(|n: Seq<char>| EventView::Prank(n, land, initial))
}

/// The roster after every listed occupant has been displaced back to the
/// mover's pre-command square.
pub open spec fn prank_all(r: RosterView, occupants: Seq<Seq<char>>, initial: int) -> RosterView
    decreases occupants.len(),
{
    if occupants.len() == 0 {
        r
    } else {
        set_pos(prank_all(r, occupants.drop_last(), initial), occupants.last(), initial)
    }
}

/// The events of one hop from `start`: the movement (with bounce events on
/// an overshoot), then one `Prank` per occupant of the landing square.
pub open spec fn hop_events(
    r: RosterView,
    mover: Seq<char>,
    initial: int,
    start: int,
    distance: int,
    again: bool,
) -> Seq<EventView> {
    let land = landing(start, distance);
    let moves = if bounces(start, distance) {
        seq![
            move_event(again, mover, start, touched(start, distance)),
            EventView::Bounced(mover),
            EventView::Return(mover, land),
        ]
    } else {
        seq![move_event(again, mover, start, touched(start, distance))]
    };
    moves + prank_events(names_at(r, land), land, initial)
}

/// The roster after one hop from `start`: the mover stands on the landing
/// square, and every previous occupant of that square is back on the
/// mover's pre-command square.
pub open spec fn hop_roster(
    r: RosterView,
    mover: Seq<char>,
    initial: int,
    start: int,
    distance: int,
) -> RosterView {
    let land = landing(start, distance);
    prank_all(set_pos(r, mover, land), names_at(r, land), initial)
}

/// The full move chain from `start`, with `fuel` hops left: the ordered
/// events it emits and the roster it leaves behind.  A bridge landing
/// relocates the mover and ends the chain; the end square emits `Win` and
/// ends it; a goose square repeats with the same distance; anything else
/// ends the chain quietly.
pub open spec fn chain(
    r: RosterView,
    mover: Seq<char>,
    initial: int,
    start: int,
    distance: int,
    again: bool,
    fuel: nat,
) -> (Seq<EventView>, RosterView)
    decreases fuel,
{
    if fuel == 0 {
        (Seq::empty(), r)
    } else {
        let land = landing(start, distance);
        let evs = hop_events(r, mover, initial, start, distance, again);
        let r2 = hop_roster(r, mover, initial, start, distance);
        if square_type(land) is TheBridge {
            (
                evs.push(EventView::Jump(mover, BRIDGE_TARGET as int)),
                set_pos(r2, mover, BRIDGE_TARGET as int),
            )
        } else if square_type(land) is TheGoose {
            let rest = chain(r2, mover, initial, land, distance, true, (fuel - 1) as nat);
            (evs + rest.0, rest.1)
        } else if square_type(land) is End {
            (evs.push(EventView::Win(mover)), r2)
        } else {
            (evs, r2)
        }
    }
}

/// What a move command returns and leaves behind: `PlayerNotFound` for an
/// unregistered mover (roster untouched), otherwise the `Roll` event
/// followed by the chain's events, and the chain's roster.
pub open spec fn step_move(r: RosterView, mover: Seq<char>, d1: int, d2: int) -> (Result<
    Seq<EventView>,
    ErrorView,
>, RosterView) {
    if !contains_name(r, mover) {
        (Err(ErrorView::PlayerNotFound(mover)), r)
    } else {
        let initial = pos_of(r, mover);
        let c = chain(r, mover, initial, initial, d1 + d2, false, MAX_HOPS as nat);
        (Ok(seq![EventView::Roll(mover, d1, d2)] + c.0), c.1)
    }
}

/// What an add command returns and leaves behind: `DuplicatePlayer` for a
/// registered name (roster untouched), otherwise the player is appended on
/// the start square and the full roster is reported.
pub open spec fn step_add(r: RosterView, player: Seq<char>) -> (Result<
    Seq<EventView>,
    ErrorView,
>, RosterView) {
    if contains_name(r, player) {
        (Err(ErrorView::DuplicatePlayer(player)), r)
    } else {
        let r2 = r.push((player, 0int));
        (Ok(seq![EventView::Players(names(r2))]), r2)
    }
}

/// What a remove command returns and leaves behind: the entry is deleted
/// (an absent name is a no-op, not an error) and the remaining roster is
/// reported.
pub open spec fn step_remove(r: RosterView, player: Seq<char>) -> (Result<
    Seq<EventView>,
    ErrorView,
>, RosterView) {
    let r2 = remove_name(r, player);
    (Ok(seq![EventView::Players(names(r2))]), r2)
}

/// Whether an exec outcome (result plus final roster) is exactly the one a
/// `step_*` function prescribes.
pub open spec fn matches_step(
    r: Result<Vec<Event>, Error>,
    r2: RosterView,
    step: (Result<Seq<EventView>, ErrorView>, RosterView),
) -> bool {
    r2 == step.1 && (match r {
        Ok(events) => step.0 is Ok && events.deep_view() == step.0->Ok_0,
        Err(e) => step.0 is Err && e@ == step.0->Err_0,
    })
}

impl SampleTheGoose {
    /// Register `player` on the start square; a name that is already
    /// registered is rejected with `DuplicatePlayer` and the roster is left
    /// unchanged.
    pub fn add_player(&mut self, player: String) -> (r: Result<(), Error>)
        requires
            old(self).wf(),
        ensures
            final(self).wf(),
            (match r {
                Ok(_) => !contains_name(old(self)@, player@) && final(self)@ == old(self)@.push(
                    (player@, 0int),
                ),
                Err(e) => contains_name(old(self)@, player@) && e@ == ErrorView::DuplicatePlayer(
                    player@,
                ) && final(self)@ == old(self)@,
            }),
    {
        if self.get_player_position(&player).is_none() {
            self.insert(player, 0);
            Ok(())
        } else {
            Err(Error::DuplicatePlayer(player))
        }
    }

    /// The dice source of the reference game: a fixed die.
    pub fn roll_dice(&mut self) -> (d: u32)
        ensures
            *final(self) == *old(self),
            d == 0,
    {
        0
    }

    /// Resolve a move of `player` by the given two dice: the whole chain of
    /// hops, collisions, and square effects.  The returned events and the
    /// new roster are exactly those of the ghost chain.
    pub fn move_player(&mut self, player: &String, dice1: u32, dice2: u32) -> (r: Result<
        Vec<Event>,
        Error,
    >)
        requires
            old(self).wf(),
            dice1 + dice2 <= MAX_DISTANCE,
        ensures
            final(self).wf(),
            matches_step(
                r,
                final(self)@,
                step_move(old(self)@, player@, dice1 as int, dice2 as int),
            ),
    {
        let initial = match self.get_player_position(player) {
            Some(sq) => sq,
            None => {
                return Err(Error::PlayerNotFound(player.clone()));
            },
        };
        let ghost r0 = self@;
        let ghost pl = player@;
        proof {
            lemma_idx_of(r0, pl);
        }
        let distance = dice1 + dice2;
        let ghost full = chain(
            r0,
            pl,
            initial as int,
            initial as int,
            distance as int,
            false,
            MAX_HOPS as nat,
        );
        let ghost roll_ev = EventView::Roll(pl, dice1 as int, dice2 as int);
        let mut sink = SampleEvents::new();
        sink.notify(Event::Roll(player.clone(), dice1, dice2));
        let mut start = initial;
        let mut again = false;
        let mut hops: u32 = 0;
        proof {
            assert(views_of(sink@) =~= seq![roll_ev]);
        }
        loop
            invariant_except_break
                self.wf(),
                pl == player@,
                start <= END_SQUARE,
                initial <= END_SQUARE,
                distance == dice1 + dice2,
                distance <= MAX_DISTANCE,
                hops < MAX_HOPS,
                ({
                    let rest = chain(
                        self@,
                        pl,
                        initial as int,
                        start as int,
                        distance as int,
                        again,
                        (MAX_HOPS - hops) as nat,
                    );
                    views_of(sink@) + rest.0 == seq![roll_ev] + full.0 && rest.1 == full.1
                }),
            ensures
                self.wf(),
                views_of(sink@) == seq![roll_ev] + full.0,
                self@ == full.1,
            decreases MAX_HOPS - hops,
        {
            let ghost r_pre = self@;
            let ghost fuel = (MAX_HOPS - hops) as nat;
            let ghost rest_pre = chain(
                r_pre,
                pl,
                initial as int,
                start as int,
                distance as int,
                again,
                fuel,
            );
            let ghost sink0 = sink@;
            let ghost land_spec = landing(start as int, distance as int);

            // Movement: advance once, bouncing off the end square on an
            // overshoot.
            let land: u32;
            match advance(start, distance) {
                AddPosition::Bounced(rest_sq, end_sq) => {
                    if again {
                        sink.notify(Event::MovedAgain(player.clone(), start, end_sq));
                    } else {
                        sink.notify(Event::Moved(player.clone(), start, end_sq));
                    }
                    sink.notify(Event::Bounced(player.clone()));
                    sink.notify(Event::Return(player.clone(), rest_sq));
                    land = rest_sq;
                },
                AddPosition::Normal(next) => {
                    if again {
                        sink.notify(Event::MovedAgain(player.clone(), start, next));
                    } else {
                        sink.notify(Event::Moved(player.clone(), start, next));
                    }
                    land = next;
                },
            }
            proof {
                assert(land == land_spec && 0 <= land_spec && land_spec <= END_SQUARE);
                if bounces(start as int, distance as int) {
                    assert(views_of(sink@) =~= views_of(sink0) + seq![
                        move_event(again, pl, start as int, END_SQUARE as int),
                        EventView::Bounced(pl),
                        EventView::Return(pl, land_spec),
                    ]);
                } else {
                    assert(views_of(sink@) =~= views_of(sink0) + seq![
                        move_event(again, pl, start as int, land_spec),
                    ]);
                }
            }

            // Collisions are detected at the resting square before the
            // mover's entry is updated.
            let occupants = self.find_players_by_position(land);
            self.update_player_position(player, land);
            let ghost occs = names_at(r_pre, land as int);
            let ghost r1 = set_pos(r_pre, pl, land as int);
            let ghost sink1 = sink@;

            // Displace every occupant back to the mover's pre-command
            // square.
            let occupant_count = occupants.len();
            let mut k: usize = 0;
            while k < occupant_count
                invariant
                    occupant_count == occupants.len(),
                    k <= occupant_count,
                    occupants.deep_view() == occs,
                    self.wf(),
                    pl == player@,
                    initial <= END_SQUARE,
                    self@ == prank_all(r1, occs.take(k as int), initial as int),
                    views_of(sink@) == views_of(sink1) + prank_events(
                        occs.take(k as int),
                        land as int,
                        initial as int,
                    ),
                decreases occupant_count - k,
            {
                let occ: String = occupants[k].clone();
                proof {
                    assert(occ@ == occs[k as int]);
                }
                sink.notify(Event::Prank(occ.clone(), land, initial));
                self.update_player_position(&occ, initial);
                proof {
                    assert(occs.take(k + 1).drop_last() =~= occs.take(k as int));
                    assert(occs.take(k + 1).last() == occs[k as int]);
                    assert(prank_events(occs.take(k + 1), land as int, initial as int)
                        =~= prank_events(occs.take(k as int), land as int, initial as int).push(
                        EventView::Prank(occs[k as int], land as int, initial as int),
                    ));
                    assert(views_of(sink@) =~= views_of(sink1) + prank_events(
                        occs.take(k + 1),
                        land as int,
                        initial as int,
                    ));
                }
                k += 1;
            }
            proof {
                assert(occs.take(occupant_count as int) =~= occs);
                assert(self@ == hop_roster(
                    r_pre,
                    pl,
                    initial as int,
                    start as int,
                    distance as int,
                ));
                assert(views_of(sink@) =~= views_of(sink0) + hop_events(
                    r_pre,
                    pl,
                    initial as int,
                    start as int,
                    distance as int,
                    again,
                ));
            }
            let ghost r2 = hop_roster(r_pre, pl, initial as int, start as int, distance as int);
            let ghost hopevs = hop_events(
                r_pre,
                pl,
                initial as int,
                start as int,
                distance as int,
                again,
            );

            // Square effects at the resting square.
            match classify(land) {
                PositionType::TheBridge => {
                    self.update_player_position(player, BRIDGE_TARGET);
                    sink.notify(Event::Jump(player.clone(), BRIDGE_TARGET));
                    proof {
                        assert(rest_pre.0 == hopevs.push(
                            EventView::Jump(pl, BRIDGE_TARGET as int),
                        ));
                        assert(views_of(sink@) =~= (views_of(sink0) + hopevs).push(
                            EventView::Jump(pl, BRIDGE_TARGET as int),
                        ));
                        assert(views_of(sink@) =~= views_of(sink0) + rest_pre.0);
                        assert(views_of(sink@) =~= seq![roll_ev] + full.0);
                    }
                    break ;
                },
                PositionType::TheGoose => {
                },
                PositionType::Normal => {
                    proof {
                        assert(rest_pre.0 == hopevs && rest_pre.1 == r2);
                        assert(views_of(sink@) =~= views_of(sink0) + rest_pre.0);
                        assert(views_of(sink@) =~= seq![roll_ev] + full.0);
                    }
                    break ;
                },
                PositionType::End => {
                    sink.notify(Event::Win(player.clone()));
                    proof {
                        assert(rest_pre.0 == hopevs.push(EventView::Win(pl)));
                        assert(views_of(sink@) =~= (views_of(sink0) + hopevs).push(
                            EventView::Win(pl),
                        ));
                        assert(views_of(sink@) =~= views_of(sink0) + rest_pre.0);
                        assert(views_of(sink@) =~= seq![roll_ev] + full.0);
                    }
                    break ;
                },
            }

            // A goose square: hop again with the same distance.
            start = land;
            again = true;
            hops = hops + 1;
            proof {
                let rest_next = chain(
                    self@,
                    pl,
                    initial as int,
                    start as int,
                    distance as int,
                    true,
                    (MAX_HOPS - hops) as nat,
                );
                assert(rest_pre.0 == hopevs + rest_next.0 && rest_pre.1 == rest_next.1);
                assert((views_of(sink0) + hopevs) + rest_next.0 =~= views_of(sink0) + (hopevs
                    + rest_next.0));
            }
            if hops == MAX_HOPS {
                proof {
                    assert(chain(
                        self@,
                        pl,
                        initial as int,
                        start as int,
                        distance as int,
                        true,
                        0nat,
                    ).0 =~= Seq::<EventView>::empty());
                    assert(hopevs + Seq::<EventView>::empty() =~= hopevs);
                    assert(views_of(sink@) =~= seq![roll_ev] + full.0);
                }
                break ;
            }
        }
        let events = sink.into_vec();
        proof {
            assert(events.deep_view() == views_of(events@));
            assert(pos_of(r0, pl) == initial as int);
        }
        Ok(events)
    }

    /// Resolve a move with two rolls drawn from the dice source.
    pub fn roll_and_move_player(&mut self, player: &String) -> (r: Result<Vec<Event>, Error>)
        requires
            old(self).wf(),
        ensures
            final(self).wf(),
            matches_step(r, final(self)@, step_move(old(self)@, player@, 0, 0)),
    {
        let dice1 = self.roll_dice();
        let dice2 = self.roll_dice();
        self.move_player(player, dice1, dice2)
    }

    /// Dispatch one command: register, drop, or move a player, enforcing
    /// the player-existence rules, and report the ordered events of what
    /// happened.
    pub fn execute(&mut self, command: Command) -> (r: Result<Vec<Event>, Error>)
        requires
            old(self).wf(),
            (command matches Command::Move(_, dice1, dice2) ==> dice1 + dice2 <= MAX_DISTANCE),
        ensures
            final(self).wf(),
            (match command {
                Command::Add(p) => matches_step(r, final(self)@, step_add(old(self)@, p@)),
                Command::Remove(p) => matches_step(r, final(self)@, step_remove(old(self)@, p@)),
                Command::Move(p, dice1, dice2) => matches_step(
                    r,
                    final(self)@,
                    step_move(old(self)@, p@, dice1 as int, dice2 as int),
                ),
                Command::RollAndMove(p) => matches_step(
                    r,
                    final(self)@,
                    step_move(old(self)@, p@, 0, 0),
                ),
            }),
    {
        match command {
            Command::Add(player) => {
                match self.add_player(player) {
                    Ok(_) => {
                        let roster = self.players();
                        let mut events: Vec<Event> = Vec::new();
                        events.push(Event::Players(roster));
                        proof {
                            assert(events.deep_view() =~= seq![EventView::Players(names(self@))]);
                        }
                        Ok(events)
                    },
                    Err(e) => Err(e),
                }
            },
            Command::Remove(player) => {
                self.remove_player(&player);
                let roster = self.players();
                let mut events: Vec<Event> = Vec::new();
                events.push(Event::Players(roster));
                proof {
                    assert(events.deep_view() =~= seq![EventView::Players(names(self@))]);
                }
                Ok(events)
            },
            Command::Move(player, dice1, dice2) => self.move_player(&player, dice1, dice2),
            Command::RollAndMove(player) => self.roll_and_move_player(&player),
        }
    }
}

} // verus!
