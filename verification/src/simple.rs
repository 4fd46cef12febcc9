//! A game instance whose dice source is a fixed script of rolls, consumed
//! one die per call.  Useful for hosts that replay recorded games and for
//! exercising `RollAndMove` deterministically.

use vstd::prelude::*;

use crate::board::MAX_DISTANCE;
use crate::engine::matches_step;
use crate::engine::step_add;
use crate::engine::step_move;
use crate::engine::step_remove;
use crate::events::Command;
use crate::events::Error;
use crate::events::ErrorView;
use crate::events::Event;
use crate::events::EventView;
use crate::roster::SampleTheGoose;
use crate::roster::contains_name;
use crate::roster::names;
use crate::roster::remove_name;

verus! {

/// A game over the shared roster and engine, drawing rolls from a fixed
/// script.  The script is expected to hold enough rolls for the moves the
/// host plays; the dice source itself is treated as inexhaustible by the
/// game's design, so running past the script's end is excluded by
/// contract.
pub struct SimpleTheGoose {
    /// The roster the engine drives; exposed so a host can seed positions
    /// directly.
    pub state: SampleTheGoose,
    /// The fixed script of die values.
    pub rolls: Vec<u32>,
    /// How many script entries have been consumed.
    pub next_roll: usize,
}

impl SimpleTheGoose {
    /// The fixed script of die values.
    pub open spec fn script(&self) -> Seq<u32> {
        self.rolls@
    }

    /// How many script entries have been consumed.
    pub open spec fn cursor(&self) -> int {
        self.next_roll as int
    }

    /// A well-formed game: the roster is well-formed and the cursor has
    /// not run past the script.
    pub open spec fn wf(&self) -> bool {
        self.state.wf() && 0 <= self.cursor() <= self.script().len()
    }

    /// A fresh game with no players and the given roll script.
    pub fn new(rolls: Vec<u32>) -> (game: SimpleTheGoose)
        ensures
            game.wf(),
            game.state@ == Seq::<(Seq<char>, int)>::empty(),
            game.script() == rolls@,
            game.cursor() == 0,
    {
        SimpleTheGoose { state: SampleTheGoose::new(), rolls, next_roll: 0 }
    }

    /// Draw the next die value from the script.
    pub fn roll_dice(&mut self) -> (d: u32)
        requires
            old(self).wf(),
            old(self).cursor() < old(self).script().len(),
        ensures
            final(self).wf(),
            d == old(self).script()[old(self).cursor()],
            final(self).script() == old(self).script(),
            final(self).cursor() == old(self).cursor() + 1,
            final(self).state == old(self).state,
    {
        let n = self.rolls.len();
        let d = self.rolls[self.next_roll];
        self.next_roll = self.next_roll + 1;
        proof {
            assert(self.next_roll <= n);
        }
        d
    }

    /// Register `player` on the start square; see
    /// `SampleTheGoose::add_player`.
    pub fn add_player(&mut self, player: String) -> (r: Result<(), Error>)
        requires
            old(self).wf(),
        ensures
            final(self).wf(),
            final(self).script() == old(self).script(),
            final(self).cursor() == old(self).cursor(),
            (match r {
                Ok(_) => !contains_name(old(self).state@, player@) && final(self).state@ == old(
                    self,
                ).state@.push((player@, 0int)),
                Err(e) => contains_name(old(self).state@, player@) && e@
                    == ErrorView::DuplicatePlayer(player@) && final(self).state@ == old(
                    self,
                ).state@,
            }),
    {
        self.state.add_player(player)
    }

    /// Drop `player`; see `SampleTheGoose::remove_player`.
    pub fn remove_player(&mut self, player: &String)
        requires
            old(self).wf(),
        ensures
            final(self).wf(),
            final(self).script() == old(self).script(),
            final(self).cursor() == old(self).cursor(),
            final(self).state@ == remove_name(old(self).state@, player@),
    {
        self.state.remove_player(player)
    }

    /// Resolve a move of `player` by the given two dice; see
    /// `SampleTheGoose::move_player`.
    pub fn move_player(&mut self, player: &String, dice1: u32, dice2: u32) -> (r: Result<
        Vec<Event>,
        Error,
    >)
        requires
            old(self).wf(),
            dice1 + dice2 <= MAX_DISTANCE,
        ensures
            final(self).wf(),
            final(self).script() == old(self).script(),
            final(self).cursor() == old(self).cursor(),
            matches_step(
                r,
                final(self).state@,
                step_move(old(self).state@, player@, dice1 as int, dice2 as int),
            ),
    {
        self.state.move_player(player, dice1, dice2)
    }

    /// Resolve a move with the next two script rolls, drawn in order.
    pub fn roll_and_move_player(&mut self, player: &String) -> (r: Result<Vec<Event>, Error>)
        requires
            old(self).wf(),
            old(self).cursor() + 2 <= old(self).script().len(),
            old(self).script()[old(self).cursor()] + old(self).script()[old(self).cursor() + 1]
                <= MAX_DISTANCE,
        ensures
            final(self).wf(),
            final(self).script() == old(self).script(),
            final(self).cursor() == old(self).cursor() + 2,
            matches_step(
                r,
                final(self).state@,
                step_move(
                    old(self).state@,
                    player@,
                    old(self).script()[old(self).cursor()] as int,
                    old(self).script()[old(self).cursor() + 1] as int,
                ),
            ),
    {
        let dice1 = self.roll_dice();
        let dice2 = self.roll_dice();
        self.move_player(player, dice1, dice2)
    }

    /// Dispatch one command, drawing rolls from the script for
    /// `RollAndMove`; see `SampleTheGoose::execute`.
    pub fn execute(&mut self, command: Command) -> (r: Result<Vec<Event>, Error>)
        requires
            old(self).wf(),
            (command matches Command::Move(_, dice1, dice2) ==> dice1 + dice2 <= MAX_DISTANCE),
            (command matches Command::RollAndMove(_) ==> old(self).cursor() + 2 <= old(
                self,
            ).script().len() && old(self).script()[old(self).cursor()] + old(self).script()[old(
                self,
            ).cursor() + 1] <= MAX_DISTANCE),
        ensures
            final(self).wf(),
            final(self).script() == old(self).script(),
            (match command {
                Command::Add(p) => final(self).cursor() == old(self).cursor() && matches_step(
                    r,
                    final(self).state@,
                    step_add(old(self).state@, p@),
                ),
                Command::Remove(p) => final(self).cursor() == old(self).cursor() && matches_step(
                    r,
                    final(self).state@,
                    step_remove(old(self).state@, p@),
                ),
                Command::Move(p, dice1, dice2) => final(self).cursor() == old(self).cursor()
                    && matches_step(
                    r,
                    final(self).state@,
                    step_move(old(self).state@, p@, dice1 as int, dice2 as int),
                ),
                Command::RollAndMove(p) => final(self).cursor() == old(self).cursor() + 2
                    && matches_step(
                    r,
                    final(self).state@,
                    step_move(
                        old(self).state@,
                        p@,
                        old(self).script()[old(self).cursor()] as int,
                        old(self).script()[old(self).cursor() + 1] as int,
                    ),
                ),
            }),
    {
        match command {
            Command::Add(player) => {
                match self.add_player(player) {
                    Ok(_) => {
                        let roster = self.state.players();
                        let mut events: Vec<Event> = Vec::new();
                        events.push(Event::Players(roster));
                        proof {
                            assert(events.deep_view() =~= seq![
                                EventView::Players(names(self.state@)),
                            ]);
                        }
                        Ok(events)
                    },
                    Err(e) => Err(e),
                }
            },
            Command::Remove(player) => {
                self.remove_player(&player);
                let roster = self.state.players();
                let mut events: Vec<Event> = Vec::new();
                events.push(Event::Players(roster));
                proof {
                    assert(events.deep_view() =~= seq![
                        EventView::Players(names(self.state@)),
                    ]);
                }
                Ok(events)
            },
            Command::Move(player, dice1, dice2) => self.move_player(&player, dice1, dice2),
            Command::RollAndMove(player) => self.roll_and_move_player(&player),
        }
    }
}

} // verus!
