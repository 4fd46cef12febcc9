//! Laws of the engine: the board-classification, registration, and
//! move-chain properties that hold for every roster and every roll, proved
//! once and for all over the ghost model that the exec contracts are
//! stated against.

use vstd::prelude::*;

use crate::board::BRIDGE_SQUARE;
use crate::board::BRIDGE_TARGET;
use crate::board::END_SQUARE;
use crate::board::bounces;
use crate::board::is_goose_square;
use crate::board::landing;
use crate::board::square_type;
use crate::engine::chain;
use crate::engine::hop_events;
use crate::engine::hop_roster;
use crate::engine::move_event;
use crate::engine::prank_all;
use crate::engine::prank_events;
use crate::engine::step_add;
use crate::engine::step_move;
use crate::engine::step_remove;
use crate::events::ErrorView;
use crate::events::EventView;
use crate::roster::RosterView;
use crate::roster::contains_name;
use crate::roster::distinct_names;
use crate::roster::lemma_contains_at;
use crate::roster::lemma_set_pos_ok;
use crate::roster::names;
use crate::roster::names_at;
use crate::roster::pos_of;
use crate::roster::roster_ok;
use crate::roster::set_pos;

verus! {

/// The end square classifies as `End`, the bridge square as `TheBridge`,
/// every goose square as `TheGoose`, and every other square as `Normal`.
pub proof fn law_square_classification(square: int)
    ensures
        square_type(END_SQUARE as int) is End,
        square == BRIDGE_SQUARE ==> square_type(square) is TheBridge,
        is_goose_square(square) ==> square_type(square) is TheGoose,
        square != BRIDGE_SQUARE && !is_goose_square(square) && square != END_SQUARE
            ==> square_type(square) is Normal,
{
}

/// Adding the same player twice is rejected: after a successful add, a
/// second add of that name yields `DuplicatePlayer` and leaves the roster
/// unchanged.
pub proof fn law_duplicate_add(r: RosterView, player: Seq<char>)
    requires
        step_add(r, player).0 is Ok,
    ensures
        ({
            let r1 = step_add(r, player).1;
            step_add(r1, player).0 == Result::<Seq<EventView>, ErrorView>::Err(
                ErrorView::DuplicatePlayer(player),
            ) && step_add(r1, player).1 == r1
        }),
{
    let r1 = step_add(r, player).1;
    lemma_contains_at(r1, player, r1.len() - 1);
}

/// Removing an unregistered player succeeds and reports the unchanged
/// roster.
pub proof fn law_remove_unregistered(r: RosterView, player: Seq<char>)
    requires
        !contains_name(r, player),
    ensures
        step_remove(r, player).1 == r,
        step_remove(r, player).0 == Result::<Seq<EventView>, ErrorView>::Ok(
            seq![EventView::Players(names(r))],
        ),
{
}

/// Moving an unregistered player yields `PlayerNotFound` and leaves the
/// roster unchanged.
pub proof fn law_move_unregistered(r: RosterView, player: Seq<char>, d1: int, d2: int)
    ensures
        !contains_name(r, player) ==> step_move(r, player, d1, d2) == (
            Result::<Seq<EventView>, ErrorView>::Err(ErrorView::PlayerNotFound(player)),
            r,
        ),
{
}

/// A move landing exactly on the end square emits `Won` as the final
/// event and the chain performs no further hop: its events are exactly the
/// single movement, the pranks of the landing square, and `Win`.
pub proof fn law_exact_end_wins(
    r: RosterView,
    mover: Seq<char>,
    initial: int,
    start: int,
    distance: int,
    again: bool,
    fuel: nat,
)
    requires
        fuel >= 1,
        start + distance == END_SQUARE,
    ensures
        ({
            let c = chain(r, mover, initial, start, distance, again, fuel);
            c.0 == seq![move_event(again, mover, start, END_SQUARE as int)] + prank_events(
                names_at(r, END_SQUARE as int),
                END_SQUARE as int,
                initial,
            ) + seq![EventView::Win(mover)] && c.0.last() == EventView::Win(mover) && c.1
                == hop_roster(r, mover, initial, start, distance)
        }),
{
    let c = chain(r, mover, initial, start, distance, again, fuel);
    assert(c.0 =~= seq![move_event(again, mover, start, END_SQUARE as int)] + prank_events(
        names_at(r, END_SQUARE as int),
        END_SQUARE as int,
        initial,
    ) + seq![EventView::Win(mover)]);
}

/// A move overshooting the end square bounces: the first three events are
/// the movement to the touched end square, `Bounced`, and `ReturnedTo` the
/// reflected square, computed exactly as `end*2 - start - distance + 1`.
pub proof fn law_bounce_formula(
    r: RosterView,
    mover: Seq<char>,
    initial: int,
    start: int,
    distance: int,
    again: bool,
    fuel: nat,
)
    requires
        fuel >= 1,
        start + distance > END_SQUARE,
    ensures
        ({
            let c = chain(r, mover, initial, start, distance, again, fuel);
            c.0.len() >= 3 && c.0[0] == move_event(again, mover, start, END_SQUARE as int)
                && c.0[1] == EventView::Bounced(mover) && c.0[2] == EventView::Return(
                mover,
                END_SQUARE * 2 - start - distance + 1,
            )
        }),
{
    let c = chain(r, mover, initial, start, distance, again, fuel);
    let evs = hop_events(r, mover, initial, start, distance, again);
    assert(evs[0] == move_event(again, mover, start, END_SQUARE as int));
    assert(evs[1] == EventView::Bounced(mover));
    assert(evs[2] == EventView::Return(mover, END_SQUARE * 2 - start - distance + 1));
}

/// A hop landing on a goose square does not end the chain: the chain
/// continues from the landing square with the same distance, and the next
/// hop's movement event is `MovedAgain`, not `Moved`.
pub proof fn law_goose_repeats(
    r: RosterView,
    mover: Seq<char>,
    initial: int,
    start: int,
    distance: int,
    again: bool,
    fuel: nat,
)
    requires
        fuel >= 2,
        square_type(landing(start, distance)) is TheGoose,
    ensures
        ({
            let land = landing(start, distance);
            let c = chain(r, mover, initial, start, distance, again, fuel);
            let r2 = hop_roster(r, mover, initial, start, distance);
            let rest = chain(r2, mover, initial, land, distance, true, (fuel - 1) as nat);
            c.0 == hop_events(r, mover, initial, start, distance, again) + rest.0 && c.1 == rest.1
                && rest.0[0] == move_event(true, mover, land, if bounces(land, distance) {
                END_SQUARE as int
            } else {
                land + distance
            }) && rest.0[0] is MovedAgain
        }),
{
    let land = landing(start, distance);
    let r2 = hop_roster(r, mover, initial, start, distance);
    let rest = chain(r2, mover, initial, land, distance, true, (fuel - 1) as nat);
    let evs2 = hop_events(r2, mover, initial, land, distance, true);
    assert(rest.0[0] == evs2[0]);
}

/// A hop landing on the bridge square relocates the mover to the bridge
/// target and terminates the chain immediately, with `JumpedToBridgeTarget`
/// as its final event.
pub proof fn law_bridge_jump(
    r: RosterView,
    mover: Seq<char>,
    initial: int,
    start: int,
    distance: int,
    again: bool,
    fuel: nat,
)
    requires
        fuel >= 1,
        square_type(landing(start, distance)) is TheBridge,
        roster_ok(r),
        contains_name(r, mover),
        0 <= initial <= END_SQUARE,
        0 <= start <= END_SQUARE,
        0 <= distance,
        start + distance <= END_SQUARE * 2 + 1,
    ensures
        ({
            let c = chain(r, mover, initial, start, distance, again, fuel);
            let r2 = hop_roster(r, mover, initial, start, distance);
            c.0 == hop_events(r, mover, initial, start, distance, again).push(
                EventView::Jump(mover, BRIDGE_TARGET as int),
            ) && c.0.last() == EventView::Jump(mover, BRIDGE_TARGET as int) && c.1 == set_pos(
                r2,
                mover,
                BRIDGE_TARGET as int,
            ) && pos_of(c.1, mover) == BRIDGE_TARGET
        }),
{
    let land = landing(start, distance);
    let r1 = set_pos(r, mover, land);
    let occs = names_at(r, land);
    let r2 = hop_roster(r, mover, initial, start, distance);
    lemma_set_pos_ok(r, mover, land);
    lemma_prank_all_preserves(r1, occs, initial);
    lemma_set_pos_ok(r2, mover, BRIDGE_TARGET as int);
}

/// Landing on an occupied square pranks every occupant: each occupant of
/// the landing square gets a `Pranked` event naming the landing square and
/// the mover's pre-command square, in roster order right after the
/// movement events, and after the hop each occupant stands on the mover's
/// pre-command square.
pub proof fn law_prank_displacement(
    r: RosterView,
    mover: Seq<char>,
    initial: int,
    start: int,
    distance: int,
    again: bool,
    fuel: nat,
    k: int,
)
    requires
        fuel >= 1,
        roster_ok(r),
        0 <= initial <= END_SQUARE,
        0 <= start <= END_SQUARE,
        0 <= distance,
        start + distance <= END_SQUARE * 2 + 1,
        0 <= k < names_at(r, landing(start, distance)).len(),
    ensures
        ({
            let land = landing(start, distance);
            let occs = names_at(r, land);
            let c = chain(r, mover, initial, start, distance, again, fuel);
            let moves_len: int = if bounces(start, distance) {
                3
            } else {
                1
            };
            c.0[moves_len + k] == EventView::Prank(occs[k], land, initial) && pos_of(
                hop_roster(r, mover, initial, start, distance),
                occs[k],
            ) == initial
        }),
{
    let land = landing(start, distance);
    let occs = names_at(r, land);
    let evs = hop_events(r, mover, initial, start, distance, again);
    let moves_len: int = if bounces(start, distance) {
        3
    } else {
        1
    };
    assert(evs[moves_len + k] == prank_events(occs, land, initial)[k]);
    let c = chain(r, mover, initial, start, distance, again, fuel);
    assert(c.0[moves_len + k] == evs[moves_len + k]);
    let r1 = set_pos(r, mover, land);
    lemma_set_pos_ok(r, mover, land);
    lemma_names_at_props(r, land);
    assert forall|j: int| 0 <= j < occs.len() implies contains_name(r1, #[trigger] occs[j]) by {
        assert(contains_name(r, occs[j]));
    }
    lemma_prank_all_sets(r1, occs, initial, k);
}

/// Every name listed at a square is registered, and the list holds no
/// duplicates.
pub proof fn lemma_names_at_props(r: RosterView, square: int)
    requires
        distinct_names(r),
    ensures
        forall|k: int|
            0 <= k < names_at(r, square).len() ==> contains_name(
                r,
                #[trigger] names_at(r, square)[k],
            ),
        forall|k1: int, k2: int|
            0 <= k1 < k2 < names_at(r, square).len() ==> names_at(r, square)[k1] != names_at(
                r,
                square,
            )[k2],
    decreases r.len(),
{
    if r.len() == 0 {
    } else {
        let r1 = r.drop_last();
        assert(distinct_names(r1)) by {
            assert(forall|i: int| 0 <= i < r1.len() ==> r1[i] == r[i]);
        }
        lemma_names_at_props(r1, square);
        let prev = names_at(r1, square);
        assert forall|k: int| 0 <= k < names_at(r, square).len() implies contains_name(
            r,
            #[trigger] names_at(r, square)[k],
        ) by {
            if k < prev.len() {
                assert(contains_name(r1, prev[k]));
                let i = choose|i: int| 0 <= i < r1.len() && #[trigger] r1[i].0 == prev[k];
                lemma_contains_at(r, prev[k], i);
            } else {
                lemma_contains_at(r, r.last().0, r.len() - 1);
            }
        }
        if r.last().1 == square {
            assert forall|k: int| 0 <= k < prev.len() implies prev[k] != r.last().0 by {
                assert(contains_name(r1, prev[k]));
                let i = choose|i: int| 0 <= i < r1.len() && #[trigger] r1[i].0 == prev[k];
                assert(r[i].0 != r[r.len() - 1].0);
            }
        }
    }
}

/// Displacing occupants touches neither well-formedness nor membership.
pub proof fn lemma_prank_all_preserves(r: RosterView, occs: Seq<Seq<char>>, initial: int)
    requires
        roster_ok(r),
        0 <= initial <= END_SQUARE,
    ensures
        roster_ok(prank_all(r, occs, initial)),
        forall|m: Seq<char>|
            #[trigger] contains_name(prank_all(r, occs, initial), m) == contains_name(r, m),
    decreases occs.len(),
{
    if occs.len() == 0 {
    } else {
        let prev = prank_all(r, occs.drop_last(), initial);
        lemma_prank_all_preserves(r, occs.drop_last(), initial);
        lemma_set_pos_ok(prev, occs.last(), initial);
        assert forall|m: Seq<char>|
            #[trigger] contains_name(prank_all(r, occs, initial), m) == contains_name(r, m) by {
            assert(contains_name(prank_all(r, occs, initial), m) == contains_name(prev, m));
            assert(contains_name(prev, m) == contains_name(r, m));
        }
    }
}

/// After all occupants are displaced, each of them stands on the mover's
/// pre-command square.
pub proof fn lemma_prank_all_sets(r: RosterView, occs: Seq<Seq<char>>, initial: int, k: int)
    requires
        roster_ok(r),
        0 <= initial <= END_SQUARE,
        forall|j: int| 0 <= j < occs.len() ==> contains_name(r, #[trigger] occs[j]),
        forall|j1: int, j2: int| 0 <= j1 < j2 < occs.len() ==> occs[j1] != occs[j2],
        0 <= k < occs.len(),
    ensures
        pos_of(prank_all(r, occs, initial), occs[k]) == initial,
    decreases occs.len(),
{
    let prev = prank_all(r, occs.drop_last(), initial);
    lemma_prank_all_preserves(r, occs.drop_last(), initial);
    lemma_set_pos_ok(prev, occs.last(), initial);
    if k == occs.len() - 1 {
        assert(contains_name(prev, occs[k]));
    } else {
        lemma_prank_all_sets(r, occs.drop_last(), initial, k);
        assert(occs[k] != occs.last());
        assert(contains_name(prev, occs[k]));
    }
}

} // verus!
