//! The player-state capability: an order-preserving association between
//! player names and track squares.
//!
//! The ghost model of a roster is a sequence of `(name, square)` pairs in
//! registration order, with pairwise-distinct names and every square on the
//! board.  All contracts of the engine are stated over this model.

use vstd::prelude::*;

use crate::board::END_SQUARE;

verus! {

/// Ghost model of a roster: `(name, square)` pairs in registration order.
pub type RosterView = Seq<(Seq<char>, int)>;

/// Whether some entry of `r` carries the name `n`.
pub open spec fn contains_name(r: RosterView, n: Seq<char>) -> bool {
    exists|i: int| 0 <= i < r.len() && #[trigger] r[i].0 == n
}

/// The index of the entry named `n` (meaningful when `contains_name` holds;
/// under `distinct_names` it is the unique such index).
pub open spec fn idx_of(r: RosterView, n: Seq<char>) -> int {
    choose|i: int| 0 <= i < r.len() && #[trigger] r[i].0 == n
}

/// The square of the player named `n`.
pub open spec fn pos_of(r: RosterView, n: Seq<char>) -> int {
    r[idx_of(r, n)].1
}

/// All names, in registration order.
pub open spec fn names(r: RosterView) -> Seq<Seq<char>> {
    r.map_values(|e: (Seq<char>, int)| e.0)
}

/// The names of the players standing on `square`, in registration order.
pub open spec fn names_at(r: RosterView, square: int) -> Seq<Seq<char>>
    decreases r.len(),
{
    if r.len() == 0 {
        Seq::empty()
    } else {
        let rest = names_at(r.drop_last(), square);
        if r.last().1 == square {
            rest.push(r.last().0)
        } else {
            rest
        }
    }
}

/// The roster after moving the player named `n` to `square`; unchanged if
/// no entry carries that name.
pub open spec fn set_pos(r: RosterView, n: Seq<char>, square: int) -> RosterView {
    if contains_name(r, n) {
        r.update(idx_of(r, n), (n, square))
    } else {
        r
    }
}

/// The roster after deleting the player named `n`; unchanged if no entry
/// carries that name.
pub open spec fn remove_name(r: RosterView, n: Seq<char>) -> RosterView {
    if contains_name(r, n) {
        r.remove(idx_of(r, n))
    } else {
        r
    }
}

/// No two entries carry the same name.
pub open spec fn distinct_names(r: RosterView) -> bool {
    forall|i: int, j: int|
        0 <= i < j < r.len() ==> #[trigger] r[i].0 != #[trigger] r[j].0
}

/// Every entry's square lies on the track.
pub open spec fn on_board(r: RosterView) -> bool {
    forall|i: int| 0 <= i < r.len() ==> 0 <= #[trigger] r[i].1 && r[i].1 <= END_SQUARE
}

/// A well-formed roster: distinct names, squares on the track.
pub open spec fn roster_ok(r: RosterView) -> bool {
    distinct_names(r) && on_board(r)
}

/// An entry named `n` at index `i` witnesses `contains_name`.
pub proof fn lemma_contains_at(r: RosterView, n: Seq<char>, i: int)
    requires
        0 <= i < r.len(),
        r[i].0 == n,
    ensures
        contains_name(r, n),
{
}

/// Under distinct names, the index chosen by `idx_of` is the index of any
/// entry that carries the name.
pub proof fn lemma_idx_of_unique(r: RosterView, n: Seq<char>, i: int)
    requires
        distinct_names(r),
        0 <= i < r.len(),
        r[i].0 == n,
    ensures
        contains_name(r, n),
        idx_of(r, n) == i,
{
    lemma_contains_at(r, n, i);
    let j = idx_of(r, n);
    assert(0 <= j < r.len() && r[j].0 == n);
    if i < j {
        assert(r[i].0 != r[j].0);
    } else if j < i {
        assert(r[j].0 != r[i].0);
    }
}

/// When `contains_name` holds, `idx_of` lands on an entry with that name.
pub proof fn lemma_idx_of(r: RosterView, n: Seq<char>)
    requires
        contains_name(r, n),
    ensures
        0 <= idx_of(r, n) < r.len(),
        r[idx_of(r, n)].0 == n,
{
}

/// Moving a registered player changes that player's square and nothing
/// else: well-formedness, the entry order, every name, and every other
/// player's square are preserved.
pub proof fn lemma_set_pos_ok(r: RosterView, n: Seq<char>, square: int)
    requires
        roster_ok(r),
        0 <= square <= END_SQUARE,
    ensures
        roster_ok(set_pos(r, n, square)),
        set_pos(r, n, square).len() == r.len(),
        forall|a: int| 0 <= a < r.len() ==> #[trigger] set_pos(r, n, square)[a].0 == r[a].0,
        contains_name(r, n) ==> pos_of(set_pos(r, n, square), n) == square,
        forall|m: Seq<char>|
            contains_name(set_pos(r, n, square), m) == #[trigger] contains_name(r, m),
        forall|m: Seq<char>|
            m != n && contains_name(r, m) ==> #[trigger] pos_of(set_pos(r, n, square), m)
                == pos_of(r, m),
        names(set_pos(r, n, square)) == names(r),
{
    let s = set_pos(r, n, square);
    if contains_name(r, n) {
        let k = idx_of(r, n);
        lemma_idx_of(r, n);
        assert(forall|a: int| 0 <= a < r.len() ==> #[trigger] s[a].0 == r[a].0);
        assert forall|i: int, j: int| 0 <= i < j < s.len() implies #[trigger] s[i].0
            != #[trigger] s[j].0 by {
            assert(r[i].0 != r[j].0);
        }
        assert forall|m: Seq<char>|
            contains_name(s, m) == #[trigger] contains_name(r, m) by {
            if contains_name(s, m) {
                let i = choose|i: int| 0 <= i < s.len() && #[trigger] s[i].0 == m;
                lemma_contains_at(r, m, i);
            }
            if contains_name(r, m) {
                let i = choose|i: int| 0 <= i < r.len() && #[trigger] r[i].0 == m;
                lemma_contains_at(s, m, i);
            }
        }
        lemma_idx_of_unique(s, n, k);
        assert forall|m: Seq<char>| m != n && contains_name(r, m) implies #[trigger] pos_of(
            s,
            m,
        ) == pos_of(r, m) by {
            let j = idx_of(r, m);
            lemma_idx_of(r, m);
            assert(j != k);
            lemma_idx_of_unique(s, m, j);
        }
        assert(names(s) =~= names(r));
    } else {
        assert(names(s) =~= names(r));
    }
}

/// Deleting a player removes exactly that entry: the remaining players
/// keep their order, their names, and their squares, and the roster stays
/// well-formed.
pub proof fn lemma_remove_name_ok(r: RosterView, n: Seq<char>)
    requires
        roster_ok(r),
    ensures
        roster_ok(remove_name(r, n)),
        !contains_name(remove_name(r, n), n),
        forall|m: Seq<char>|
            m != n ==> #[trigger] contains_name(remove_name(r, n), m) == contains_name(r, m),
        forall|m: Seq<char>|
            m != n && contains_name(r, m) ==> #[trigger] pos_of(remove_name(r, n), m) == pos_of(
                r,
                m,
            ),
{
    if contains_name(r, n) {
        let k = idx_of(r, n);
        lemma_idx_of(r, n);
        let s = r.remove(k);
        r.remove_ensures(k);
        assert forall|a: int| 0 <= a < s.len() implies #[trigger] s[a].0 != n by {
            if a < k {
                assert(s[a] == r[a]);
                assert(r[a].0 != r[k].0);
            } else {
                assert(s[a] == r[a + 1]);
                assert(r[k].0 != r[a + 1].0);
            }
        }
        assert forall|i: int, j: int| 0 <= i < j < s.len() implies #[trigger] s[i].0
            != #[trigger] s[j].0 by {
            let i0: int = if i < k { i } else { i + 1 };
            let j0: int = if j < k { j } else { j + 1 };
            assert(s[i] == r[i0] && s[j] == r[j0]);
            assert(r[i0].0 != r[j0].0);
        }
        assert forall|a: int| 0 <= a < s.len() implies 0 <= #[trigger] s[a].1 && s[a].1
            <= END_SQUARE by {
            if a < k {
                assert(s[a] == r[a]);
            } else {
                assert(s[a] == r[a + 1]);
            }
        }
        assert forall|m: Seq<char>| m != n implies #[trigger] contains_name(s, m)
            == contains_name(r, m) by {
            if contains_name(s, m) {
                let i = choose|i: int| 0 <= i < s.len() && #[trigger] s[i].0 == m;
                let i0: int = if i < k { i } else { i + 1 };
                assert(s[i] == r[i0]);
                lemma_contains_at(r, m, i0);
            }
            if contains_name(r, m) {
                let i = choose|i: int| 0 <= i < r.len() && #[trigger] r[i].0 == m;
                assert(i != k);
                let i1: int = if i < k { i } else { i - 1 };
                assert(s[i1] == r[i]);
                lemma_contains_at(s, m, i1);
            }
        }
        assert forall|m: Seq<char>| m != n && contains_name(r, m) implies #[trigger] pos_of(
            s,
            m,
        ) == pos_of(r, m) by {
            let i = idx_of(r, m);
            lemma_idx_of(r, m);
            assert(i != k);
            let i1: int = if i < k { i } else { i - 1 };
            assert(s[i1] == r[i]);
            lemma_idx_of_unique(s, m, i1);
        }
    }
}

/// An order-preserving association from player names to track squares,
/// doubling as the game instance the dispatcher drives.
pub struct SampleTheGoose {
    entries: Vec<(String, u32)>,
}

impl View for SampleTheGoose {
    type V = RosterView;

    closed spec fn view(&self) -> RosterView {
        self.entries@.map_values(|e: (String, u32)| (e.0@, e.1 as int))
    }
}

impl Default for SampleTheGoose {
    /// An empty game: no players registered.
    fn default() -> (game: SampleTheGoose)
        ensures
            game@ == Seq::<(Seq<char>, int)>::empty(),
            game.wf(),
    {
        SampleTheGoose::new()
    }
}

impl SampleTheGoose {
    /// A well-formed roster: distinct names, squares on the track.
    pub open spec fn wf(&self) -> bool {
        roster_ok(self@)
    }

    /// An empty game: no players registered.
    pub fn new() -> (game: SampleTheGoose)
        ensures
            game@ == Seq::<(Seq<char>, int)>::empty(),
            game.wf(),
    {
        let game = SampleTheGoose { entries: Vec::new() };
        proof {
            assert(game@ =~= Seq::<(Seq<char>, int)>::empty());
        }
        game
    }

    /// The square the player stands on, or `None` for an unregistered name.
    pub fn get_player_position(&self, player: &String) -> (r: Option<u32>)
        requires
            self.wf(),
        ensures
            (match r {
                Some(square) => contains_name(self@, player@) && square as int == pos_of(
                    self@,
                    player@,
                ),
                None => !contains_name(self@, player@),
            }),
    {
        let n = self.entries.len();
        let mut i: usize = 0;
        while i < n
            invariant
                n == self.entries.len(),
                i <= n,
                self.wf(),
                forall|j: int| 0 <= j < i ==> #[trigger] self@[j].0 != player@,
            decreases n - i,
        {
            if self.entries[i].0 == *player {
                proof {
                    lemma_idx_of_unique(self@, player@, i as int);
                }
                return Some(self.entries[i].1);
            }
            i += 1;
        }
        proof {
            assert(!contains_name(self@, player@));
        }
        None
    }

    /// Put `player` on `square`: update the entry if the name is
    /// registered, append a fresh entry otherwise.  This is the raw state
    /// operation; `add_player` is the checked registration.
    pub fn insert(&mut self, player: String, square: u32)
        requires
            old(self).wf(),
            square <= END_SQUARE,
        ensures
            final(self).wf(),
            contains_name(old(self)@, player@) ==> final(self)@ == set_pos(
                old(self)@,
                player@,
                square as int,
            ),
            !contains_name(old(self)@, player@) ==> final(self)@ == old(self)@.push(
                (player@, square as int),
            ),
    {
        let n = self.entries.len();
        let mut i: usize = 0;
        while i < n
            invariant
                n == self.entries.len(),
                i <= n,
                self.wf(),
                self == old(self),
                square <= END_SQUARE,
                forall|j: int| 0 <= j < i ==> #[trigger] self@[j].0 != player@,
            decreases n - i,
        {
            if self.entries[i].0 == player {
                proof {
                    lemma_idx_of_unique(self@, player@, i as int);
                    lemma_set_pos_ok(self@, player@, square as int);
                }
                self.entries[i] = (player, square);
                proof {
                    assert(self@ =~= set_pos(old(self)@, player@, square as int));
                }
                return ;
            }
            i += 1;
        }
        proof {
            assert(!contains_name(self@, player@));
        }
        self.entries.push((player, square));
        proof {
            assert(self@ =~= old(self)@.push((player@, square as int)));
            assert forall|a: int, b: int| 0 <= a < b < self@.len() implies #[trigger] self@[a].0
                != #[trigger] self@[b].0 by {
                if b < self@.len() - 1 {
                    assert(old(self)@[a].0 != old(self)@[b].0);
                } else {
                    lemma_contains_at(old(self)@, old(self)@[a].0, a);
                }
            }
        }
    }

    /// All registered players, in registration order.
    pub fn players(&self) -> (all: Vec<String>)
        ensures
            all.deep_view() == names(self@),
    {
        let mut all: Vec<String> = Vec::new();
        let n = self.entries.len();
        let mut i: usize = 0;
        while i < n
            invariant
                n == self.entries.len(),
                i <= n,
                all.deep_view() == names(self@.take(i as int)),
            decreases n - i,
        {
            let ghost prev = all.deep_view();
            all.push(self.entries[i].0.clone());
            proof {
                assert(all.deep_view() =~= prev.push(self@[i as int].0));
                assert(names(self@.take(i + 1)) =~= names(self@.take(i as int)).push(
                    self@[i as int].0,
                ));
            }
            i += 1;
        }
        proof {
            assert(self@.take(n as int) =~= self@);
        }
        all
    }

    /// The players standing on `square`, in registration order.
    pub fn find_players_by_position(&self, square: u32) -> (found: Vec<String>)
        ensures
            found.deep_view() == names_at(self@, square as int),
    {
        let mut found: Vec<String> = Vec::new();
        let n = self.entries.len();
        let mut i: usize = 0;
        while i < n
            invariant
                n == self.entries.len(),
                i <= n,
                found.deep_view() == names_at(self@.take(i as int), square as int),
            decreases n - i,
        {
            proof {
                assert(self@.take(i + 1).drop_last() =~= self@.take(i as int));
                assert(self@.take(i + 1).last() == self@[i as int]);
            }
            if self.entries[i].1 == square {
                let ghost prev = found.deep_view();
                found.push(self.entries[i].0.clone());
                proof {
                    assert(found.deep_view() =~= prev.push(self@[i as int].0));
                }
            }
            i += 1;
        }
        proof {
            assert(self@.take(n as int) =~= self@);
        }
        found
    }

    /// Move the player to `square`; updating an unregistered name is a
    /// no-op.
    pub fn update_player_position(&mut self, player: &String, square: u32)
        requires
            old(self).wf(),
            square <= END_SQUARE,
        ensures
            final(self).wf(),
            final(self)@ == set_pos(old(self)@, player@, square as int),
    {
        let n = self.entries.len();
        let mut i: usize = 0;
        while i < n
            invariant
                n == self.entries.len(),
                i <= n,
                self.wf(),
                self == old(self),
                square <= END_SQUARE,
                forall|j: int| 0 <= j < i ==> #[trigger] self@[j].0 != player@,
            decreases n - i,
        {
            if self.entries[i].0 == *player {
                proof {
                    lemma_idx_of_unique(self@, player@, i as int);
                    lemma_set_pos_ok(self@, player@, square as int);
                }
                let name = self.entries[i].0.clone();
                self.entries[i] = (name, square);
                proof {
                    assert(self@ =~= set_pos(old(self)@, player@, square as int));
                }
                return ;
            }
            i += 1;
        }
        proof {
            assert(!contains_name(self@, player@));
        }
    }

    /// Delete the player's entry; deleting an unregistered name is a no-op.
    pub fn remove_player(&mut self, player: &String)
        requires
            old(self).wf(),
        ensures
            final(self).wf(),
            final(self)@ == remove_name(old(self)@, player@),
    {
        let n = self.entries.len();
        let mut i: usize = 0;
        while i < n
            invariant
                n == self.entries.len(),
                i <= n,
                self.wf(),
                self == old(self),
                forall|j: int| 0 <= j < i ==> #[trigger] self@[j].0 != player@,
            decreases n - i,
        {
            if self.entries[i].0 == *player {
                proof {
                    lemma_idx_of_unique(self@, player@, i as int);
                    lemma_remove_name_ok(self@, player@);
                }
                self.entries.remove(i);
                proof {
                    assert(self@ =~= remove_name(old(self)@, player@));
                }
                return ;
            }
            i += 1;
        }
        proof {
            assert(!contains_name(self@, player@));
        }
    }
}

} // verus!
