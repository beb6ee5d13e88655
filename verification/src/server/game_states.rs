//! The games that the server hosts, each under an id of its own.
use vstd::prelude::*;

use crate::plugins::tick_tack_toe::{empty_board, seat_of, Cell, ServerView};
use crate::plugins::{PluginType, ServerPlugin, ServerState};

verus! {

/// A game as the server keeps it.
pub type State = ServerState;

/// The games, in the order of their ids.
pub struct GameStates {
    states: Vec<(u64, PluginType, State)>,
    next_id: u64,
}

/// The model of one hosted game: its id, its kind, and its state.
pub type GameEntry = (u64, PluginType, ServerView);

/// The games of a list of entries, by id.
pub open spec fn games_map(entries: Seq<GameEntry>) -> Map<u64, (PluginType, ServerView)>
    decreases entries.len(),
{
    if entries.len() == 0 {
        Map::empty()
    } else {
        games_map(entries.drop_last()).insert(
            entries.last().0,
            (entries.last().1, entries.last().2),
        )
    }
}

/// Ids that rise along the list and stay below `bound`.
pub open spec fn ids_rise_below(entries: Seq<GameEntry>, bound: nat) -> bool {
    &&& forall|i: int, j: int| 0 <= i < j < entries.len() ==> entries[i].0 < entries[j].0
    &&& forall|i: int| 0 <= i < entries.len() ==> entries[i].0 < bound
}

/// A game with no players and an empty board.
pub open spec fn fresh_game(v: ServerView) -> bool {
    v.players == Seq::<(Seq<char>, Cell)>::empty() && v.cells == empty_board()
}

/// The games that `username` plays in (all of them for `None`), with their
/// ids, in the order of the list.
pub open spec fn listed(entries: Seq<GameEntry>, username: Option<Seq<char>>) -> Seq<
    (u64, ServerView),
>
    decreases entries.len(),
{
    if entries.len() == 0 {
        Seq::empty()
    } else {
        let rest = listed(entries.drop_last(), username);
        let e = entries.last();
        if username matches Some(u) && seat_of(e.2.players, u) is None {
            rest
        } else {
            rest.push((e.0, e.2))
        }
    }
}

proof fn lemma_games_map_lookup(entries: Seq<GameEntry>, bound: nat)
    requires
        ids_rise_below(entries, bound),
    ensures
        forall|i: int|
            0 <= i < entries.len() ==> #[trigger] games_map(entries).contains_key(entries[i].0)
                && games_map(entries)[entries[i].0] == (entries[i].1, entries[i].2),
        forall|id: u64|
            #[trigger] games_map(entries).contains_key(id) ==> exists|i: int|
                0 <= i < entries.len() && entries[i].0 == id,
    decreases entries.len(),
{
    if entries.len() > 0 {
        let init = entries.drop_last();
        let last = entries.last();
        assert(ids_rise_below(init, bound)) by {
            assert forall|i: int, j: int| 0 <= i < j < init.len() implies init[i].0 < init[j].0 by {
                assert(init[i] == entries[i]);
                assert(init[j] == entries[j]);
            }
            assert forall|i: int| 0 <= i < init.len() implies init[i].0 < bound by {
                assert(init[i] == entries[i]);
            }
        }
        lemma_games_map_lookup(init, bound);
        let m = games_map(entries);
        assert(m == games_map(init).insert(last.0, (last.1, last.2)));
        assert forall|i: int| 0 <= i < entries.len() implies #[trigger] m.contains_key(
            entries[i].0,
        ) && m[entries[i].0] == (entries[i].1, entries[i].2) by {
            if i < entries.len() - 1 {
                assert(init[i] == entries[i]);
                assert(entries[i].0 < last.0);
                assert(games_map(init).contains_key(init[i].0));
            }
        }
        assert forall|id: u64| #[trigger] m.contains_key(id) implies exists|i: int|
            0 <= i < entries.len() && entries[i].0 == id by {
            if id == last.0 {
                assert(entries[entries.len() - 1].0 == id);
            } else {
                assert(games_map(init).contains_key(id));
                let i = choose|i: int| 0 <= i < init.len() && init[i].0 == id;
                assert(entries[i] == init[i]);
            }
        }
    }
}

proof fn lemma_games_map_update(entries: Seq<GameEntry>, bound: nat, i: int, v: ServerView)
    requires
        ids_rise_below(entries, bound),
        0 <= i < entries.len(),
    ensures
        games_map(entries.update(i, (entries[i].0, entries[i].1, v))) == games_map(entries).insert(
            entries[i].0,
            (entries[i].1, v),
        ),
    decreases entries.len(),
{
    let new_entries = entries.update(i, (entries[i].0, entries[i].1, v));
    if i == entries.len() - 1 {
        assert(new_entries.drop_last() =~= entries.drop_last());
        lemma_games_map_lookup(entries.drop_last(), bound);
        assert(games_map(new_entries) =~= games_map(entries).insert(
            entries[i].0,
            (entries[i].1, v),
        ));
    } else {
        let init = entries.drop_last();
        lemma_games_map_update(init, bound, i, v);
        assert(new_entries.drop_last() =~= init.update(i, (entries[i].0, entries[i].1, v)));
        assert(entries[i].0 < entries.last().0);
        assert(games_map(new_entries) =~= games_map(entries).insert(
            entries[i].0,
            (entries[i].1, v),
        ));
    }
}

/// The model of a list of hosted games.
pub open spec fn entries_of(states: Seq<(u64, PluginType, State)>) -> Seq<GameEntry> {
    states.map_values(|e: (u64, PluginType, State)| (e.0, e.1, e.2@))
}

proof fn lemma_states_update(
    states: Seq<(u64, PluginType, State)>,
    bound: nat,
    i: int,
    x: (u64, PluginType, State),
)
    requires
        ids_rise_below(entries_of(states), bound),
        0 <= i < states.len(),
        x.0 == states[i].0,
        x.1 == states[i].1,
    ensures
        games_map(entries_of(states.update(i, x))) == games_map(entries_of(states)).insert(
            x.0,
            (x.1, x.2@),
        ),
        ids_rise_below(entries_of(states.update(i, x)), bound),
{
    let old_entries = entries_of(states);
    assert(entries_of(states.update(i, x)) =~= old_entries.update(i, (x.0, x.1, x.2@)));
    lemma_games_map_update(old_entries, bound, i, x.2@);
}

fn entry_state_mut(e: &mut (u64, PluginType, State)) -> (st: &mut State)
    ensures
        *st == old(e).2,
        *final(e) == (old(e).0, old(e).1, *final(st)),
{
    &mut e.2
}

impl GameStates {
    /// The hosted games, in the order of their ids.
    pub closed spec fn entries(&self) -> Seq<GameEntry> {
        entries_of(self.states@)
    }

    /// The hosted games, by id.
    pub open spec fn games(&self) -> Map<u64, (PluginType, ServerView)> {
        games_map(self.entries())
    }

    /// The id that the next game will get.
    pub closed spec fn next_id(&self) -> nat {
        self.next_id as nat
    }

    /// Ids rise along the list and stay below the next id.
    pub closed spec fn wf(&self) -> bool {
        ids_rise_below(self.entries(), self.next_id as nat)
    }

    /// No games; the first game gets id 0.
    pub fn new() -> (res: Self)
        ensures
            res.wf(),
            res.entries() == Seq::<GameEntry>::empty(),
            res.next_id() == 0,
    {
        let res = GameStates { states: Vec::new(), next_id: 0 };
        assert(res.entries() =~= Seq::<GameEntry>::empty());
        res
    }

    /// Each hosted game stands in the list once, under its id; every id is
    /// below the next id.
    pub proof fn lemma_ids(&self)
        requires
            self.wf(),
        ensures
            ids_rise_below(self.entries(), self.next_id()),
            forall|i: int|
                0 <= i < self.entries().len() ==> #[trigger] self.games().contains_key(
                    self.entries()[i].0,
                ) && self.games()[self.entries()[i].0] == (
                    self.entries()[i].1,
                    self.entries()[i].2,
                ),
            forall|id: u64|
                #[trigger] self.games().contains_key(id) ==> exists|i: int|
                    0 <= i < self.entries().len() && self.entries()[i].0 == id,
            forall|id: u64| #[trigger] self.games().contains_key(id) ==> id < self.next_id(),
    {
        lemma_games_map_lookup(self.entries(), self.next_id());
        assert forall|id: u64| #[trigger] self.games().contains_key(id) implies id < self.next_id() by {
            let i = choose|i: int| 0 <= i < self.entries().len() && self.entries()[i].0 == id;
        }
    }

    /// The next id fits a `u64`.
    proof fn lemma_next_id_bound(&self)
        ensures
            self.next_id() <= u64::MAX,
    {
    }

    /// The id that the next game will get.
    pub fn upcoming_id(&self) -> (res: u64)
        ensures
            res == self.next_id(),
    {
        self.next_id
    }

    /// Hosts a new game of the given kind, under the next id, and returns the
    /// id.
    pub fn new_game(&mut self, plugin_type: PluginType) -> (id: u64)
        requires
            old(self).wf(),
            old(self).next_id() < u64::MAX,
        ensures
            final(self).wf(),
            id == old(self).next_id(),
            final(self).next_id() == old(self).next_id() + 1,
            final(self).entries() == old(self).entries().push(
                (id, plugin_type, final(self).entries().last().2),
            ),
            fresh_game(final(self).entries().last().2),
            final(self).games() == old(self).games().insert(
                id,
                (plugin_type, final(self).entries().last().2),
            ),
    {
        let id = self.next_id;
        let state = plugin_type.new_server();
        let ghost old_entries = self.entries();
        self.states.push((id, plugin_type, state));
        self.next_id = id + 1;
        assert(self.entries() =~= old_entries.push((id, plugin_type, state@)));
        assert(self.entries().drop_last() =~= old_entries);
        id
    }

    fn find(&self, id: u64) -> (res: Option<usize>)
        requires
            self.wf(),
        ensures
            match res {
                Some(i) => i < self.entries().len() && self.entries()[i as int].0 == id,
                None => !self.games().contains_key(id),
            },
    {
        proof {
            self.lemma_ids();
        }
        let mut i: usize = 0;
        while i < self.states.len()
            invariant
                i <= self.states.len(),
                self.entries().len() == self.states.len(),
                forall|j: int| 0 <= j < i ==> self.entries()[j].0 != id,
            decreases self.states.len() - i,
        {
            assert(self.entries()[i as int].0 == self.states[i as int].0);
            if self.states[i].0 == id {
                return Some(i);
            }
            i = i + 1;
        }
        None
    }

    /// The kind and state of the game with the given id, if there is one.
    pub fn get_game(&self, id: u64) -> (res: Option<(PluginType, &State)>)
        requires
            self.wf(),
        ensures
            match res {
                Some((pt, st)) => self.games().contains_key(id) && self.games()[id] == (pt, st@),
                None => !self.games().contains_key(id),
            },
    {
        proof {
            self.lemma_ids();
        }
        match self.find(id) {
            Some(i) => {
                let e = &self.states[i];
                assert(self.entries()[i as int] == (e.0, e.1, e.2@));
                assert(self.games().contains_key(self.entries()[i as int].0));
                Some((e.1, &e.2))
            },
            None => None,
        }
    }

    /// The kind of the game with the given id, and its state to change, if
    /// there is such a game. A change to the state is a change to that game
    /// alone.
    pub fn get_game_mut(&mut self, id: u64) -> (res: Option<(PluginType, &mut State)>)
        requires
            old(self).wf(),
        ensures
            final(self).wf(),
            match res {
                Some((pt, st)) => {
                    &&& old(self).games().contains_key(id)
                    &&& old(self).games()[id] == (pt, (*st)@)
                    &&& final(self).games() == old(self).games().insert(id, (pt, (*final(st))@))
                    &&& final(self).next_id() == old(self).next_id()
                },
                None => !old(self).games().contains_key(id) && *final(self) == *old(self),
            },
    {
        proof {
            self.lemma_ids();
        }
        match self.find(id) {
            Some(i) => {
                let ghost old_entries = self.entries();
                let ghost old_states = self.states@;
                assert(old(self).games().contains_key(old_entries[i as int].0));
                let e = &mut self.states[i];
                assert(old_entries[i as int] == (e.0, e.1, e.2@));
                let pt = e.1;
                let st = entry_state_mut(e);
                proof {
                    lemma_states_update(
                        old_states,
                        old(self).next_id(),
                        i as int,
                        (old_states[i as int].0, old_states[i as int].1, *final(st)),
                    );
                }
                Some((pt, st))
            },
            None => None,
        }
    }

    /// The games that `username` plays in, or all games for `None`, with
    /// their ids, in the order of their ids.
    pub fn list_games(&self, username: Option<&str>) -> (res: Vec<(u64, &State)>)
        requires
            self.wf(),
        ensures
            res@.map_values(|e: (u64, &State)| (e.0, e.1@)) == listed(
                self.entries(),
                match username {
                    Some(u) => Some(u@),
                    None => None,
                },
            ),
    {
        let ghost user = match username {
            Some(u) => Some(u@),
            None => None::<Seq<char>>,
        };
        let mut res: Vec<(u64, &State)> = Vec::new();
        let mut i: usize = 0;
        while i < self.states.len()
            invariant
                i <= self.states.len(),
                self.entries().len() == self.states.len(),
                user == match username {
                    Some(u) => Some(u@),
                    None => None,
                },
                res@.map_values(|e: (u64, &State)| (e.0, e.1@)) == listed(
                    self.entries().take(i as int),
                    user,
                ),
            decreases self.states.len() - i,
        {
            let e = &self.states[i];
            let keep = match username {
                None => true,
                Some(u) => e.2.has_user(u),
            };
            let ghost before = res@;
            if keep {
                res.push((e.0, &e.2));
            }
            proof {
                let t = self.entries().take(i + 1);
                assert(t.drop_last() =~= self.entries().take(i as int));
                assert(t.last() == self.entries()[i as int]);
                assert(self.entries()[i as int] == (e.0, e.1, e.2@));
                if keep {
                    assert(res@.map_values(|e: (u64, &State)| (e.0, e.1@)) =~= before.map_values(
                        |e: (u64, &State)| (e.0, e.1@),
                    ).push((e.0, e.2@)));
                } else {
                    assert(res@ == before);
                }
            }
            i = i + 1;
        }
        assert(self.entries().take(self.states.len() as int) =~= self.entries());
        res
    }
}

} // verus!

verus! {

/// The next id belongs to no hosted game, so each new game gets an id of
/// its own.
pub proof fn lemma_next_id_fresh(gs: GameStates)
    requires
        gs.wf(),
    ensures
        gs.next_id() <= u64::MAX,
        !gs.games().contains_key(gs.next_id() as u64),
{
    gs.lemma_ids();
    gs.lemma_next_id_bound();
}

/// After a game is hosted under `id`, looking `id` up finds it, with its
/// kind, and every other game is found as before.
pub proof fn lemma_lookup_after_insert(
    games: Map<u64, (PluginType, ServerView)>,
    id: u64,
    plugin_type: PluginType,
    v: ServerView,
    other: u64,
)
    requires
        other != id,
    ensures
        games.insert(id, (plugin_type, v)).contains_key(id),
        games.insert(id, (plugin_type, v))[id] == (plugin_type, v),
        games.insert(id, (plugin_type, v)).contains_key(other) == games.contains_key(other),
        games.contains_key(other) ==> games.insert(id, (plugin_type, v))[other] == games[other],
{
}

} // verus!
