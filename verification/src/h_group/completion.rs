//! End-game completion certificate: a sufficient (not exhaustive) final
//! schedule with no transfer or speculative draws. Existing commitments play
//! in stack order; unresolved cards need a direct Play Clue, and idle turns
//! after all clues are given burn a token. Every clue and burn is charged and
//! the final-round drawing clock is honoured. Unknown draws never contribute a
//! card or a clue refund.
//! <https://hanabi.github.io/level-8/#burning-end-game-stalling>

use vstd::prelude::*;

use crate::cards::{Card, PlayerId, Rank, MAX_CLUE_TOKENS};

verus! {

/// The public table clock that the completion schedule reads from a view.
#[derive(Clone, Debug)]
pub struct TableClock {
    /// Number of cards on each play stack, by suit index.
    pub stack_heights: Vec<usize>,
    pub clue_tokens: u8,
    pub deck_size: usize,
    /// Turns left once the deck has run out.
    pub final_turns_remaining: Option<u8>,
    pub current_player: PlayerId,
    pub players: usize,
}

impl TableClock {
    /// The inputs the simulation accepts without an arithmetic fault.
    pub open spec fn valid(&self) -> bool {
        &&& self.stack_heights@.len() == 5
        &&& forall|s: int| 0 <= s < 5 ==> #[trigger] self.stack_heights@[s] <= 5
        &&& 0 < self.players <= 255
        &&& self.current_player.spec_index() < self.players
        &&& self.clue_tokens < 255
    }
}

/// Ghost state of the completion simulation.
pub struct SimState {
    pub plays: Seq<(PlayerId, Card)>,
    pub unannounced: Seq<(PlayerId, Card)>,
    pub heights: Seq<int>,
    pub tokens: int,
    pub deck: int,
    pub final_turns: Option<int>,
    pub actor: PlayerId,
}

/// The next seat in turn order.
pub open spec fn spec_next_player(player: PlayerId, players: int) -> PlayerId {
    PlayerId { seat: ((player.spec_index() + 1) % players) as u8 }
}

/// Whether `entry` is a play its owner can make now. On the first step only
/// the designated initial play may be made.
pub open spec fn playable_commitment(
    entry: (PlayerId, Card),
    actor: PlayerId,
    heights: Seq<int>,
    step: int,
    initial_play: Option<Card>,
) -> bool {
    &&& entry.0 == actor
    &&& entry.1.rank.spec_number() == heights[entry.1.suit.spec_index() as int] + 1
    &&& (step != 0 || initial_play == Some(entry.1))
}

/// First index at or after `from` whose entry satisfies `playable_commitment`.
pub open spec fn first_playable(
    plays: Seq<(PlayerId, Card)>,
    from: int,
    actor: PlayerId,
    heights: Seq<int>,
    step: int,
    initial_play: Option<Card>,
) -> Option<int>
    decreases plays.len() - from,
{
    if from >= plays.len() || from < 0 {
        None
    } else if playable_commitment(plays[from], actor, heights, step, initial_play) {
        Some(from)
    } else {
        first_playable(plays, from + 1, actor, heights, step, initial_play)
    }
}

/// First index at or after `from` whose entry belongs to someone other than
/// `actor`.
pub open spec fn first_other_owner(unannounced: Seq<(PlayerId, Card)>, from: int, actor: PlayerId) -> Option<
    int,
>
    decreases unannounced.len() - from,
{
    if from >= unannounced.len() || from < 0 {
        None
    } else if unannounced[from].0 != actor {
        Some(from)
    } else {
        first_other_owner(unannounced, from + 1, actor)
    }
}

/// Final-round clock after a turn that began with `was_final`.
pub open spec fn tick(final_turns: Option<int>, was_final: bool) -> Option<int> {
    if was_final {
        match final_turns {
            Some(t) => Some(if t > 0 {
                t - 1
            } else {
                0
            }),
            None => None,
        }
    } else {
        final_turns
    }
}

/// Outcome of the simulation from step `step` to `bound`: `true` once every
/// play has been made, `false` when the clock or the tokens run out first.
pub open spec fn completes(
    s: SimState,
    step: int,
    bound: int,
    players: int,
    initial_play: Option<Card>,
) -> bool
    decreases bound - step,
{
    if step >= bound {
        false
    } else if s.final_turns == Some(0int) {
        false
    } else {
        let was_final = s.final_turns is Some;
        match first_playable(s.plays, 0, s.actor, s.heights, step, initial_play) {
            Some(j) => {
                let played = s.plays[j].1;
                let plays = s.plays.remove(j);
                let si = played.suit.spec_index() as int;
                let heights = s.heights.update(si, s.heights[si] + 1);
                if plays.len() == 0 && s.unannounced.len() == 0 {
                    true
                } else {
                    let tokens = if played.rank == Rank::Five {
                        if s.tokens + 1 < MAX_CLUE_TOKENS {
                            s.tokens + 1
                        } else {
                            MAX_CLUE_TOKENS as int
                        }
                    } else {
                        s.tokens
                    };
                    let deck = if s.deck > 0 {
                        s.deck - 1
                    } else {
                        s.deck
                    };
                    let final_turns = if s.deck > 0 && deck == 0 {
                        Some(players)
                    } else {
                        s.final_turns
                    };
                    completes(
                        SimState {
                            plays,
                            unannounced: s.unannounced,
                            heights,
                            tokens,
                            deck,
                            final_turns: tick(final_turns, was_final),
                            actor: spec_next_player(s.actor, players),
                        },
                        step + 1,
                        bound,
                        players,
                        initial_play,
                    )
                }
            },
            None => {
                if (step == 0 && initial_play is Some) || s.tokens == 0 {
                    false
                } else {
                    match first_other_owner(s.unannounced, 0, s.actor) {
                        Some(k) => completes(
                            SimState {
                                plays: s.plays.push(s.unannounced[k]),
                                unannounced: s.unannounced.remove(k),
                                tokens: s.tokens - 1,
                                final_turns: tick(s.final_turns, was_final),
                                actor: spec_next_player(s.actor, players),
                                ..s
                            },
                            step + 1,
                            bound,
                            players,
                            initial_play,
                        ),
                        None => if s.unannounced.len() != 0 {
                            false
                        } else {
                            completes(
                                SimState {
                                    tokens: s.tokens - 1,
                                    final_turns: tick(s.final_turns, was_final),
                                    actor: spec_next_player(s.actor, players),
                                    ..s
                                },
                                step + 1,
                                bound,
                                players,
                                initial_play,
                            )
                        },
                    }
                }
            },
        }
    }
}

/// The simulation state at the start of the schedule.
pub open spec fn initial_state(
    clock: TableClock,
    plays: Seq<(PlayerId, Card)>,
    unannounced: Seq<(PlayerId, Card)>,
) -> SimState {
    SimState {
        plays,
        unannounced,
        heights: Seq::new(5, |i: int| clock.stack_heights@[i] as int),
        tokens: clock.clue_tokens as int,
        deck: clock.deck_size as int,
        final_turns: match clock.final_turns_remaining {
            Some(t) => Some(t as int),
            None => None,
        },
        actor: clock.current_player,
    }
}

/// Number of simulated turns: one round per outstanding card, plus one.
pub open spec fn step_bound(clock: TableClock, plays: Seq<(PlayerId, Card)>, unannounced: Seq<(PlayerId, Card)>) -> int {
    (plays.len() + unannounced.len()) * clock.players + 1
}

proof fn lemma_first_playable(
    plays: Seq<(PlayerId, Card)>,
    from: int,
    actor: PlayerId,
    heights: Seq<int>,
    step: int,
    initial_play: Option<Card>,
)
    ensures
        first_playable(plays, from, actor, heights, step, initial_play) matches Some(j) ==> from
            <= j < plays.len() && playable_commitment(plays[j], actor, heights, step, initial_play),
    decreases plays.len() - from,
{
    if 0 <= from < plays.len() && !playable_commitment(
        plays[from],
        actor,
        heights,
        step,
        initial_play,
    ) {
        lemma_first_playable(plays, from + 1, actor, heights, step, initial_play);
    }
}

proof fn lemma_first_other_owner(unannounced: Seq<(PlayerId, Card)>, from: int, actor: PlayerId)
    ensures
        first_other_owner(unannounced, from, actor) matches Some(k) ==> from <= k
            < unannounced.len() && unannounced[k].0 != actor,
    decreases unannounced.len() - from,
{
    if 0 <= from < unannounced.len() && unannounced[from].0 == actor {
        lemma_first_other_owner(unannounced, from + 1, actor);
    }
}

/// A copy of a list of commitments.
pub fn copy_commitments(v: &Vec<(PlayerId, Card)>) -> (c: Vec<(PlayerId, Card)>)
    ensures
        c@ == v@,
{
    let mut c: Vec<(PlayerId, Card)> = Vec::new();
    let mut i: usize = 0;
    while i < v.len()
        invariant
            i <= v@.len(),
            c@ == v@.take(i as int),
        decreases v@.len() - i,
    {
        c.push(v[i]);
        proof {
            assert(v@.take(i + 1) =~= v@.take(i as int).push(v@[i as int]));
        }
        i = i + 1;
    }
    proof {
        assert(v@.take(v@.len() as int) =~= v@);
    }
    c
}

/// The next seat in turn order.
pub fn next_player(player: PlayerId, players: usize) -> (next: PlayerId)
    requires
        0 < players <= 256,
    ensures
        next == spec_next_player(player, players as int),
        next.spec_index() < players,
{
    PlayerId::new(((player.index() + 1) % players) as u8)
}

fn find_playable(
    plays: &Vec<(PlayerId, Card)>,
    actor: PlayerId,
    heights: &Vec<usize>,
    step: usize,
    initial_play: Option<Card>,
    ghost_heights: Ghost<Seq<int>>,
) -> (r: Option<usize>)
    requires
        heights@.len() == 5,
        ghost_heights@.len() == 5,
        forall|i: int| 0 <= i < 5 ==> #[trigger] ghost_heights@[i] == heights@[i] as int,
        forall|i: int| 0 <= i < 5 ==> #[trigger] heights@[i] <= 5,
    ensures
        match r {
            Some(j) => first_playable(plays@, 0, actor, ghost_heights@, step as int, initial_play)
                == Some(j as int) && j < plays@.len(),
            None => first_playable(plays@, 0, actor, ghost_heights@, step as int, initial_play)
                is None,
        },
{
    let mut i: usize = 0;
    while i < plays.len()
        invariant
            i <= plays@.len(),
            heights@.len() == 5,
            ghost_heights@.len() == 5,
            forall|k: int| 0 <= k < 5 ==> #[trigger] ghost_heights@[k] == heights@[k] as int,
            forall|k: int| 0 <= k < 5 ==> #[trigger] heights@[k] <= 5,
            first_playable(plays@, 0, actor, ghost_heights@, step as int, initial_play)
                == first_playable(plays@, i as int, actor, ghost_heights@, step as int, initial_play),
        decreases plays@.len() - i,
    {
        let (owner, candidate) = plays[i];
        let matches_initial = match initial_play {
            Some(c) => c == candidate,
            None => false,
        };
        if owner == actor && (candidate.rank.number() as usize) == heights[candidate.suit.index()]
            + 1 && (step != 0 || matches_initial) {
            return Some(i);
        }
        i = i + 1;
    }
    None
}

fn find_other_owner(unannounced: &Vec<(PlayerId, Card)>, actor: PlayerId) -> (r: Option<usize>)
    ensures
        match r {
            Some(k) => first_other_owner(unannounced@, 0, actor) == Some(k as int) && k
                < unannounced@.len(),
            None => first_other_owner(unannounced@, 0, actor) is None,
        },
{
    let mut i: usize = 0;
    while i < unannounced.len()
        invariant
            i <= unannounced@.len(),
            first_other_owner(unannounced@, 0, actor) == first_other_owner(
                unannounced@,
                i as int,
                actor,
            ),
        decreases unannounced@.len() - i,
    {
        if unannounced[i].0 != actor {
            return Some(i);
        }
        i = i + 1;
    }
    None
}

/// Shared token/drawing-clock simulation for a direct play or an initial
/// Burn. With `initial_play`, the first turn must play that card; otherwise
/// each turn plays a due commitment of the acting player, or spends a token
/// on a clue that announces an outstanding card held by someone else, or
/// burns a token once everything is announced.
pub fn funded_completion_schedule(
    clock: &TableClock,
    known_plays: Vec<(PlayerId, Card)>,
    announce: Vec<(PlayerId, Card)>,
    initial_play: Option<Card>,
) -> (funded: bool)
    requires
        clock.valid(),
        (known_plays@.len() + announce@.len()) * clock.players + 1 <= usize::MAX,
    ensures
        funded == completes(
            initial_state(*clock, known_plays@, announce@),
            0,
            step_bound(*clock, known_plays@, announce@),
            clock.players as int,
            initial_play,
        ),
{
    let players = clock.players;
    let ghost bound_spec = step_bound(*clock, known_plays@, announce@);
    let ghost init = initial_state(*clock, known_plays@, announce@);
    let mut plays = known_plays;
    let mut unannounced = announce;
    let mut heights = clock.stack_heights.clone();
    let mut tokens: u8 = clock.clue_tokens;
    let mut deck: usize = clock.deck_size;
    let mut final_turns: Option<u8> = clock.final_turns_remaining;
    let mut actor = clock.current_player;
    proof {
        let a = plays@.len() + unannounced@.len();
        assert(a <= a * players) by (nonlinear_arith)
            requires
                players >= 1,
                a >= 0,
        ;
    }
    let bound = (plays.len() + unannounced.len()) * players + 1;
    let ghost mut s = init;
    proof {
        assert(heights@ == clock.stack_heights@);
        assert(s.heights =~= Seq::new(5, |i: int| heights@[i] as int));
    }
    let mut step: usize = 0;
    while step < bound
        invariant
            0 < players <= 255,
            players == clock.players,
            bound == bound_spec,
            bound_spec == step_bound(*clock, known_plays@, announce@),
            init == initial_state(*clock, known_plays@, announce@),
            step <= bound,
            heights@.len() == 5,
            forall|i: int| 0 <= i < 5 ==> #[trigger] heights@[i] <= 5,
            tokens < 255,
            actor.spec_index() < players,
            s.plays == plays@,
            s.unannounced == unannounced@,
            s.heights == Seq::new(5, |i: int| heights@[i] as int),
            s.tokens == tokens as int,
            s.deck == deck as int,
            s.final_turns == match final_turns {
                Some(t) => Some(t as int),
                None => None::<int>,
            },
            s.actor == actor,
            completes(init, 0, bound_spec, players as int, initial_play) == completes(
                s,
                step as int,
                bound_spec,
                players as int,
                initial_play,
            ),
        decreases bound - step,
    {
        if final_turns == Some(0u8) {
            assert(s.final_turns == Some(0int));
            assert(!completes(s, step as int, bound_spec, players as int, initial_play));
            assert(!completes(init, 0, bound_spec, players as int, initial_play));
            return false;
        }
        let was_final = final_turns.is_some();
        let play = find_playable(&plays, actor, &heights, step, initial_play, Ghost(s.heights));
        proof {
            lemma_first_playable(s.plays, 0, s.actor, s.heights, step as int, initial_play);
            lemma_first_other_owner(s.unannounced, 0, s.actor);
        }
        if let Some(index) = play {
            let (_, played) = plays.remove(index);
            let si = played.suit.index();
            let h = heights[si] + 1;
            heights.set(si, h);
            proof {
                assert(s.heights.update(si as int, s.heights[si as int] + 1) =~= Seq::new(
                    5,
                    |i: int| heights@[i] as int,
                ));
            }
            if plays.len() == 0 && unannounced.len() == 0 {
                assert(s.plays.remove(index as int).len() == 0);
                assert(completes(s, step as int, bound_spec, players as int, initial_play));
                return true;
            }
            if played.rank == Rank::Five {
                tokens = if tokens + 1 < MAX_CLUE_TOKENS {
                    tokens + 1
                } else {
                    MAX_CLUE_TOKENS
                };
            }
            if deck > 0 {
                deck = deck - 1;
                if deck == 0 {
                    final_turns = Some(players as u8);
                }
            }
            if was_final {
                final_turns = match final_turns {
                    Some(t) => Some(if t > 0 {
                        t - 1
                    } else {
                        0
                    }),
                    None => None,
                };
            }
            actor = next_player(actor, players);
            proof {
                s = SimState {
                    plays: plays@,
                    unannounced: unannounced@,
                    heights: Seq::new(5, |i: int| heights@[i] as int),
                    tokens: tokens as int,
                    deck: deck as int,
                    final_turns: match final_turns {
                        Some(t) => Some(t as int),
                        None => None::<int>,
                    },
                    actor,
                };
            }
        } else {
            let has_initial = initial_play.is_some();
            if (step == 0 && has_initial) || tokens == 0 {
                assert(!completes(s, step as int, bound_spec, players as int, initial_play));
                return false;
            }
            match find_other_owner(&unannounced, actor) {
                Some(k) => {
                    let entry = unannounced.remove(k);
                    plays.push(entry);
                },
                None => {
                    if unannounced.len() != 0 {
                        assert(!completes(s, step as int, bound_spec, players as int, initial_play));
                        return false;
                    }
                },
            }
            tokens = tokens - 1;
            if was_final {
                final_turns = match final_turns {
                    Some(t) => Some(if t > 0 {
                        t - 1
                    } else {
                        0
                    }),
                    None => None,
                };
            }
            actor = next_player(actor, players);
            proof {
                s = SimState {
                    plays: plays@,
                    unannounced: unannounced@,
                    heights: s.heights,
                    tokens: tokens as int,
                    deck: deck as int,
                    final_turns: match final_turns {
                        Some(t) => Some(t as int),
                        None => None::<int>,
                    },
                    actor,
                };
            }
        }
        step = step + 1;
    }
    false
}

/// A known-trash discard is dominated when it only creates a surplus token
/// while leaving an inevitable final Play Clue for the next teammate to give.
/// A safe Burn can also preserve the drawing clock for already-known plays.
pub fn completion_without_discard(clock: &TableClock, cards: &Vec<(PlayerId, Card)>) -> (r: bool)
    requires
        clock.valid(),
        cards@.len() * clock.players + 1 <= usize::MAX,
    ensures
        r == (clock.clue_tokens != 0 && cards@.len() != 0 && completes(
            initial_state(*clock, cards@, Seq::empty()),
            0,
            step_bound(*clock, cards@, Seq::empty()),
            clock.players as int,
            None,
        )),
{
    if clock.clue_tokens == 0 || cards.len() == 0 {
        return false;
    }
    let none: Vec<(PlayerId, Card)> = Vec::new();
    let plays = copy_commitments(cards);
    funded_completion_schedule(clock, plays, none, None)
}

} // verus!
