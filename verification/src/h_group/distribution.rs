//! Scheduling evidence for the intentional duplicate in a Distribution Clue.
//! <https://hanabi.github.io/level-8/#the-distribution-clue>

use vstd::prelude::*;

use crate::cards::{lemma_card_index_injective, lemma_card_index_roundtrip, Card, IdentitySet, PlayerId, Suit};

verus! {

/// Turns at which the known stack suffix finishes without and with the
/// duplicate.
#[derive(Clone, Copy, Debug, PartialEq, Eq, Structural)]
pub struct DistributionTiming {
    pub before: usize,
    pub after: usize,
}

/// Players committed to playing the rank with index `r` of `suit` above
/// `height`.
pub open spec fn committed_owners(
    commitments: Seq<(PlayerId, Card)>,
    suit: Suit,
    height: u8,
    r: int,
) -> Set<PlayerId> {
    Set::new(
        |p: PlayerId|
            exists|i: int|
                0 <= i < commitments.len() && #[trigger] commitments[i].0 == p
                    && commitments[i].1.suit == suit && commitments[i].1.rank.spec_index() == r
                    && commitments[i].1.rank.spec_number() > height,
    )
}

/// Owner sets of every rank of `suit` above `height`.
pub open spec fn suit_owners(commitments: Seq<(PlayerId, Card)>, suit: Suit, height: u8) -> spec_fn(
    int,
) -> Set<PlayerId> {
    |r: int| committed_owners(commitments, suit, height, r)
}

/// `owners` with `p` added as a holder of the rank with index `ri`.
pub open spec fn with_holder(owners: spec_fn(int) -> Set<PlayerId>, ri: int, p: PlayerId) -> spec_fn(
    int,
) -> Set<PlayerId> {
    |r: int|
        if r == ri {
            owners(r).insert(p)
        } else {
            owners(r)
        }
}

/// Number of ranks among `from..5` whose owner set holds `p`.
pub open spec fn ranks_held(owners: spec_fn(int) -> Set<PlayerId>, p: PlayerId, from: int) -> nat
    decreases 5 - from,
{
    if from >= 5 || from < 0 {
        0
    } else {
        (if owners(from).contains(p) {
            1nat
        } else {
            0nat
        }) + ranks_held(owners, p, from + 1)
    }
}

/// Length of the run of ranks starting at `from` that all have an owner.
pub open spec fn owned_run(owners: spec_fn(int) -> Set<PlayerId>, from: int) -> nat
    decreases 5 - from,
{
    if from >= 5 || from < 0 || owners(from).is_empty() {
        0
    } else {
        1 + owned_run(owners, from + 1)
    }
}

/// Turns the giver's clue needs to wait before `owner` can act, when
/// `turn` turns have already passed. Turn zero belongs to the giver; an owner
/// who is next in seat order acts after `distance` turns, and the giver
/// itself only after a full round.
pub open spec fn owner_delay(players: int, giver: PlayerId, owner: PlayerId, turn: int) -> int {
    let seat = (owner.spec_index() + players - giver.spec_index()) % players;
    let distance = (seat + players - turn % players) % players;
    if distance == 0 {
        players
    } else {
        distance
    }
}

/// `m` is the smallest delay over `owners`.
pub open spec fn is_min_delay(
    players: int,
    giver: PlayerId,
    owners: Set<PlayerId>,
    turn: int,
    m: int,
) -> bool {
    &&& exists|o: PlayerId| owners.contains(o) && owner_delay(players, giver, o, turn) == m
    &&& forall|o: PlayerId| owners.contains(o) ==> m <= owner_delay(players, giver, o, turn)
}

/// The smallest delay over the owners of one rank.
pub open spec fn min_delay(players: int, giver: PlayerId, owners: Set<PlayerId>, turn: int) -> int {
    choose|m: int| is_min_delay(players, giver, owners, turn, m)
}

/// Turn at which ranks `r..=end` have been played, starting at `turn`: each
/// rank is played by its earliest owner after its predecessor.
pub open spec fn finish_turn(
    players: int,
    giver: PlayerId,
    owners: spec_fn(int) -> Set<PlayerId>,
    r: int,
    end: int,
    turn: int,
) -> int
    decreases end + 1 - r,
{
    if r > end {
        turn
    } else {
        finish_turn(
            players,
            giver,
            owners,
            r + 1,
            end,
            turn + min_delay(players, giver, owners(r), turn),
        )
    }
}

/// The Distribution Clue timing comparison.
///
/// The commitments of `suit` above `height` give, for every rank, the set of
/// players holding it. The duplicate can only help when the target does not
/// already hold `identity` and some holder of `identity` holds a second rank
/// of the suit. The known suffix is the run of owned ranks starting just
/// above the stack; `identity` must lie in it. The result compares the
/// finishing turn of that suffix before and after adding the target as a
/// holder of `identity`, and exists only when it finishes strictly earlier.
pub open spec fn spec_timing(
    players: int,
    giver: PlayerId,
    target: PlayerId,
    height: u8,
    identity: Card,
    commitments: Seq<(PlayerId, Card)>,
) -> Option<(int, int)> {
    let owners = suit_owners(commitments, identity.suit, height);
    let ri = identity.rank.spec_index() as int;
    let run = owned_run(owners, height as int);
    let end = height + run - 1;
    let with_target = with_holder(owners, ri, target);
    if identity.rank.spec_number() <= height {
        None
    } else if owners(ri).contains(target) || !(exists|o: PlayerId|
        owners(ri).contains(o) && ranks_held(owners, o, 0) >= 2) {
        None
    } else if run == 0 || ri > end {
        None
    } else {
        let before = finish_turn(players, giver, owners, height as int, end, 0);
        let after = finish_turn(players, giver, with_target, height as int, end, 0);
        if after < before {
            Some((before, after))
        } else {
            None
        }
    }
}

/// Whether `v` lists `p`.
fn lists_player(v: &Vec<PlayerId>, p: PlayerId) -> (b: bool)
    ensures
        b == v@.contains(p),
{
    let mut i: usize = 0;
    while i < v.len()
        invariant
            i <= v@.len(),
            forall|k: int| 0 <= k < i ==> v@[k] != p,
        decreases v@.len() - i,
    {
        if v[i] == p {
            assert(v@[i as int] == p);
            return true;
        }
        i = i + 1;
    }
    false
}

/// Groups the committed owners of `suit` above `height` by rank.
fn owners_by_rank(commitments: &[(PlayerId, Card)], suit: Suit, height: u8) -> (owners: Vec<
    Vec<PlayerId>,
>)
    ensures
        owners@.len() == 5,
        forall|r: int|
            0 <= r < 5 ==> (#[trigger] owners@[r])@.to_set() == committed_owners(
                commitments@,
                suit,
                height,
                r,
            ),
{
    let mut owners: Vec<Vec<PlayerId>> = Vec::new();
    let mut r: usize = 0;
    while r < 5
        invariant
            r <= 5,
            owners@.len() == r,
            forall|k: int| 0 <= k < r ==> (#[trigger] owners@[k])@.len() == 0,
        decreases 5 - r,
    {
        owners.push(Vec::new());
        r = r + 1;
    }
    let mut i: usize = 0;
    while i < commitments.len()
        invariant
            i <= commitments@.len(),
            owners@.len() == 5,
            forall|k: int|
                0 <= k < 5 ==> (#[trigger] owners@[k])@.to_set() == committed_owners(
                    commitments@.take(i as int),
                    suit,
                    height,
                    k,
                ),
        decreases commitments@.len() - i,
    {
        let (owner, card) = commitments[i];
        let ghost before = owners@;
        proof {
            assert forall|k: int| 0 <= k < 5 implies committed_owners(
                commitments@.take(i + 1),
                suit,
                height,
                k,
            ) == if card.suit == suit && card.rank.spec_index() == k && card.rank.spec_number()
                > height {
                committed_owners(commitments@.take(i as int), suit, height, k).insert(owner)
            } else {
                committed_owners(commitments@.take(i as int), suit, height, k)
            } by {
                let next = commitments@.take(i + 1);
                let prev = commitments@.take(i as int);
                assert(next[i as int] == (owner, card));
                assert forall|j: int| 0 <= j < i implies next[j] == prev[j] by {}
                let goal = if card.suit == suit && card.rank.spec_index() == k
                    && card.rank.spec_number() > height {
                    committed_owners(prev, suit, height, k).insert(owner)
                } else {
                    committed_owners(prev, suit, height, k)
                };
                assert forall|p: PlayerId| committed_owners(next, suit, height, k).contains(p)
                    == goal.contains(p) by {
                    if committed_owners(next, suit, height, k).contains(p) {
                        let j = choose|j: int|
                            0 <= j < next.len() && #[trigger] next[j].0 == p && next[j].1.suit
                                == suit && next[j].1.rank.spec_index() == k
                                && next[j].1.rank.spec_number() > height;
                        if j < i {
                            assert(prev[j].0 == p);
                        }
                    }
                    if committed_owners(prev, suit, height, k).contains(p) {
                        let j = choose|j: int|
                            0 <= j < prev.len() && #[trigger] prev[j].0 == p && prev[j].1.suit
                                == suit && prev[j].1.rank.spec_index() == k
                                && prev[j].1.rank.spec_number() > height;
                        assert(next[j].0 == p);
                    }
                }
                assert(committed_owners(next, suit, height, k) =~= goal);
            }
        }
        if card.suit == suit && card.rank.number() > height {
            let rank_index = card.rank.index();
            let mut list = owners[rank_index].clone();
            if !lists_player(&list, owner) {
                list.push(owner);
                proof {
                    before[rank_index as int]@.lemma_push_to_set_commute(owner);
                }
            } else {
                proof {
                    assert(before[rank_index as int]@.to_set().insert(owner) =~= before[rank_index as int]@.to_set());
                }
            }
            owners.set(rank_index, list);
        }
        i = i + 1;
    }
    proof {
        assert(commitments@.take(commitments@.len() as int) =~= commitments@);
    }
    owners
}

/// Whether some holder of the rank with index `ri` also holds another rank.
fn has_double_holder(owners: &Vec<Vec<PlayerId>>, ri: usize) -> (b: bool)
    requires
        owners@.len() == 5,
        ri < 5,
    ensures
        b == exists|o: PlayerId|
            owners@[ri as int]@.contains(o) && ranks_held(
                |r: int| owners@[r]@.to_set(),
                o,
                0,
            ) >= 2,
{
    let ghost sets = |r: int| owners@[r]@.to_set();
    let mut i: usize = 0;
    while i < owners[ri].len()
        invariant
            owners@.len() == 5,
            ri < 5,
            i <= owners@[ri as int]@.len(),
            sets == (|r: int| owners@[r]@.to_set()),
            forall|k: int| 0 <= k < i ==> ranks_held(sets, #[trigger] owners@[ri as int]@[k], 0) < 2,
        decreases owners@[ri as int]@.len() - i,
    {
        let o = owners[ri][i];
        let mut count: usize = 0;
        let mut r: usize = 5;
        while r > 0
            invariant
                owners@.len() == 5,
                r <= 5,
                sets == (|r: int| owners@[r]@.to_set()),
                count == ranks_held(sets, o, r as int),
                count <= 5 - r,
            decreases r,
        {
            proof {
                lemma_ranks_held_split(sets, o, r as int - 1);
            }
            if lists_player(&owners[r - 1], o) {
                count = count + 1;
            }
            r = r - 1;
        }
        if count >= 2 {
            proof {
                assert(owners@[ri as int]@.contains(o));
            }
            return true;
        }
        i = i + 1;
    }
    proof {
        assert forall|o: PlayerId| owners@[ri as int]@.contains(o) implies ranks_held(sets, o, 0) < 2 by {
            let k = choose|k: int| 0 <= k < owners@[ri as int]@.len() && owners@[ri as int]@[k] == o;
        }
    }
    false
}

proof fn lemma_ranks_held_split(owners: spec_fn(int) -> Set<PlayerId>, p: PlayerId, r: int)
    requires
        0 <= r < 5,
    ensures
        ranks_held(owners, p, r) == (if owners(r).contains(p) {
            1nat
        } else {
            0nat
        }) + ranks_held(owners, p, r + 1),
{
}

/// Delay before `owner` can act after `turn` turns.
fn delay(players: usize, giver: PlayerId, owner: PlayerId, turn: usize) -> (d: usize)
    requires
        0 < players,
        giver.spec_index() <= players,
        players < usize::MAX / 8,
    ensures
        d == owner_delay(players as int, giver, owner, turn as int),
        1 <= d <= players,
{
    let seat = (owner.index() + players - giver.index()) % players;
    let distance = (seat + players - turn % players) % players;
    if distance == 0 {
        players
    } else {
        distance
    }
}

/// Smallest delay over a nonempty owner list.
fn min_owner_delay(players: usize, giver: PlayerId, owners: &Vec<PlayerId>, turn: usize) -> (m:
    usize)
    requires
        0 < players,
        giver.spec_index() <= players,
        players < usize::MAX / 8,
        owners@.len() > 0,
    ensures
        m == min_delay(players as int, giver, owners@.to_set(), turn as int),
        1 <= m <= players,
{
    let mut best = delay(players, giver, owners[0], turn);
    let mut i: usize = 1;
    while i < owners.len()
        invariant
            0 < players,
            giver.spec_index() <= players,
            players < usize::MAX / 8,
            1 <= i <= owners@.len(),
            1 <= best <= players,
            exists|k: int|
                0 <= k < i && owner_delay(players as int, giver, #[trigger] owners@[k], turn as int)
                    == best,
            forall|k: int|
                0 <= k < i ==> best <= owner_delay(players as int, giver, #[trigger] owners@[k], turn as int),
        decreases owners@.len() - i,
    {
        let d = delay(players, giver, owners[i], turn);
        if d < best {
            best = d;
        }
        i = i + 1;
    }
    proof {
        let s = owners@.to_set();
        let k = choose|k: int|
            0 <= k < i && owner_delay(players as int, giver, #[trigger] owners@[k], turn as int) == best;
        assert(s.contains(owners@[k]));
        assert forall|o: PlayerId| s.contains(o) implies best <= owner_delay(players as int, giver, o, turn as int) by {
            let j = choose|j: int| 0 <= j < owners@.len() && owners@[j] == o;
        }
        assert(is_min_delay(players as int, giver, s, turn as int, best as int));
        let m = min_delay(players as int, giver, s, turn as int);
        assert(is_min_delay(players as int, giver, s, turn as int, m));
        let o = choose|o: PlayerId| s.contains(o) && owner_delay(players as int, giver, o, turn as int) == m;
        assert(best <= m);
    }
    best
}

/// Turn at which the ranks `from..=end` have all been played.
fn finish(
    players: usize,
    giver: PlayerId,
    owners: &Vec<Vec<PlayerId>>,
    from: usize,
    end: usize,
) -> (turn: usize)
    requires
        0 < players,
        giver.spec_index() <= players,
        players < usize::MAX / 8,
        owners@.len() == 5,
        from <= end < 5,
        forall|r: int| from <= r <= end ==> (#[trigger] owners@[r])@.len() > 0,
    ensures
        turn == finish_turn(players as int, giver, |r: int| owners@[r]@.to_set(), from as int, end as int, 0),
{
    let ghost sets = |r: int| owners@[r]@.to_set();
    let mut turn: usize = 0;
    let mut r: usize = from;
    while r <= end
        invariant
            0 < players,
            giver.spec_index() <= players,
            players < usize::MAX / 8,
            owners@.len() == 5,
            from <= r <= end + 1,
            end < 5,
            turn <= (r - from) * players,
            sets == (|r: int| owners@[r]@.to_set()),
            forall|q: int| from <= q <= end ==> (#[trigger] owners@[q])@.len() > 0,
            finish_turn(players as int, giver, sets, from as int, end as int, 0) == finish_turn(
                players as int,
                giver,
                sets,
                r as int,
                end as int,
                turn as int,
            ),
        decreases end + 1 - r,
    {
        let m = min_owner_delay(players, giver, &owners[r], turn);
        proof {
            assert((r - from + 1) * players == (r - from) * players + players) by (nonlinear_arith);
            assert((r - from + 1) * players <= 5 * players) by (nonlinear_arith)
                requires
                    r - from + 1 <= 5,
            ;
        }
        turn = turn + m;
        r = r + 1;
    }
    turn
}

/// Compare the same known stack suffix before and after adding the duplicate.
/// Turn zero belongs to the giver; each play must follow its predecessor.
/// Unknown higher cards are not assigned owners or invented as continuations.
pub fn timing(
    players: usize,
    giver: PlayerId,
    target: PlayerId,
    height: u8,
    identity: Card,
    commitments: &[(PlayerId, Card)],
) -> (r: Option<DistributionTiming>)
    requires
        0 < players < usize::MAX / 8,
        giver.spec_index() <= players,
    ensures
        r matches Some(t) ==> spec_timing(players as int, giver, target, height, identity, commitments@)
            == Some((t.before as int, t.after as int)),
        r is None ==> spec_timing(players as int, giver, target, height, identity, commitments@)
            is None,
        r matches Some(t) ==> t.after < t.before,
        identity.rank.spec_number() <= height ==> r is None,
        commitments@.contains((target, identity)) ==> r is None,
        (forall|i: int|
            0 <= i < commitments@.len() ==> !((#[trigger] commitments@[i]).1.suit == identity.suit
                && commitments@[i].1.rank.spec_index() == height)) ==> r is None,
        forall|other: Seq<(PlayerId, Card)>|
            #![trigger other.to_set()]
            other.to_set() == commitments@.to_set() ==> (r matches Some(t) ==> spec_timing(
                players as int,
                giver,
                target,
                height,
                identity,
                other,
            ) == Some((t.before as int, t.after as int))) && (r is None ==> spec_timing(
                players as int,
                giver,
                target,
                height,
                identity,
                other,
            ) is None),
{
    proof {
        lemma_timing_cases(players as int, giver, target, height, identity, commitments@);
        assert forall|other: Seq<(PlayerId, Card)>|
            #![trigger other.to_set()]
            other.to_set() == commitments@.to_set() implies spec_timing(
            players as int,
            giver,
            target,
            height,
            identity,
            other,
        ) == spec_timing(players as int, giver, target, height, identity, commitments@) by {
            lemma_timing_reads_commitment_set(players as int, giver, target, height, identity, commitments@, other);
        }
    }
    if identity.rank.number() <= height {
        return None;
    }
    let mut owners = owners_by_rank(commitments, identity.suit, height);
    let ghost spec_owners = suit_owners(commitments@, identity.suit, height);
    proof {
        assert forall|r: int| 0 <= r < 5 implies owners@[r]@.to_set() == spec_owners(r) by {}
    }
    let rank_index = identity.rank.index();
    if lists_player(&owners[rank_index], target) || !has_double_holder(&owners, rank_index) {
        proof {
            assert(ranks_held(|r: int| owners@[r]@.to_set(), target, 0) == ranks_held(spec_owners, target, 0)) by {
                lemma_ranks_held_ext(|r: int| owners@[r]@.to_set(), spec_owners, target, 0);
            }
            assert forall|o: PlayerId| ranks_held(|r: int| owners@[r]@.to_set(), o, 0) == ranks_held(spec_owners, o, 0) by {
                lemma_ranks_held_ext(|r: int| owners@[r]@.to_set(), spec_owners, o, 0);
            }
        }
        return None;
    }
    proof {
        let o = choose|o: PlayerId|
            owners@[rank_index as int]@.contains(o) && ranks_held(
                |r: int| owners@[r]@.to_set(),
                o,
                0,
            ) >= 2;
        lemma_ranks_held_ext(|r: int| owners@[r]@.to_set(), spec_owners, o, 0);
        assert(spec_owners(rank_index as int).contains(o) && ranks_held(spec_owners, o, 0) >= 2);
    }
    // The run of owned ranks starting just above the stack.
    let mut run: usize = 0;
    let start = height as usize;
    while start + run < 5 && owners[start + run].len() > 0
        invariant
            start < 5,
            start + run <= 5,
            owners@.len() == 5,
            forall|r: int| 0 <= r < 5 ==> owners@[r]@.to_set() == spec_owners(r),
            forall|q: int| start <= q < start + run ==> (#[trigger] owners@[q])@.len() > 0,
            owned_run(spec_owners, start as int) == run + owned_run(spec_owners, (start + run) as int),
        decreases 5 - run - start,
    {
        proof {
            let q = (start + run) as int;
            assert(owners@[q]@.contains(owners@[q]@[0]));
            assert(spec_owners(q).contains(owners@[q]@[0]));
        }
        run = run + 1;
    }
    proof {
        let q = (start + run) as int;
        if q < 5 {
            assert(owners@[q]@.len() == 0);
            assert(owners@[q]@.to_set() =~= Set::<PlayerId>::empty());
        }
    }
    if run == 0 || rank_index > start + run - 1 {
        return None;
    }
    let end = start + run - 1;
    let ghost sets_before = |r: int| owners@[r]@.to_set();
    let before = finish(players, giver, &owners, start, end);
    proof {
        lemma_finish_ext(players as int, giver, sets_before, spec_owners, start as int, end as int, 0);
    }
    let mut list = owners[rank_index].clone();
    proof {
        owners@[rank_index as int]@.lemma_push_to_set_commute(target);
    }
    list.push(target);
    owners.set(rank_index, list);
    let ghost with_target = with_holder(spec_owners, rank_index as int, target);
    let after = finish(players, giver, &owners, start, end);
    proof {
        assert forall|r: int| 0 <= r < 5 implies owners@[r]@.to_set() == with_target(r) by {}
        lemma_finish_ext(
            players as int,
            giver,
            |r: int| owners@[r]@.to_set(),
            with_target,
            start as int,
            end as int,
            0,
        );
    }
    proof {
        assert(owned_run(spec_owners, start as int) == run);
        assert(!spec_owners(rank_index as int).contains(target));
        assert(identity.rank.spec_index() as int == rank_index as int);
    }
    if after < before {
        Some(DistributionTiming { before, after })
    } else {
        None
    }
}

proof fn lemma_finish_ext(
    players: int,
    giver: PlayerId,
    a: spec_fn(int) -> Set<PlayerId>,
    b: spec_fn(int) -> Set<PlayerId>,
    r: int,
    end: int,
    turn: int,
)
    requires
        0 <= r,
        end < 5,
        forall|q: int| 0 <= q < 5 ==> #[trigger] a(q) == b(q),
    ensures
        finish_turn(players, giver, a, r, end, turn) == finish_turn(players, giver, b, r, end, turn),
    decreases end + 1 - r,
{
    if r <= end {
        lemma_finish_ext(
            players,
            giver,
            a,
            b,
            r + 1,
            end,
            turn + min_delay(players, giver, a(r), turn),
        );
    }
}

proof fn lemma_ranks_held_ext(
    a: spec_fn(int) -> Set<PlayerId>,
    b: spec_fn(int) -> Set<PlayerId>,
    p: PlayerId,
    from: int,
)
    requires
        forall|r: int| 0 <= r < 5 ==> #[trigger] a(r) == b(r),
    ensures
        ranks_held(a, p, from) == ranks_held(b, p, from),
    decreases 5 - from,
{
    if 0 <= from < 5 {
        lemma_ranks_held_ext(a, b, p, from + 1);
    }
}

/// The possible identities of a Distribution Clue's focus whose duplicate
/// fits the known schedule.
pub open spec fn feasible_identities(
    players: int,
    giver: PlayerId,
    target: PlayerId,
    heights: Seq<u8>,
    identities: Set<Card>,
    commitments: Seq<(PlayerId, Card)>,
) -> Set<Card> {
    Set::new(
        |c: Card|
            identities.contains(c) && spec_timing(players, giver, target, heights[c.suit.spec_index() as int], c, commitments)
                is Some,
    )
}

/// The identity a Distribution Clue's focus is recognized as: the only one
/// of its possible identities whose intentional duplicate fits the known
/// schedule of committed plays. With none or several, the clue is no
/// Distribution Clue.
pub fn recognized_distribution_identity(
    players: usize,
    giver: PlayerId,
    target: PlayerId,
    stack_heights: [u8; 5],
    identities: IdentitySet,
    commitments: &[(PlayerId, Card)],
) -> (r: Option<Card>)
    requires
        0 < players < usize::MAX / 8,
        giver.spec_index() <= players,
    ensures
        match r {
            Some(c) => feasible_identities(players as int, giver, target, stack_heights@, identities@, commitments@)
                == Set::<Card>::empty().insert(c),
            None => forall|c: Card|
                feasible_identities(players as int, giver, target, stack_heights@, identities@, commitments@)
                    != Set::<Card>::empty().insert(c),
        },
{
    let ghost feasible = feasible_identities(players as int, giver, target, stack_heights@, identities@, commitments@);
    let mut first: Option<Card> = None;
    let mut second = false;
    let mut i: usize = 0;
    while i < 25
        invariant
            0 < players < usize::MAX / 8,
            giver.spec_index() <= players,
            i <= 25,
            feasible == feasible_identities(players as int, giver, target, stack_heights@, identities@, commitments@),
            first is None ==> forall|c: Card| c.spec_index() < i ==> !feasible.contains(c),
            first matches Some(f) ==> feasible.contains(f) && f.spec_index() < i,
            first is Some && !second ==> forall|c: Card|
                c.spec_index() < i && feasible.contains(c) ==> Some(c) == first,
            second ==> first is Some && exists|g: Card| feasible.contains(g) && Some(g) != first,
        decreases 25 - i,
    {
        let identity = Card::from_index(i);
        let fits = identities.contains(identity) && timing(
            players,
            giver,
            target,
            stack_heights[identity.suit.index()],
            identity,
            commitments,
        ).is_some();
        if fits {
            assert(feasible.contains(identity));
            match first {
                None => {
                    first = Some(identity);
                },
                Some(f) => {
                    second = true;
                    proof {
                        lemma_card_index_injective(f, identity);
                    }
                },
            }
        }
        proof {
            assert forall|c: Card| c.spec_index() < i + 1 && c.spec_index() != i implies c.spec_index() < i by {}
            assert forall|c: Card| c.spec_index() == i implies c == identity by {
                lemma_card_index_injective(c, identity);
            }
        }
        i = i + 1;
    }
    proof {
        assert forall|c: Card| feasible.contains(c) implies c.spec_index() < 25 by {
            lemma_card_index_roundtrip(c);
        }
    }
    match first {
        Some(f) => {
            if second {
                proof {
                    assert forall|c: Card| feasible != Set::<Card>::empty().insert(c) by {
                        if feasible == Set::<Card>::empty().insert(c) {
                            let g = choose|g: Card| feasible.contains(g) && Some(g) != first;
                            assert(Set::<Card>::empty().insert(c).contains(f));
                            assert(Set::<Card>::empty().insert(c).contains(g));
                        }
                    }
                }
                None
            } else {
                proof {
                    assert(feasible =~= Set::<Card>::empty().insert(f));
                }
                Some(f)
            }
        },
        None => {
            proof {
                assert forall|c: Card| feasible != Set::<Card>::empty().insert(c) by {
                    if feasible == Set::<Card>::empty().insert(c) {
                        assert(feasible.contains(c));
                    }
                }
            }
            None
        },
    }
}

/// What the timing comparison promises whatever the table: an existing
/// timing finishes strictly earlier with the duplicate; there is none when the
/// identity is already played, when the target already holds it, or when no
/// commitment holds the next card of the suit.
pub proof fn lemma_timing_cases(
    players: int,
    giver: PlayerId,
    target: PlayerId,
    height: u8,
    identity: Card,
    commitments: Seq<(PlayerId, Card)>,
)
    ensures
        spec_timing(players, giver, target, height, identity, commitments) matches Some(t) ==> t.1
            < t.0,
        identity.rank.spec_number() <= height ==> spec_timing(
            players,
            giver,
            target,
            height,
            identity,
            commitments,
        ) is None,
        commitments.contains((target, identity)) ==> spec_timing(
            players,
            giver,
            target,
            height,
            identity,
            commitments,
        ) is None,
        (forall|i: int|
            0 <= i < commitments.len() ==> !((#[trigger] commitments[i]).1.suit == identity.suit
                && commitments[i].1.rank.spec_index() == height)) ==> spec_timing(
            players,
            giver,
            target,
            height,
            identity,
            commitments,
        ) is None,
{
    let owners = suit_owners(commitments, identity.suit, height);
    let ri = identity.rank.spec_index() as int;
    if identity.rank.spec_number() > height {
        if commitments.contains((target, identity)) {
            let i = choose|i: int| 0 <= i < commitments.len() && commitments[i] == (target, identity);
            assert(commitments[i].0 == target);
            assert(owners(ri).contains(target));
        }
        if forall|i: int|
            0 <= i < commitments.len() ==> !((#[trigger] commitments[i]).1.suit == identity.suit
                && commitments[i].1.rank.spec_index() == height) {
            assert(owners(height as int) =~= Set::<PlayerId>::empty()) by {
                assert forall|p: PlayerId| !(#[trigger] owners(height as int).contains(p)) by {
                    if owners(height as int).contains(p) {
                        let i = choose|i: int|
                            0 <= i < commitments.len() && #[trigger] commitments[i].0 == p
                                && commitments[i].1.suit == identity.suit
                                && commitments[i].1.rank.spec_index() == height as int
                                && commitments[i].1.rank.spec_number() > height;
                        assert(commitments[i].1.suit == identity.suit);
                    }
                }
            }
            assert(owned_run(owners, height as int) == 0);
        }
    }
}

/// The timing comparison reads the commitments as a set: listing them in
/// another order, or listing one twice, gives the same result.
pub proof fn lemma_timing_reads_commitment_set(
    players: int,
    giver: PlayerId,
    target: PlayerId,
    height: u8,
    identity: Card,
    a: Seq<(PlayerId, Card)>,
    b: Seq<(PlayerId, Card)>,
)
    requires
        a.to_set() == b.to_set(),
    ensures
        spec_timing(players, giver, target, height, identity, a) == spec_timing(
            players,
            giver,
            target,
            height,
            identity,
            b,
        ),
{
    lemma_owners_read_commitment_set(a, b, identity.suit, height);
    lemma_owners_read_commitment_set(b, a, identity.suit, height);
    assert forall|r: int|
        committed_owners(a, identity.suit, height, r) == committed_owners(
            b,
            identity.suit,
            height,
            r,
        ) by {
        assert(committed_owners(a, identity.suit, height, r) =~= committed_owners(
            b,
            identity.suit,
            height,
            r,
        ));
    }
    assert(suit_owners(a, identity.suit, height) =~= suit_owners(b, identity.suit, height));
}

/// Every owner committed in `a` is committed in `b` when `b` lists every
/// commitment of `a`.
proof fn lemma_owners_read_commitment_set(
    a: Seq<(PlayerId, Card)>,
    b: Seq<(PlayerId, Card)>,
    suit: Suit,
    height: u8,
)
    requires
        a.to_set() == b.to_set(),
    ensures
        forall|r: int, p: PlayerId|
            #[trigger] committed_owners(a, suit, height, r).contains(p) ==> committed_owners(
                b,
                suit,
                height,
                r,
            ).contains(p),
{
    assert forall|r: int, p: PlayerId|
        #[trigger] committed_owners(a, suit, height, r).contains(p) implies committed_owners(
            b,
            suit,
            height,
            r,
        ).contains(p) by {
        let i = choose|i: int|
            0 <= i < a.len() && #[trigger] a[i].0 == p && a[i].1.suit == suit
                && a[i].1.rank.spec_index() == r && a[i].1.rank.spec_number() > height;
        assert(a.contains(a[i]));
        assert(a.to_set().contains(a[i]));
        assert(b.contains(a[i]));
        let j = choose|j: int| 0 <= j < b.len() && b[j] == a[i];
        assert(b[j].0 == p);
    }
}

} // verus!
