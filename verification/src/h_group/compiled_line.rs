//! The deterministic line a clue establishes, compiled from what every
//! observer's projection of the clue recorded at the clue's turn.

use vstd::prelude::*;

use crate::cards::{Card, CardId, CardSet, IdentitySet, PlayerId};
use crate::h_group::admission::VisibleCard;
use crate::h_group::effects::history_views;
use crate::h_group::facts::copy_ids;
use crate::h_group::queue::{identity_of, seen_identity};
use crate::h_group::{HGroupMoveKind, HGroupSignal, SignalView};

verus! {

/// One clue as an observer's projection interpreted it: its turn, its
/// focus and the non-focus cards it newly touched.
#[derive(Clone, Debug)]
pub struct ClueRecord {
    pub turn: u32,
    pub focus: CardId,
    pub new_non_focus: Vec<CardId>,
}

/// A clue record as plain values.
pub struct ClueRecordView {
    pub turn: u32,
    pub focus: CardId,
    pub new_non_focus: Seq<CardId>,
}

impl View for ClueRecord {
    type V = ClueRecordView;

    open spec fn view(&self) -> ClueRecordView {
        ClueRecordView { turn: self.turn, focus: self.focus, new_non_focus: self.new_non_focus@ }
    }
}

/// What one observer's projection of the clue recorded: its explanation
/// signals and its clue interpretations, oldest first.
#[derive(Clone, Debug)]
pub struct ObserverLine {
    pub signals: Vec<HGroupSignal>,
    pub clues: Vec<ClueRecord>,
}

/// An observer's record as plain values.
pub struct LineView {
    pub signals: Seq<SignalView>,
    pub clues: Seq<ClueRecordView>,
}

impl View for ObserverLine {
    type V = LineView;

    open spec fn view(&self) -> LineView {
        LineView {
            signals: history_views(self.signals@),
            clues: self.clues@.map_values(|c: ClueRecord| c@),
        }
    }
}

/// The records of every observer, by seat.
pub open spec fn line_views(lines: Seq<ObserverLine>) -> Seq<LineView> {
    lines.map_values(|l: ObserverLine| l@)
}

/// The first clue interpreted at `turn`.
pub open spec fn first_clue_from(clues: Seq<ClueRecordView>, turn: u32, k: int) -> Option<ClueRecordView>
    decreases clues.len() - k,
{
    if k < 0 || k >= clues.len() {
        None
    } else if clues[k].turn == turn {
        Some(clues[k])
    } else {
        first_clue_from(clues, turn, k + 1)
    }
}

/// The last clue interpreted at `turn` among the first `n`.
pub open spec fn last_clue_upto(clues: Seq<ClueRecordView>, turn: u32, n: int) -> Option<ClueRecordView>
    decreases n,
{
    if n <= 0 || n > clues.len() {
        None
    } else if clues[n - 1].turn == turn {
        Some(clues[n - 1])
    } else {
        last_clue_upto(clues, turn, n - 1)
    }
}

/// Everything the compiled line reads of the position: the observer and
/// turn of the clue, the observer's view of the hands and stacks, the
/// identities still eventually useful, the canonical kind of the clue, the
/// identities already publicly committed, and every observer's record.
pub struct LineContext {
    pub observer: PlayerId,
    pub turn: u32,
    pub hands: Seq<Vec<VisibleCard>>,
    pub heights: Seq<u8>,
    pub useful: Set<Card>,
    pub canonical: Option<HGroupMoveKind>,
    pub commitments: Seq<Card>,
    pub lines: Seq<LineView>,
}

/// Ignition signals whose named cards are all immediate blind plays.
pub open spec fn spec_plain_ignition(kind: HGroupMoveKind) -> bool {
    kind == HGroupMoveKind::ReplayDoubleIgnition || kind == HGroupMoveKind::TrashDoubleIgnition || kind
        == HGroupMoveKind::PokeDoubleIgnition || kind == HGroupMoveKind::BombDoubleIgnition || kind
        == HGroupMoveKind::BombTripleIgnition
}

/// Finesses whose line is layered.
pub open spec fn spec_layered(kind: HGroupMoveKind) -> bool {
    kind == HGroupMoveKind::LayeredFinesse || kind == HGroupMoveKind::HiddenFinesse || kind
        == HGroupMoveKind::QueuedFinesse || kind == HGroupMoveKind::AmbiguousFinesse
}

/// Ejections.
pub open spec fn spec_ejection(kind: HGroupMoveKind) -> bool {
    kind == HGroupMoveKind::FiveColorEjection || kind == HGroupMoveKind::Ejection || kind
        == HGroupMoveKind::OutOfPositionEjection || kind == HGroupMoveKind::StackedEjection
}

/// The named lines, by precedence from first to last.
#[derive(Clone, Copy, Debug, PartialEq, Eq, Structural)]
pub enum LineKind {
    Ignition,
    Ejection,
    Bluff,
    Clandestine,
    Layered,
}

/// Which named line the signal `s` of the observer at seat `p` supports, if
/// any. A Bluff counts only when it is the clue's canonical reading; a
/// Clandestine Finesse or a 4 Charm only in the giver's own reading; an
/// ejection only with its touched cards.
pub open spec fn line_kind(ctx: LineContext, p: int, s: SignalView) -> Option<LineKind> {
    if s.turn != ctx.turn {
        None
    } else if s.kind == HGroupMoveKind::Bluff {
        if ctx.canonical == Some(HGroupMoveKind::Bluff) {
            Some(LineKind::Bluff)
        } else {
            None
        }
    } else if s.kind == HGroupMoveKind::ClandestineFinesse {
        if p == ctx.observer.seat {
            Some(LineKind::Clandestine)
        } else {
            None
        }
    } else if spec_layered(s.kind) {
        Some(LineKind::Layered)
    } else if spec_ejection(s.kind) {
        if s.cards.len() >= 2 {
            Some(LineKind::Ejection)
        } else {
            None
        }
    } else if s.kind == HGroupMoveKind::Charm {
        if p == ctx.observer.seat {
            Some(LineKind::Ejection)
        } else {
            None
        }
    } else if s.kind == HGroupMoveKind::UnnecessaryIgnition || spec_plain_ignition(s.kind) {
        Some(LineKind::Ignition)
    } else {
        None
    }
}

/// The cards the Unnecessary Moves recorded at `turn` among the first `n`
/// signals push.
pub open spec fn pushed_upto(signals: Seq<SignalView>, turn: u32, n: int) -> nat
    decreases n,
{
    if n <= 0 || n > signals.len() {
        0
    } else {
        pushed_upto(signals, turn, n - 1) + if signals[n - 1].turn == turn && signals[n - 1].kind
            == HGroupMoveKind::UnnecessaryMove {
            signals[n - 1].cards.len()
        } else {
            0nat
        }
    }
}

/// The cards the Unnecessary Moves recorded at `turn` push.
pub open spec fn pushed(signals: Seq<SignalView>, turn: u32) -> nat {
    pushed_upto(signals, turn, signals.len() as int)
}

/// How far `identity` is from being playable.
pub open spec fn distance_from_playable(heights: Seq<u8>, identity: Card) -> int {
    let d = identity.rank.spec_number() - (heights[identity.suit.spec_index() as int] + 1);
    if d < 0 {
        0
    } else {
        d
    }
}

/// The newly touched non-focus cards that are visibly still useful.
pub open spec fn useful_touch(ctx: LineContext, card: CardId) -> bool {
    seen_identity(ctx.hands, card) matches Some(i) && ctx.useful.contains(i)
}

/// Cards a Bluff secures: its blind plays and focus, plus the newly touched
/// non-focus cards of the first clue at the turn that are visibly useful.
pub open spec fn bluff_secured(ctx: LineContext, p: int, s: SignalView) -> Set<CardId> {
    s.cards.to_set().union(
        match first_clue_from(ctx.lines[p].clues, ctx.turn, 0) {
            Some(c) => c.new_non_focus.to_set().filter(|card: CardId| useful_touch(ctx, card)),
            None => Set::empty(),
        },
    )
}

/// A Bluff's last card is not yet a near play: unseen, or more than one
/// card from playable.
pub open spec fn far_from_playable(ctx: LineContext, card: CardId) -> bool {
    match seen_identity(ctx.hands, card) {
        None => true,
        Some(i) => distance_from_playable(ctx.heights, i) > 1,
    }
}

/// The card of `f`'s suit numbered `r` is played or publicly committed.
pub open spec fn rank_covered(heights: Seq<u8>, commitments: Seq<Card>, f: Card, r: int) -> bool {
    r <= heights[f.suit.spec_index() as int] || exists|k: int|
        0 <= k < commitments.len() && (#[trigger] commitments[k]).suit == f.suit && commitments[k].rank.spec_number()
            == r
}

/// An ejection's focus is visibly useful and every predecessor is played
/// or publicly committed.
pub open spec fn ejection_focus_secured(ctx: LineContext, p: int) -> bool {
    match first_clue_from(ctx.lines[p].clues, ctx.turn, 0) {
        None => false,
        Some(c) => match seen_identity(ctx.hands, c.focus) {
            None => false,
            Some(f) => ctx.useful.contains(f) && forall|r: int|
                1 <= r < f.rank.spec_number() ==> #[trigger] rank_covered(ctx.heights, ctx.commitments, f, r),
        },
    }
}

/// What one supporting signal contributes: the secured actions, the blind
/// play depth and, for a Bluff or Clandestine Finesse, its cards.
pub open spec fn contribution(ctx: LineContext, p: int, s: SignalView) -> (nat, nat, Seq<CardId>) {
    let n = s.cards.len();
    match line_kind(ctx, p, s) {
        Some(LineKind::Bluff) => (
            bluff_secured(ctx, p, s).len(),
            if n == 0 {
                0nat
            } else {
                (n - 1) as nat
            },
            if n > 0 && far_from_playable(ctx, s.cards.last()) {
                s.cards.drop_last()
            } else {
                s.cards
            },
        ),
        Some(LineKind::Clandestine) => (
            n + 1,
            n,
            match first_clue_from(ctx.lines[p].clues, ctx.turn, 0) {
                Some(c) => s.cards.push(c.focus),
                None => s.cards,
            },
        ),
        Some(LineKind::Layered) => (n + 1, n, Seq::empty()),
        Some(LineKind::Ejection) => if s.kind == HGroupMoveKind::Charm {
            (1nat, 1nat, Seq::empty())
        } else {
            (if ejection_focus_secured(ctx, p) {
                2nat
            } else {
                1nat
            }, 1nat, Seq::empty())
        },
        Some(LineKind::Ignition) => if s.kind == HGroupMoveKind::UnnecessaryIgnition {
            (n + pushed(ctx.lines[p].signals, ctx.turn), n + pushed(ctx.lines[p].signals, ctx.turn), Seq::empty())
        } else {
            (n, n, Seq::empty())
        },
        None => (0nat, 0nat, Seq::empty()),
    }
}

/// The signals of the first `n` observers, each with its observer's seat.
pub open spec fn entries(lines: Seq<LineView>, n: int) -> Seq<(int, SignalView)>
    decreases n,
{
    if n <= 0 || n > lines.len() {
        Seq::empty()
    } else {
        entries(lines, n - 1) + Seq::new(lines[n - 1].signals.len(), |k: int| (n - 1, lines[n - 1].signals[k]))
    }
}

/// The last entry supporting a line of `kind`.
pub open spec fn latest(ctx: LineContext, es: Seq<(int, SignalView)>, kind: LineKind) -> Option<(int, SignalView)>
    decreases es.len(),
{
    if es.len() == 0 {
        None
    } else if line_kind(ctx, es.last().0, es.last().1) == Some(kind) {
        Some(es.last())
    } else {
        latest(ctx, es.drop_last(), kind)
    }
}

/// What the last signal supporting a line of `kind` contributes.
pub open spec fn latest_value(ctx: LineContext, es: Seq<(int, SignalView)>, kind: LineKind) -> Option<(nat, nat, Seq<CardId>)> {
    match latest(ctx, es, kind) {
        Some((p, s)) => Some(contribution(ctx, p, s)),
        None => None,
    }
}

/// The canonical named line: the last ignition, else the last ejection or
/// 4 Charm, else the last canonical Bluff with its cards, else the giver's
/// last Clandestine Finesse with its cards, else the last layered Finesse;
/// each as secured actions, blind-play depth and the cards where named.
pub open spec fn spec_named_line(ctx: LineContext) -> Option<(nat, nat, Option<Seq<CardId>>)> {
    let es = entries(ctx.lines, ctx.lines.len() as int);
    match latest_value(ctx, es, LineKind::Ignition) {
        Some(v) => Some((v.0, v.1, None)),
        None => match latest_value(ctx, es, LineKind::Ejection) {
            Some(v) => Some((v.0, v.1, None)),
            None => match latest_value(ctx, es, LineKind::Bluff) {
                Some(v) => Some((v.0, v.1, Some(v.2))),
                None => match latest_value(ctx, es, LineKind::Clandestine) {
                    Some(v) => Some((v.0, v.1, Some(v.2))),
                    None => match latest_value(ctx, es, LineKind::Layered) {
                        Some(v) => Some((v.0, v.1, None)),
                        None => None,
                    },
                },
            },
        },
    }
}

/// Every signal's cards, with what the turn's Unnecessary Moves push, fit
/// in a machine word.
pub open spec fn sizes_fit(lines: Seq<LineView>, turn: u32) -> bool {
    forall|p: int, k: int|
        0 <= p < lines.len() && 0 <= k < lines[p].signals.len() ==> (#[trigger] lines[p].signals[k]).cards.len()
            + pushed(lines[p].signals, turn) < usize::MAX
}

/// The named line the compiled clue establishes.
#[derive(Clone, Debug)]
pub struct NamedLineEvidence {
    pub secured_actions: usize,
    pub connection_steps: usize,
    pub playable_cards: Option<Vec<CardId>>,
}

/// The named line as plain values.
pub open spec fn named_view(n: NamedLineEvidence) -> (nat, nat, Option<Seq<CardId>>) {
    (
        n.secured_actions as nat,
        n.connection_steps as nat,
        match n.playable_cards {
            Some(v) => Some(v@),
            None => None,
        },
    )
}

/// The inputs of the compiled line, as exec values.
pub struct LineInputs {
    pub observer: PlayerId,
    pub turn: u32,
    pub hands: Vec<Vec<VisibleCard>>,
    pub stack_heights: [u8; 5],
    pub useful: IdentitySet,
    pub commitments: Vec<Card>,
    pub lines: Vec<ObserverLine>,
}

impl LineInputs {
    /// The inputs read with `canonical` as the clue's canonical kind.
    pub open spec fn context(&self, canonical: Option<HGroupMoveKind>) -> LineContext {
        LineContext {
            observer: self.observer,
            turn: self.turn,
            hands: self.hands@,
            heights: self.stack_heights@,
            useful: self.useful@,
            canonical,
            commitments: self.commitments@,
            lines: line_views(self.lines@),
        }
    }
}

fn first_clue(clues: &Vec<ClueRecord>, turn: u32) -> (r: Option<&ClueRecord>)
    ensures
        match r {
            Some(c) => first_clue_from(clues@.map_values(|c: ClueRecord| c@), turn, 0) == Some(c@),
            None => first_clue_from(clues@.map_values(|c: ClueRecord| c@), turn, 0) is None,
        },
{
    let ghost views = clues@.map_values(|c: ClueRecord| c@);
    let mut k: usize = 0;
    while k < clues.len()
        invariant
            k <= clues@.len(),
            views == clues@.map_values(|c: ClueRecord| c@),
            first_clue_from(views, turn, 0) == first_clue_from(views, turn, k as int),
        decreases clues@.len() - k,
    {
        assert(views[k as int] == clues@[k as int]@);
        if clues[k].turn == turn {
            return Some(&clues[k]);
        }
        k = k + 1;
    }
    None
}

fn is_plain_ignition(kind: HGroupMoveKind) -> (b: bool)
    ensures
        b == spec_plain_ignition(kind),
{
    kind == HGroupMoveKind::ReplayDoubleIgnition || kind == HGroupMoveKind::TrashDoubleIgnition || kind
        == HGroupMoveKind::PokeDoubleIgnition || kind == HGroupMoveKind::BombDoubleIgnition || kind
        == HGroupMoveKind::BombTripleIgnition
}

fn is_layered(kind: HGroupMoveKind) -> (b: bool)
    ensures
        b == spec_layered(kind),
{
    kind == HGroupMoveKind::LayeredFinesse || kind == HGroupMoveKind::HiddenFinesse || kind
        == HGroupMoveKind::QueuedFinesse || kind == HGroupMoveKind::AmbiguousFinesse
}

fn is_ejection(kind: HGroupMoveKind) -> (b: bool)
    ensures
        b == spec_ejection(kind),
{
    kind == HGroupMoveKind::FiveColorEjection || kind == HGroupMoveKind::Ejection || kind
        == HGroupMoveKind::OutOfPositionEjection || kind == HGroupMoveKind::StackedEjection
}

impl LineInputs {
    fn kind_of(&self, canonical: Option<HGroupMoveKind>, p: usize, signal: &HGroupSignal) -> (r: Option<LineKind>)
        ensures
            r == line_kind(self.context(canonical), p as int, signal@),
    {
        if signal.turn != self.turn {
            None
        } else if signal.kind == HGroupMoveKind::Bluff {
            if canonical == Some(HGroupMoveKind::Bluff) {
                Some(LineKind::Bluff)
            } else {
                None
            }
        } else if signal.kind == HGroupMoveKind::ClandestineFinesse {
            if p == self.observer.index() {
                Some(LineKind::Clandestine)
            } else {
                None
            }
        } else if is_layered(signal.kind) {
            Some(LineKind::Layered)
        } else if is_ejection(signal.kind) {
            if signal.cards.len() >= 2 {
                Some(LineKind::Ejection)
            } else {
                None
            }
        } else if signal.kind == HGroupMoveKind::Charm {
            if p == self.observer.index() {
                Some(LineKind::Ejection)
            } else {
                None
            }
        } else if signal.kind == HGroupMoveKind::UnnecessaryIgnition || is_plain_ignition(signal.kind) {
            Some(LineKind::Ignition)
        } else {
            None
        }
    }

    fn pushed_by(&self, p: usize) -> (n: usize)
        requires
            p < self.lines@.len(),
            pushed(line_views(self.lines@)[p as int].signals, self.turn) < usize::MAX,
        ensures
            n == pushed(line_views(self.lines@)[p as int].signals, self.turn),
    {
        let signals = &self.lines[p].signals;
        let ghost sv = line_views(self.lines@)[p as int].signals;
        assert(sv == history_views(signals@));
        let mut n: usize = 0;
        let mut k: usize = 0;
        while k < signals.len()
            invariant
                sv == history_views(signals@),
                pushed(sv, self.turn) < usize::MAX,
                k <= signals@.len(),
                n == pushed_upto(sv, self.turn, k as int),
            decreases signals@.len() - k,
        {
            proof {
                lemma_pushed_monotone(sv, self.turn, (k + 1) as int, sv.len() as int);
                assert(sv[k as int] == signals@[k as int]@);
            }
            if signals[k].turn == self.turn && signals[k].kind == HGroupMoveKind::UnnecessaryMove {
                n = n + signals[k].cards.len();
            }
            k = k + 1;
        }
        n
    }

    fn committed(&self, focus: Card, r: u8) -> (b: bool)
        ensures
            b == exists|k: int|
                0 <= k < self.commitments@.len() && (#[trigger] self.commitments@[k]).suit == focus.suit
                    && self.commitments@[k].rank.spec_number() == r,
    {
        let mut k: usize = 0;
        while k < self.commitments.len()
            invariant
                k <= self.commitments@.len(),
                forall|m: int|
                    0 <= m < k ==> !((#[trigger] self.commitments@[m]).suit == focus.suit
                        && self.commitments@[m].rank.spec_number() == r),
            decreases self.commitments@.len() - k,
        {
            let promised = self.commitments[k];
            if promised.suit == focus.suit && promised.rank.number() == r {
                assert(self.commitments@[k as int].suit == focus.suit);
                return true;
            }
            k = k + 1;
        }
        false
    }

    fn focus_secured(&self, p: usize, Ghost(canonical): Ghost<Option<HGroupMoveKind>>) -> (b: bool)
        requires
            p < self.lines@.len(),
        ensures
            b == ejection_focus_secured(self.context(canonical), p as int),
    {
        let ghost ctx = self.context(canonical);
        assert(ctx.lines[p as int] == self.lines@[p as int]@);
        let clue = match first_clue(&self.lines[p].clues, self.turn) {
            Some(c) => c,
            None => {
                return false;
            },
        };
        let focus = match identity_of(&self.hands, clue.focus) {
            Some(f) => f,
            None => {
                return false;
            },
        };
        if !self.useful.contains(focus) {
            return false;
        }
        let height = self.stack_heights[focus.suit.index()];
        let number = focus.rank.number();
        let mut r: u8 = 1;
        while r < number
            invariant
                ctx == self.context(canonical),
                p < self.lines@.len(),
                first_clue_from(ctx.lines[p as int].clues, ctx.turn, 0) == Some(clue@),
                seen_identity(ctx.hands, clue.focus) == Some(focus),
                ctx.useful.contains(focus),
                1 <= r,
                number == focus.rank.spec_number(),
                height == ctx.heights[focus.suit.spec_index() as int],
                ctx.commitments == self.commitments@,
                forall|q: int| 1 <= q < r ==> #[trigger] rank_covered(ctx.heights, ctx.commitments, focus, q),
            decreases number - r,
        {
            if r > height && !self.committed(focus, r) {
                assert(!rank_covered(ctx.heights, ctx.commitments, focus, r as int));
                return false;
            }
            r = r + 1;
        }
        true
    }
}

proof fn lemma_pushed_monotone(signals: Seq<SignalView>, turn: u32, a: int, b: int)
    requires
        a <= b <= signals.len(),
    ensures
        pushed_upto(signals, turn, a) <= pushed_upto(signals, turn, b),
    decreases b - a,
{
    if a < b {
        lemma_pushed_monotone(signals, turn, a, b - 1);
    }
}

/// The first `k` signals of the observer at seat `p` appended to the
/// entries of the observers before it.
pub open spec fn prefix_entries(lines: Seq<LineView>, p: int, k: int) -> Seq<(int, SignalView)> {
    entries(lines, p) + Seq::new(k as nat, |j: int| (p, lines[p].signals[j]))
}

/// An exec contribution as plain values.
pub open spec fn value_view(o: Option<(usize, usize, Vec<CardId>)>) -> Option<(nat, nat, Seq<CardId>)> {
    match o {
        Some(v) => Some((v.0 as nat, v.1 as nat, v.2@)),
        None => None,
    }
}

proof fn lemma_latest_push(ctx: LineContext, es: Seq<(int, SignalView)>, e: (int, SignalView), kind: LineKind)
    ensures
        latest(ctx, es.push(e), kind) == if line_kind(ctx, e.0, e.1) == Some(kind) {
            Some(e)
        } else {
            latest(ctx, es, kind)
        },
{
    assert(es.push(e).drop_last() =~= es);
    assert(es.push(e).last() == e);
}

impl LineInputs {
    fn secured_count(&self, p: usize, signal: &HGroupSignal) -> (n: usize)
        requires
            p < self.lines@.len(),
        ensures
            n == bluff_secured(self.context(Some(HGroupMoveKind::Bluff)), p as int, signal@).len(),
    {
        let ghost ctx = self.context(Some(HGroupMoveKind::Bluff));
        assert(ctx.lines[p as int] == self.lines@[p as int]@);
        let mut set = CardSet::new();
        let mut k: usize = 0;
        proof {
            assert(signal.cards@.take(0).to_set() =~= Set::<CardId>::empty());
        }
        while k < signal.cards.len()
            invariant
                set.wf(),
                k <= signal.cards@.len(),
                set@ == signal.cards@.take(k as int).to_set(),
            decreases signal.cards@.len() - k,
        {
            proof {
                assert(signal.cards@.take(k + 1) =~= signal.cards@.take(k as int).push(signal.cards@[k as int]));
                signal.cards@.take(k as int).lemma_push_to_set_commute(signal.cards@[k as int]);
            }
            set.insert(signal.cards[k]);
            k = k + 1;
        }
        proof {
            assert(signal.cards@.take(k as int) =~= signal.cards@);
        }
        match first_clue(&self.lines[p].clues, self.turn) {
            Some(clue) => {
                let touched = &clue.new_non_focus;
                let mut m: usize = 0;
                proof {
                    assert(signal.cards@.to_set().union(
                        touched@.take(0).to_set().filter(|card: CardId| useful_touch(ctx, card)),
                    ) =~= signal.cards@.to_set());
                }
                while m < touched.len()
                    invariant
                        ctx == self.context(Some(HGroupMoveKind::Bluff)),
                        set.wf(),
                        m <= touched@.len(),
                        set@ == signal.cards@.to_set().union(
                            touched@.take(m as int).to_set().filter(|card: CardId| useful_touch(ctx, card)),
                        ),
                    decreases touched@.len() - m,
                {
                    let card = touched[m];
                    proof {
                        assert(touched@.take(m + 1) =~= touched@.take(m as int).push(card));
                        touched@.take(m as int).lemma_push_to_set_commute(card);
                    }
                    let ghost before = set@;
                    match identity_of(&self.hands, card) {
                        Some(i) => {
                            if self.useful.contains(i) {
                                set.insert(card);
                            }
                        },
                        None => {},
                    }
                    proof {
                        assert(set@ =~= signal.cards@.to_set().union(
                            touched@.take(m + 1).to_set().filter(|card: CardId| useful_touch(ctx, card)),
                        ));
                    }
                    m = m + 1;
                }
                proof {
                    assert(touched@.take(m as int) =~= touched@);
                    assert(set@ =~= bluff_secured(ctx, p as int, signal@));
                }
            },
            None => {
                proof {
                    assert(set@ =~= bluff_secured(ctx, p as int, signal@));
                }
            },
        }
        set.len()
    }

    fn far(&self, card: CardId) -> (b: bool)
        ensures
            b == far_from_playable(self.context(None), card),
    {
        match identity_of(&self.hands, card) {
            None => true,
            Some(i) => {
                let reached: u16 = self.stack_heights[i.suit.index()] as u16 + 1;
                let number: u16 = i.rank.number() as u16;
                number > reached && number - reached > 1
            },
        }
    }

    fn contribution_of(&self, canonical: Option<HGroupMoveKind>, p: usize, signal: &HGroupSignal, kind: LineKind) -> (r: (
        usize,
        usize,
        Vec<CardId>,
    ))
        requires
            p < self.lines@.len(),
            line_kind(self.context(canonical), p as int, signal@) == Some(kind),
            signal@.cards.len() + pushed(line_views(self.lines@)[p as int].signals, self.turn) < usize::MAX,
        ensures
            r.0 as nat == contribution(self.context(canonical), p as int, signal@).0,
            r.1 as nat == contribution(self.context(canonical), p as int, signal@).1,
            r.2@ == contribution(self.context(canonical), p as int, signal@).2,
    {
        let ghost ctx = self.context(canonical);
        assert(ctx.lines[p as int] == self.lines@[p as int]@);
        let n = signal.cards.len();
        match kind {
            LineKind::Bluff => {
                assert(canonical == Some(HGroupMoveKind::Bluff));
                let count = self.secured_count(p, signal);
                let depth = if n == 0 {
                    0
                } else {
                    n - 1
                };
                let mut cards = copy_ids(&signal.cards);
                proof {
                    if n > 0 {
                        assert(far_from_playable(self.context(None), signal.cards@[n - 1]) == far_from_playable(
                            ctx,
                            signal.cards@[n - 1],
                        ));
                    }
                }
                if n > 0 && self.far(signal.cards[n - 1]) {
                    cards.pop();
                    proof {
                        assert(cards@ =~= signal.cards@.drop_last());
                    }
                }
                (count, depth, cards)
            },
            LineKind::Clandestine => {
                let mut cards = copy_ids(&signal.cards);
                match first_clue(&self.lines[p].clues, self.turn) {
                    Some(clue) => {
                        cards.push(clue.focus);
                    },
                    None => {},
                }
                (n + 1, n, cards)
            },
            LineKind::Layered => (n + 1, n, Vec::new()),
            LineKind::Ejection => {
                if signal.kind == HGroupMoveKind::Charm {
                    (1, 1, Vec::new())
                } else if self.focus_secured(p, Ghost(canonical)) {
                    (2, 1, Vec::new())
                } else {
                    (1, 1, Vec::new())
                }
            },
            LineKind::Ignition => {
                if signal.kind == HGroupMoveKind::UnnecessaryIgnition {
                    let extra = self.pushed_by(p);
                    (n + extra, n + extra, Vec::new())
                } else {
                    (n, n, Vec::new())
                }
            },
        }
    }

    /// The secured action count, blind-play depth and, for a Bluff or a
    /// Clandestine Finesse, the cards of the canonical named line, with
    /// `canonical` as the clue's canonical kind. Different observers can
    /// retain provisional alternatives for the same clue: an ignition takes
    /// precedence over an ejection, an ejection over a canonical Bluff, a
    /// Bluff over the giver's Clandestine Finesse, and that over a layered
    /// Finesse; within each, the last signal read wins.
    pub fn compile_named_line_metrics(&self, canonical: Option<HGroupMoveKind>) -> (r: Option<NamedLineEvidence>)
        requires
            sizes_fit(line_views(self.lines@), self.turn),
        ensures
            match r {
                Some(n) => spec_named_line(self.context(canonical)) == Some(named_view(n)),
                None => spec_named_line(self.context(canonical)) is None,
            },
    {
        let ghost ctx = self.context(canonical);
        let ghost lv = line_views(self.lines@);
        let mut ignition: Option<(usize, usize, Vec<CardId>)> = None;
        let mut ejection: Option<(usize, usize, Vec<CardId>)> = None;
        let mut bluff: Option<(usize, usize, Vec<CardId>)> = None;
        let mut clandestine: Option<(usize, usize, Vec<CardId>)> = None;
        let mut layered: Option<(usize, usize, Vec<CardId>)> = None;
        let mut p: usize = 0;
        while p < self.lines.len()
            invariant
                ctx == self.context(canonical),
                lv == line_views(self.lines@),
                lv == ctx.lines,
                sizes_fit(lv, self.turn),
                p <= self.lines@.len(),
                value_view(ignition) == latest_value(ctx, entries(lv, p as int), LineKind::Ignition),
                value_view(ejection) == latest_value(ctx, entries(lv, p as int), LineKind::Ejection),
                value_view(bluff) == latest_value(ctx, entries(lv, p as int), LineKind::Bluff),
                value_view(clandestine) == latest_value(ctx, entries(lv, p as int), LineKind::Clandestine),
                value_view(layered) == latest_value(ctx, entries(lv, p as int), LineKind::Layered),
            decreases self.lines@.len() - p,
        {
            let signals = &self.lines[p].signals;
            assert(lv[p as int] == self.lines@[p as int]@);
            assert(lv[p as int].signals == history_views(signals@));
            proof {
                assert(prefix_entries(lv, p as int, 0) =~= entries(lv, p as int));
            }
            let mut k: usize = 0;
            while k < signals.len()
                invariant
                    ctx == self.context(canonical),
                    lv == line_views(self.lines@),
                    lv == ctx.lines,
                    sizes_fit(lv, self.turn),
                    p < self.lines@.len(),
                    signals@ == self.lines@[p as int].signals@,
                    lv[p as int].signals == history_views(signals@),
                    k <= signals@.len(),
                    value_view(ignition) == latest_value(ctx, prefix_entries(lv, p as int, k as int), LineKind::Ignition),
                    value_view(ejection) == latest_value(ctx, prefix_entries(lv, p as int, k as int), LineKind::Ejection),
                    value_view(bluff) == latest_value(ctx, prefix_entries(lv, p as int, k as int), LineKind::Bluff),
                    value_view(clandestine) == latest_value(
                        ctx,
                        prefix_entries(lv, p as int, k as int),
                        LineKind::Clandestine,
                    ),
                    value_view(layered) == latest_value(ctx, prefix_entries(lv, p as int, k as int), LineKind::Layered),
                decreases signals@.len() - k,
            {
                let signal = &signals[k];
                let ghost e = (p as int, signal@);
                proof {
                    assert(lv[p as int].signals[k as int] == signal@);
                    assert(prefix_entries(lv, p as int, (k + 1) as int) =~= prefix_entries(lv, p as int, k as int).push(e));
                    lemma_latest_push(ctx, prefix_entries(lv, p as int, k as int), e, LineKind::Ignition);
                    lemma_latest_push(ctx, prefix_entries(lv, p as int, k as int), e, LineKind::Ejection);
                    lemma_latest_push(ctx, prefix_entries(lv, p as int, k as int), e, LineKind::Bluff);
                    lemma_latest_push(ctx, prefix_entries(lv, p as int, k as int), e, LineKind::Clandestine);
                    lemma_latest_push(ctx, prefix_entries(lv, p as int, k as int), e, LineKind::Layered);
                }
                match self.kind_of(canonical, p, signal) {
                    Some(kind) => {
                        let value = self.contribution_of(canonical, p, signal, kind);
                        match kind {
                            LineKind::Ignition => {
                                ignition = Some(value);
                            },
                            LineKind::Ejection => {
                                ejection = Some(value);
                            },
                            LineKind::Bluff => {
                                bluff = Some(value);
                            },
                            LineKind::Clandestine => {
                                clandestine = Some(value);
                            },
                            LineKind::Layered => {
                                layered = Some(value);
                            },
                        }
                    },
                    None => {},
                }
                k = k + 1;
            }
            proof {
                assert(prefix_entries(lv, p as int, k as int) =~= entries(lv, (p + 1) as int));
            }
            p = p + 1;
        }
        match ignition {
            Some(v) => Some(NamedLineEvidence { secured_actions: v.0, connection_steps: v.1, playable_cards: None }),
            None => match ejection {
                Some(v) => Some(NamedLineEvidence { secured_actions: v.0, connection_steps: v.1, playable_cards: None }),
                None => match bluff {
                    Some(v) => Some(NamedLineEvidence { secured_actions: v.0, connection_steps: v.1, playable_cards: Some(v.2) }),
                    None => match clandestine {
                        Some(v) => Some(
                            NamedLineEvidence { secured_actions: v.0, connection_steps: v.1, playable_cards: Some(v.2) },
                        ),
                        None => match layered {
                            Some(v) => Some(
                                NamedLineEvidence { secured_actions: v.0, connection_steps: v.1, playable_cards: None },
                            ),
                            None => None,
                        },
                    },
                },
            },
        }
    }
}

/// Ignition signals, including the Unnecessary Moves they push.
pub open spec fn spec_ignition_signal(kind: HGroupMoveKind) -> bool {
    kind == HGroupMoveKind::ReplayDoubleIgnition || kind == HGroupMoveKind::UnnecessaryIgnition || kind
        == HGroupMoveKind::UnnecessaryMove || spec_plain_ignition(kind)
}

/// The cards the ignition signals recorded at `turn` among the first `n`
/// signals name, in order.
pub open spec fn ignition_cards_upto(signals: Seq<SignalView>, turn: u32, n: int) -> Seq<CardId>
    decreases n,
{
    if n <= 0 || n > signals.len() {
        Seq::empty()
    } else {
        ignition_cards_upto(signals, turn, n - 1) + if signals[n - 1].turn == turn && spec_ignition_signal(
            signals[n - 1].kind,
        ) {
            signals[n - 1].cards
        } else {
            Seq::empty()
        }
    }
}

/// Whether a 4 Charm was recorded at `turn`.
pub open spec fn charm_at(signals: Seq<SignalView>, turn: u32) -> bool {
    exists|k: int| 0 <= k < signals.len() && (#[trigger] signals[k]).turn == turn && signals[k].kind == HGroupMoveKind::Charm
}

/// The seats among the first `n` whose projection recorded a 4 Charm at
/// `turn`, in seat order.
pub open spec fn charm_seats_upto(lines: Seq<LineView>, turn: u32, n: int) -> Seq<PlayerId>
    decreases n,
{
    if n <= 0 || n > lines.len() {
        Seq::empty()
    } else if charm_at(lines[n - 1].signals, turn) {
        charm_seats_upto(lines, turn, n - 1).push(PlayerId { seat: (n - 1) as u8 })
    } else {
        charm_seats_upto(lines, turn, n - 1)
    }
}

/// A positional Bluff or ejection aimed at `reactor` with its touched cards.
pub open spec fn anchors(s: SignalView, turn: u32, reactor: PlayerId) -> bool {
    &&& s.turn == turn
    &&& s.target == Some(reactor)
    &&& (s.kind == HGroupMoveKind::Bluff || s.kind == HGroupMoveKind::FiveColorEjection || s.kind
        == HGroupMoveKind::StackedEjection)
    &&& s.cards.len() >= 2
}

/// The first card of the first anchoring signal at or after `k`.
pub open spec fn anchor_from(signals: Seq<SignalView>, turn: u32, reactor: PlayerId, k: int) -> Option<CardId>
    decreases signals.len() - k,
{
    if k < 0 || k >= signals.len() {
        None
    } else if anchors(signals[k], turn, reactor) {
        Some(signals[k].cards[0])
    } else {
        anchor_from(signals, turn, reactor, k + 1)
    }
}

/// Interpretation evidence belonging to one clue and its giver: the named
/// line, the cards ignitions name, the focus of a 4 Charm, the other
/// observers that read a Charm where the giver did not, and the first card
/// of a positional Bluff or ejection aimed at the next player.
#[derive(Clone, Debug)]
pub struct CompiledLineEvidence {
    pub observer: PlayerId,
    pub named: Option<NamedLineEvidence>,
    pub ignition_cards: Vec<CardId>,
    pub charm_focus: Option<CardId>,
    pub conflicting_observers: Vec<PlayerId>,
    pub positional_anchor: Option<CardId>,
}

impl LineInputs {
    fn ignition_cards(&self) -> (v: Vec<CardId>)
        requires
            self.observer.seat < self.lines@.len(),
        ensures
            v@ == ignition_cards_upto(
                line_views(self.lines@)[self.observer.seat as int].signals,
                self.turn,
                line_views(self.lines@)[self.observer.seat as int].signals.len() as int,
            ),
    {
        let signals = &self.lines[self.observer.index()].signals;
        let ghost sv = line_views(self.lines@)[self.observer.seat as int].signals;
        assert(sv == history_views(signals@));
        let mut v: Vec<CardId> = Vec::new();
        let mut k: usize = 0;
        while k < signals.len()
            invariant
                sv == history_views(signals@),
                k <= signals@.len(),
                v@ == ignition_cards_upto(sv, self.turn, k as int),
            decreases signals@.len() - k,
        {
            let signal = &signals[k];
            assert(sv[k as int] == signal@);
            if signal.turn == self.turn && (signal.kind == HGroupMoveKind::ReplayDoubleIgnition || signal.kind
                == HGroupMoveKind::UnnecessaryIgnition || signal.kind == HGroupMoveKind::UnnecessaryMove
                || is_plain_ignition(signal.kind)) {
                let mut j: usize = 0;
                let ghost start = v@;
                while j < signal.cards.len()
                    invariant
                        j <= signal.cards@.len(),
                        v@ == start + signal.cards@.take(j as int),
                    decreases signal.cards@.len() - j,
                {
                    v.push(signal.cards[j]);
                    j = j + 1;
                    proof {
                        assert(v@ =~= start + signal.cards@.take(j as int));
                    }
                }
                proof {
                    assert(signal.cards@.take(j as int) =~= signal.cards@);
                }
            } else {
                proof {
                    assert(v@ =~= v@ + Seq::<CardId>::empty());
                }
            }
            k = k + 1;
        }
        v
    }

    fn charm_recorded(&self, p: usize) -> (b: bool)
        requires
            p < self.lines@.len(),
        ensures
            b == charm_at(line_views(self.lines@)[p as int].signals, self.turn),
    {
        let signals = &self.lines[p].signals;
        let ghost sv = line_views(self.lines@)[p as int].signals;
        assert(sv == history_views(signals@));
        let mut k: usize = 0;
        while k < signals.len()
            invariant
                p < self.lines@.len(),
                sv == line_views(self.lines@)[p as int].signals,
                sv == history_views(signals@),
                k <= signals@.len(),
                forall|m: int| 0 <= m < k ==> !((#[trigger] sv[m]).turn == self.turn && sv[m].kind == HGroupMoveKind::Charm),
            decreases signals@.len() - k,
        {
            assert(sv[k as int] == signals@[k as int]@);
            if signals[k].turn == self.turn && signals[k].kind == HGroupMoveKind::Charm {
                return true;
            }
            k = k + 1;
        }
        false
    }

    fn last_clue_focus(&self) -> (r: Option<CardId>)
        requires
            self.observer.seat < self.lines@.len(),
        ensures
            r == match last_clue_upto(
                line_views(self.lines@)[self.observer.seat as int].clues,
                self.turn,
                line_views(self.lines@)[self.observer.seat as int].clues.len() as int,
            ) {
                Some(c) => Some(c.focus),
                None => None,
            },
    {
        let clues = &self.lines[self.observer.index()].clues;
        let ghost cv = line_views(self.lines@)[self.observer.seat as int].clues;
        assert(cv == clues@.map_values(|c: ClueRecord| c@));
        let mut n: usize = clues.len();
        while n > 0
            invariant
                self.observer.seat < self.lines@.len(),
                cv == line_views(self.lines@)[self.observer.seat as int].clues,
                cv == clues@.map_values(|c: ClueRecord| c@),
                n <= clues@.len(),
                last_clue_upto(cv, self.turn, cv.len() as int) == last_clue_upto(cv, self.turn, n as int),
            decreases n,
        {
            assert(cv[n - 1] == clues@[n - 1]@);
            if clues[n - 1].turn == self.turn {
                return Some(clues[n - 1].focus);
            }
            n = n - 1;
        }
        None
    }

    fn anchor(&self, reactor: PlayerId) -> (r: Option<CardId>)
        requires
            self.observer.seat < self.lines@.len(),
        ensures
            r == anchor_from(line_views(self.lines@)[self.observer.seat as int].signals, self.turn, reactor, 0),
    {
        let signals = &self.lines[self.observer.index()].signals;
        let ghost sv = line_views(self.lines@)[self.observer.seat as int].signals;
        assert(sv == history_views(signals@));
        let mut k: usize = 0;
        while k < signals.len()
            invariant
                self.observer.seat < self.lines@.len(),
                sv == line_views(self.lines@)[self.observer.seat as int].signals,
                sv == history_views(signals@),
                k <= signals@.len(),
                anchor_from(sv, self.turn, reactor, 0) == anchor_from(sv, self.turn, reactor, k as int),
            decreases signals@.len() - k,
        {
            let signal = &signals[k];
            assert(sv[k as int] == signal@);
            if signal.turn == self.turn && signal.target == Some(reactor) && (signal.kind == HGroupMoveKind::Bluff
                || signal.kind == HGroupMoveKind::FiveColorEjection || signal.kind == HGroupMoveKind::StackedEjection)
                && signal.cards.len() >= 2 {
                return Some(signal.cards[0]);
            }
            k = k + 1;
        }
        None
    }

    /// Compiles the interpretation evidence of the clue for its giver,
    /// `self.observer`, whose turn it is `current_player`'s. `None` when the
    /// giver has no record.
    pub fn compile(&self, canonical: Option<HGroupMoveKind>, current_player: PlayerId) -> (r: Option<CompiledLineEvidence>)
        requires
            sizes_fit(line_views(self.lines@), self.turn),
            self.lines@.len() <= 256,
        ensures
            (self.observer.seat >= self.lines@.len()) == r is None,
            r matches Some(e) ==> ({
                let lv = line_views(self.lines@);
                let giver = lv[self.observer.seat as int];
                let charm_focus = if charm_at(giver.signals, self.turn) {
                    match last_clue_upto(giver.clues, self.turn, giver.clues.len() as int) {
                        Some(c) => Some(c.focus),
                        None => None,
                    }
                } else {
                    None
                };
                let reactor = PlayerId { seat: ((current_player.seat + 1) % (lv.len() as int)) as u8 };
                &&& e.observer == self.observer
                &&& match e.named {
                    Some(n) => spec_named_line(self.context(canonical)) == Some(named_view(n)),
                    None => spec_named_line(self.context(canonical)) is None,
                }
                &&& e.ignition_cards@ == ignition_cards_upto(giver.signals, self.turn, giver.signals.len() as int)
                &&& e.charm_focus == charm_focus
                &&& e.conflicting_observers@ == if charm_focus is None {
                    charm_seats_upto(lv, self.turn, lv.len() as int)
                } else {
                    Seq::empty()
                }
                &&& e.positional_anchor == anchor_from(giver.signals, self.turn, reactor, 0)
            }),
    {
        if self.observer.index() >= self.lines.len() {
            return None;
        }
        let named = self.compile_named_line_metrics(canonical);
        let ignition_cards = self.ignition_cards();
        let charm_focus = if self.charm_recorded(self.observer.index()) {
            self.last_clue_focus()
        } else {
            None
        };
        let mut conflicting_observers: Vec<PlayerId> = Vec::new();
        if charm_focus.is_none() {
            let mut p: usize = 0;
            while p < self.lines.len()
                invariant
                    self.lines@.len() <= 256,
                    p <= self.lines@.len(),
                    conflicting_observers@ == charm_seats_upto(line_views(self.lines@), self.turn, p as int),
                decreases self.lines@.len() - p,
            {
                if self.charm_recorded(p) {
                    conflicting_observers.push(PlayerId::new(p as u8));
                }
                p = p + 1;
            }
        }
        let players = self.lines.len();
        let reactor = PlayerId::new(((current_player.index() + 1) % players) as u8);
        let positional_anchor = self.anchor(reactor);
        Some(
            CompiledLineEvidence {
                observer: self.observer,
                named,
                ignition_cards,
                charm_focus,
                conflicting_observers,
                positional_anchor,
            },
        )
    }
}

} // verus!
