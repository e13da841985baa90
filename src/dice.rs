//! Dice rolls and the resources the tiles yield.
use vstd::prelude::*;
use crate::board::{DoubleDiceRoll, GameBoard};
use crate::game::{lemma_total_held_bounds, lemma_total_held_update, total_held, Game, GameError};
use crate::hexagon::TileType;
use crate::locations::{DiceChipLocation, SettlementLocationId, SettlementType};
use crate::settlement_map::SettlementMap;
use crate::player::PlayerId;
use crate::resources::ResourceKind;
use crate::player::Player;
use crate::resources::ResourceCollection;
use crate::state_machine::StateId;

verus! {

/// The number the dice show that calls the robber.
pub const ROBBER_NUMBER: u8 = 7;

/// The units in all of `s` together.
pub open spec fn sum_totals(s: Seq<ResourceCollection>) -> nat
    decreases s.len(),
{
    if s.len() == 0 {
        0
    } else {
        s[0].total() + sum_totals(s.drop_first())
    }
}

proof fn lemma_sum_totals_update(s: Seq<ResourceCollection>, i: int, x: ResourceCollection)
    requires
        0 <= i < s.len(),
    ensures
        sum_totals(s.update(i, x)) + s[i].total() == sum_totals(s) + x.total(),
        s[i].total() <= sum_totals(s),
    decreases s.len(),
{
    if i == 0 {
        assert(s.update(i, x).drop_first() =~= s.drop_first());
    } else {
        assert(s.update(i, x).drop_first() =~= s.drop_first().update(i - 1, x));
        lemma_sum_totals_update(s.drop_first(), i - 1, x);
    }
}

proof fn lemma_sum_totals_split(s: Seq<ResourceCollection>, i: int)
    requires
        0 <= i < s.len(),
    ensures
        sum_totals(s.subrange(i, s.len() as int)) == s[i].total() + sum_totals(
            s.subrange(i + 1, s.len() as int),
        ),
{
    assert(s.subrange(i, s.len() as int).drop_first() =~= s.subrange(i + 1, s.len() as int));
}

proof fn lemma_sum_totals_zero(n: nat)
    ensures
        sum_totals(Seq::new(n, |k: int| ResourceCollection::empty_spec())) == 0,
    decreases n,
{
    if n > 0 {
        assert(Seq::new(n, |k: int| ResourceCollection::empty_spec()).drop_first() =~= Seq::new(
            (n - 1) as nat,
            |k: int| ResourceCollection::empty_spec(),
        ));
        lemma_sum_totals_zero((n - 1) as nat);
    }
}

proof fn lemma_total_held_prefix(s: Seq<Player>, i: int)
    requires
        0 <= i <= s.len(),
    ensures
        total_held(s.subrange(0, i)) <= total_held(s),
    decreases s.len(),
{
    if i < s.len() {
        assert(s.drop_last().subrange(0, i) =~= s.subrange(0, i));
        lemma_total_held_prefix(s.drop_last(), i);
    } else {
        assert(s.subrange(0, i) =~= s);
    }
}

/// What a building of tier `t` yields.
pub open spec fn building_yield(t: SettlementType) -> nat {
    match t {
        SettlementType::Village => 1,
        SettlementType::City => 2,
    }
}

/// What corner `id` of `m` yields to `player_id`: its building's yield where the player
/// holds it, else nothing.
pub open spec fn corner_yield(m: SettlementMap, id: SettlementLocationId, player_id: PlayerId) -> nat {
    if m.holds_corner(id, player_id) {
        let i = choose|i: int|
            0 <= i < m.corners().len() && #[trigger] m.corners()[i].id == id
                && m.corners()[i].owned_by(player_id);
        building_yield(m.corners()[i].settlement->Some_0.settlement_type)
    } else {
        0
    }
}

/// What the corners `ids` of `m` yield to `player_id` together.
pub open spec fn corners_yield(m: SettlementMap, ids: Seq<SettlementLocationId>, player_id: PlayerId) -> nat
    decreases ids.len(),
{
    if ids.len() == 0 {
        0
    } else {
        corners_yield(m, ids.drop_last(), player_id) + corner_yield(m, ids.last(), player_id)
    }
}

/// What chip `c` yields to `player_id` in `kind` when `number` is rolled: the yield of
/// its tile's corners, where the chip shows `number`, the robber is elsewhere and the
/// tile produces `kind`.
pub open spec fn chip_yield(
    b: GameBoard,
    c: DiceChipLocation,
    number: u8,
    player_id: PlayerId,
    kind: ResourceKind,
) -> nat {
    if c.dice_value == number && c.assigned_tile != b.robber.assigned_tile && b.tile_map.has_tile(
        c.assigned_tile,
    ) && b.tile_at(c.assigned_tile).tile_type == TileType::ResourceTile(kind) {
        corners_yield(b.settlement_map, b.tile_at(c.assigned_tile).corner_settlements@, player_id)
    } else {
        0
    }
}

/// What corner `id` of `m` yields to its holder, if it is occupied.
pub open spec fn corner_units(m: SettlementMap, id: SettlementLocationId) -> nat {
    if m.occupied(id) {
        let i = choose|i: int|
            0 <= i < m.corners().len() && #[trigger] m.corners()[i].id == id
                && m.corners()[i].settlement is Some;
        building_yield(m.corners()[i].settlement->Some_0.settlement_type)
    } else {
        0
    }
}

/// What the corners `ids` of `m` yield to all holders together.
pub open spec fn corners_units(m: SettlementMap, ids: Seq<SettlementLocationId>) -> nat
    decreases ids.len(),
{
    if ids.len() == 0 {
        0
    } else {
        corners_units(m, ids.drop_last()) + corner_units(m, ids.last())
    }
}

/// What chip `c` yields to all players together when `number` is rolled.
pub open spec fn chip_units(b: GameBoard, c: DiceChipLocation, number: u8) -> nat {
    if c.dice_value == number && c.assigned_tile != b.robber.assigned_tile && b.tile_map.has_tile(
        c.assigned_tile,
    ) && b.tile_at(c.assigned_tile).tile_type is ResourceTile {
        corners_units(b.settlement_map, b.tile_at(c.assigned_tile).corner_settlements@)
    } else {
        0
    }
}

/// What the chips `chips` yield to all players together when `number` is rolled.
pub open spec fn roll_units(b: GameBoard, chips: Seq<DiceChipLocation>, number: u8) -> nat
    decreases chips.len(),
{
    if chips.len() == 0 {
        0
    } else {
        roll_units(b, chips.drop_last(), number) + chip_units(b, chips.last(), number)
    }
}

proof fn lemma_corners_units_prefix(m: SettlementMap, ids: Seq<SettlementLocationId>, c: int)
    requires
        0 <= c <= ids.len(),
    ensures
        corners_units(m, ids.subrange(0, c)) <= corners_units(m, ids),
    decreases ids.len(),
{
    if c < ids.len() {
        assert(ids.drop_last().subrange(0, c) =~= ids.subrange(0, c));
        lemma_corners_units_prefix(m, ids.drop_last(), c);
    } else {
        assert(ids.subrange(0, c) =~= ids);
    }
}

proof fn lemma_roll_units_prefix(b: GameBoard, chips: Seq<DiceChipLocation>, number: u8, t: int)
    requires
        0 <= t <= chips.len(),
    ensures
        roll_units(b, chips.subrange(0, t), number) <= roll_units(b, chips, number),
    decreases chips.len(),
{
    if t < chips.len() {
        assert(chips.drop_last().subrange(0, t) =~= chips.subrange(0, t));
        lemma_roll_units_prefix(b, chips.drop_last(), number, t);
    } else {
        assert(chips.subrange(0, t) =~= chips);
    }
}

/// What the chips `chips` yield to `player_id` in `kind` when `number` is rolled.
pub open spec fn roll_yield(
    b: GameBoard,
    chips: Seq<DiceChipLocation>,
    number: u8,
    player_id: PlayerId,
    kind: ResourceKind,
) -> nat
    decreases chips.len(),
{
    if chips.len() == 0 {
        0
    } else {
        roll_yield(b, chips.drop_last(), number, player_id, kind) + chip_yield(
            b,
            chips.last(),
            number,
            player_id,
            kind,
        )
    }
}

impl Game {
    /// `next` differs from `self` at most in that ledgers grew.
    pub open spec fn only_gained(self, next: Game) -> bool {
        &&& next.players@.len() == self.players@.len()
        &&& forall|j: int|
            0 <= j < self.players@.len() ==> (#[trigger] next.players@[j]).id == self.players@[j].id
                && next.players@[j].development_cards == self.players@[j].development_cards
                && next.held(j).covers(self.held(j))
    }

    /// The units held by all players together.
    pub fn total_resources(&self) -> (t: usize)
        requires
            self.wf(),
        ensures
            t == total_held(self.players@),
    {
        let mut t: usize = 0;
        let mut i: usize = 0;
        while i < self.players.len()
            invariant
                self.wf(),
                i <= self.players@.len(),
                t == total_held(self.players@.subrange(0, i as int)),
            decreases self.players.len() - i,
        {
            proof {
                assert(self.players@.subrange(0, i + 1).drop_last() =~= self.players@.subrange(0, i as int));
                lemma_total_held_prefix(self.players@, i + 1);
            }
            t = t + self.players[i].resources.get_total_resources();
            i = i + 1;
        }
        assert(self.players@.subrange(0, self.players@.len() as int) =~= self.players@);
        t
    }

    /// Hands out what the tiles showing `number` yield: one unit of the tile's kind per
    /// village and two per city on its corners, except on the robber's tile. Changes
    /// nothing and fails where a corner is unknown, its owner is not a player, or the
    /// ledgers would overflow.
    pub fn add_resources(&mut self, number: u8) -> (r: Result<(), GameError>)
        requires
            old(self).wf(),
        ensures
            final(self).wf(),
            r is Err ==> r == Err::<(), GameError>(GameError::ActionFailed) && *final(self) == *old(self),
            r is Err ==> total_held(old(self).players@) + roll_units(
                old(self).board,
                old(self).board.dice_chips@,
                number,
            ) > usize::MAX,
            r is Ok ==> old(self).only_gained(*final(self)),
            r is Ok ==> total_held(old(self).players@) + roll_units(
                old(self).board,
                old(self).board.dice_chips@,
                number,
            ) <= usize::MAX,
            r is Ok ==> forall|p: int, kind: ResourceKind|
                0 <= p < old(self).players@.len() ==> #[trigger] final(self).held(p).count(kind)
                    == old(self).held(p).count(kind) + roll_yield(
                    old(self).board,
                    old(self).board.dice_chips@,
                    number,
                    p as usize,
                    kind,
                ),
            final(self).board == old(self).board,
            final(self).state_machine == old(self).state_machine,
            final(self).current_player_index == old(self).current_player_index,
            final(self).active_trade_offer == old(self).active_trade_offer,
    {
        let n = self.players.len();
        let held_now = self.total_resources();
        let mut gains: Vec<ResourceCollection> = Vec::new();
        let mut k: usize = 0;
        while k < n
            invariant
                k <= n,
                gains@ == Seq::new(k as nat, |m: int| ResourceCollection::empty_spec()),
            decreases n - k,
        {
            gains.push(ResourceCollection::empty());
            proof {
                assert(gains@ =~= Seq::new((k + 1) as nat, |m: int| ResourceCollection::empty_spec()));
            }
            k = k + 1;
        }
        proof {
            lemma_sum_totals_zero(n as nat);
            reveal_with_fuel(roll_yield, 1);
        }
        let mut extra: usize = 0;
        let chips = &self.board.dice_chips;
        let mut t: usize = 0;
        while t < chips.len()
            invariant
                self.wf(),
                n == self.players@.len(),
                chips@ == self.board.dice_chips@,
                t <= chips@.len(),
                held_now == total_held(self.players@),
                gains@.len() == n,
                extra == sum_totals(gains@),
                held_now + extra <= usize::MAX,
                extra == roll_units(self.board, chips@.subrange(0, t as int), number),
                forall|p: int, kind: ResourceKind|
                    0 <= p < n ==> #[trigger] gains@[p].count(kind) == roll_yield(
                        self.board,
                        chips@.subrange(0, t as int),
                        number,
                        p as usize,
                        kind,
                    ),
            decreases chips.len() - t,
        {
            let chip = chips[t];
            let ghost prefix = chips@.subrange(0, t as int);
            let ghost gains_at_chip = gains@;
            let ghost extra_at_chip = extra;
            proof {
                lemma_roll_units_prefix(self.board, chips@, number, t + 1);
            }
            proof {
                assert(chips@.subrange(0, t + 1).drop_last() =~= prefix);
                assert(chips@.subrange(0, t + 1).last() == chip);
            }
            let tile_index = if chip.dice_value != number || chip.assigned_tile == self.board.robber.assigned_tile {
                None
            } else {
                self.board.tile_map.find_tile(&chip.assigned_tile)
            };
            let kind_and_tile = match tile_index {
                None => None,
                Some(ti) => match self.board.tile_map.get_tiles()[ti].tile_type {
                    TileType::ResourceTile(kind) => Some((kind, ti)),
                    TileType::FillerTile => None,
                },
            };
            proof {
                if let Some(ti) = tile_index {
                    self.board.lemma_tile_at(chip.assigned_tile, ti as int);
                }
            }
            match kind_and_tile {
                None => {
                    proof {
                        assert forall|p: int, kind: ResourceKind| 0 <= p < n implies #[trigger] gains@[p].count(kind)
                            == roll_yield(self.board, chips@.subrange(0, t + 1), number, p as usize, kind) by {
                            assert(chip_yield(self.board, chip, number, p as usize, kind) == 0);
                        }
                        assert(chip_units(self.board, chip, number) == 0);
                    }
                },
                Some((kind, ti)) => {
                    let corners = &self.board.tile_map.get_tiles()[ti].corner_settlements;
                    let ghost ids = corners@;
                    let mut c: usize = 0;
                    while c < corners.len()
                        invariant
                            self.wf(),
                            n == self.players@.len(),
                            chips@ == self.board.dice_chips@,
                            held_now == total_held(self.players@),
                            gains@.len() == n,
                            extra == sum_totals(gains@),
                            held_now + extra <= usize::MAX,
                            c <= ids.len(),
                            ids == corners@,
                            ids == self.board.tile_map.tile_list()[ti as int].corner_settlements@,
                            ti < self.board.tile_map.tile_list().len(),
                            extra == extra_at_chip + corners_units(self.board.settlement_map, ids.subrange(0, c as int)),
                            extra_at_chip == roll_units(self.board, prefix, number),
                            roll_units(self.board, prefix, number) + corners_units(self.board.settlement_map, ids)
                                <= roll_units(self.board, chips@, number),
                            forall|p: int, k2: ResourceKind|
                                0 <= p < n ==> #[trigger] gains@[p].count(k2) == gains_at_chip[p].count(k2)
                                    + if k2 == kind {
                                    corners_yield(
                                        self.board.settlement_map,
                                        ids.subrange(0, c as int),
                                        p as usize,
                                    )
                                } else {
                                    0
                                },
                        decreases corners.len() - c,
                    {
                        let id = corners[c];
                        proof {
                            assert(ids.subrange(0, c + 1).drop_last() =~= ids.subrange(0, c as int));
                            assert(ids.subrange(0, c + 1).last() == id);
                        }
                        let si = match self.board.settlement_map.find_settlement(&id) {
                            None => {
                                assert(self.board.settlement_map.has_corner(
                                    self.board.tile_map.tile_list()[ti as int].corner_settlements@[c as int],
                                ));
                                assert(false);
                                return Err(GameError::ActionFailed);
                            },
                            Some(si) => si,
                        };
                        let building = self.board.settlement_map.get_settlements()[si].settlement;
                        proof {
                            self.board.settlement_map.lemma_corner_yield(id, si as int);
                            self.board.settlement_map.lemma_corner_units(id, si as int);
                            lemma_corners_units_prefix(self.board.settlement_map, ids, c + 1);
                        }
                        match building {
                            None => {},
                            Some(b) => {
                                let factor: usize = match b.settlement_type {
                                    SettlementType::Village => 1,
                                    SettlementType::City => 2,
                                };
                                let owner = b.player_id;
                                if owner >= n {
                                    assert(self.board.settlement_map.corners()[si as int].settlement is Some);
                                    assert(false);
                                    return Err(GameError::ActionFailed);
                                }
                                if factor > usize::MAX - held_now - extra {
                                    return Err(GameError::ActionFailed);
                                }
                                let current = gains[owner];
                                proof {
                                    lemma_sum_totals_update(gains@, owner as int, current);
                                }
                                let updated = current.set_count(kind, current.get(kind) + factor);
                                proof {
                                    lemma_sum_totals_update(gains@, owner as int, updated);
                                }
                                let ghost before = gains@;
                                gains.set(owner, updated);
                                extra = extra + factor;
                                proof {
                                    assert forall|p: int, k2: ResourceKind| 0 <= p < n implies #[trigger] gains@[p].count(k2)
                                        == gains_at_chip[p].count(k2) + if k2 == kind {
                                        corners_yield(self.board.settlement_map, ids.subrange(0, c + 1), p as usize)
                                    } else {
                                        0
                                    } by {
                                        assert(before[p].count(k2) == gains_at_chip[p].count(k2) + if k2 == kind {
                                            corners_yield(self.board.settlement_map, ids.subrange(0, c as int), p as usize)
                                        } else {
                                            0
                                        });
                                        if p != owner {
                                            assert(gains@[p] == before[p]);
                                        }
                                    }
                                }
                            },
                        }
                        c = c + 1;
                    }
                    proof {
                        assert(ids.subrange(0, ids.len() as int) =~= ids);
                        assert forall|p: int, k2: ResourceKind| 0 <= p < n implies #[trigger] gains@[p].count(k2)
                            == roll_yield(self.board, chips@.subrange(0, t + 1), number, p as usize, k2) by {
                            assert(gains_at_chip[p].count(k2) == roll_yield(self.board, prefix, number, p as usize, k2));
                        }
                    }
                },
            }
            t = t + 1;
        }
        proof {
            assert(chips@.subrange(0, chips@.len() as int) =~= chips@);
        }
        let ghost start = *self;
        assert(gains@.subrange(0, n as int) =~= gains@);
        let mut i: usize = 0;
        while i < n
            invariant
                i <= n,
                n == self.players@.len(),
                gains@.len() == n,
                self.board == start.board,
                self.state_machine == start.state_machine,
                self.current_player_index == start.current_player_index,
                self.active_trade_offer == start.active_trade_offer,
                self.settings == start.settings,
                start.wf(),
                forall|j: int|
                    0 <= j < n ==> (#[trigger] self.players@[j]).id == j
                        && self.players@[j].resources.wf() && self.players@[j].development_cards
                        == start.players@[j].development_cards && self.held(j).covers(start.held(j)),
                forall|j: int, kind: ResourceKind|
                    0 <= j < i ==> #[trigger] self.held(j).count(kind) == start.held(j).count(kind)
                        + gains@[j].count(kind),
                forall|j: int| i <= j < n ==> #[trigger] self.held(j) == start.held(j),
                total_held(self.players@) + sum_totals(gains@.subrange(i as int, n as int))
                    <= usize::MAX,
            decreases n - i,
        {
            let mut p = self.players[i];
            proof {
                lemma_sum_totals_split(gains@, i as int);
                lemma_total_held_bounds(self.players@, i as int);
            }
            let ghost old_held = p.resources@;
            p.resources.add_resources(gains[i]);
            proof {
                lemma_total_held_update(self.players@, i as int, p);
                assert forall|kind: ResourceKind| #[trigger] p.resources@.count(kind) == old_held.count(kind)
                    + gains@[i as int].count(kind) by {}
            }
            self.players.set(i, p);
            i = i + 1;
        }
        proof {
            assert(total_held(self.players@) <= usize::MAX);
            assert forall|p: int, kind: ResourceKind|
                0 <= p < old(self).players@.len() implies #[trigger] self.held(p).count(kind)
                    == old(self).held(p).count(kind) + roll_yield(
                    old(self).board,
                    old(self).board.dice_chips@,
                    number,
                    p as usize,
                    kind,
                ) by {
                assert(gains@[p].count(kind) == roll_yield(
                    start.board,
                    start.board.dice_chips@,
                    number,
                    p as usize,
                    kind,
                ));
            }
        }
        Ok(())
    }


    /// The outcome of acting on `roll`: a 7 calls the robber (discards first where some
    /// player is over the hand limit); any other number hands out exactly what the tiles
    /// yield and, where the ledgers can take it, opens the main phase.
    pub open spec fn roll_outcome(self, next: Game, roll: DoubleDiceRoll, r: Result<(), GameError>) -> bool {
        let number = (roll.dice_a + roll.dice_b) as u8;
        let fits = total_held(self.players@) + roll_units(self.board, self.board.dice_chips@, number)
            <= usize::MAX;
        &&& next.board == self.board
        &&& next.current_player_index == self.current_player_index
        &&& next.active_trade_offer == self.active_trade_offer
        &&& r is Err ==> r == Err::<(), GameError>(GameError::ActionFailed)
        &&& r is Ok ==> self.only_gained(next)
        &&& roll.dice_a + roll.dice_b == ROBBER_NUMBER ==> {
            &&& next.players == self.players
            &&& self.state_machine.transition_outcome(
                next.state_machine,
                if self.over_limit() {
                    StateId::RobberRemoveCards
                } else {
                    StateId::RobberRelocate
                },
                r is Ok,
            )
        }
        &&& roll.dice_a + roll.dice_b != ROBBER_NUMBER && !fits ==> r is Err && next == self
        &&& roll.dice_a + roll.dice_b != ROBBER_NUMBER && fits ==> {
            &&& self.only_gained(next)
            &&& forall|p: int, kind: ResourceKind|
                0 <= p < self.players@.len() ==> #[trigger] next.held(p).count(kind)
                    == self.held(p).count(kind) + roll_yield(
                    self.board,
                    self.board.dice_chips@,
                    number,
                    p as usize,
                    kind,
                )
            &&& self.state_machine.transition_outcome(
                next.state_machine,
                StateId::SelectAction,
                r is Ok,
            )
        }
    }
    /// Acts on a roll: a 7 calls the robber (first making over-limit players discard);
    /// any other number hands out resources and opens the main phase.
    pub fn apply_dice_roll(&mut self, roll: DoubleDiceRoll) -> (r: Result<(), GameError>)
        requires
            old(self).wf(),
            roll.wf(),
        ensures
            final(self).wf(),
            old(self).roll_outcome(*final(self), roll, r),
    {
        let total = roll.get_total();
        proof {
            assert forall|j: int| 0 <= j < self.players@.len() implies #[trigger] self.held(j).covers(
                self.held(j),
            ) by {}
        }
        if total == ROBBER_NUMBER {
            if self.has_a_player_too_many_cards() {
                self.transition(StateId::RobberRemoveCards)
            } else {
                self.transition(StateId::RobberRelocate)
            }
        } else {
            if let Err(err) = self.add_resources(total) {
                return Err(err);
            }
            self.transition(StateId::SelectAction)
        }
    }

    /// Rolls the dice and acts on the roll: whatever the dice show, ledgers only grow,
    /// and a successful roll leads to discarding, to the robber or to the main phase.
    pub fn process_roll_dice(&mut self) -> (r: Result<(), GameError>)
        requires
            old(self).wf(),
        ensures
            final(self).wf(),
            exists|roll: DoubleDiceRoll| roll.wf() && #[trigger] old(self).roll_outcome(*final(self), roll, r),
    {
        let roll = self.board.roll_dice();
        let r = self.apply_dice_roll(roll);
        assert(old(self).roll_outcome(*self, roll, r));
        r
    }
}

} // verus!
