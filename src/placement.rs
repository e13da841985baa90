//! The building rules: where villages, cities and roads may go.
use vstd::prelude::*;
use crate::game::GameError;
use crate::locations::{
    PlayerRoad, PlayerSettlement, RoadLocation, RoadLocationId, SettlementLocationId,
    SettlementType,
};
use crate::player::PlayerId;
use crate::settlement_map::SettlementMap;

verus! {

/// Corner `id` of `m` is replaced in `n` by a building of `player_id` of tier
/// `settlement_type`; nothing else changes.
pub open spec fn built_on(
    m: SettlementMap,
    n: SettlementMap,
    id: SettlementLocationId,
    settlement_type: SettlementType,
    player_id: PlayerId,
) -> bool {
    exists|i: int|
        0 <= i < m.corners().len() && #[trigger] m.corners()[i].id == id
            && m.only_building_changed(n, i) && n.corners()[i].settlement == Some(
            PlayerSettlement { player_id, settlement_type },
        )
}

/// A building changes no corner's id: the same ids are in the map.
pub proof fn lemma_built_keeps_ids(
    m: SettlementMap,
    n: SettlementMap,
    id: SettlementLocationId,
    settlement_type: SettlementType,
    player_id: PlayerId,
)
    requires
        built_on(m, n, id, settlement_type, player_id),
    ensures
        forall|c: SettlementLocationId| #[trigger] n.has_corner(c) == m.has_corner(c),
{
    let i = choose|i: int|
        0 <= i < m.corners().len() && #[trigger] m.corners()[i].id == id
            && m.only_building_changed(n, i) && n.corners()[i].settlement == Some(
            PlayerSettlement { player_id, settlement_type },
        );
    assert forall|c: SettlementLocationId| #[trigger] n.has_corner(c) == m.has_corner(c) by {
        if m.has_corner(c) {
            let k = choose|k: int| 0 <= k < m.corners().len() && #[trigger] m.corners()[k].id == c;
            if k != i {
                assert(n.corners()[k] == m.corners()[k]);
            }
            assert(n.corners()[k].id == c);
        }
        if n.has_corner(c) {
            let k = choose|k: int| 0 <= k < n.corners().len() && #[trigger] n.corners()[k].id == c;
            if k != i {
                assert(n.corners()[k] == m.corners()[k]);
            }
            assert(m.corners()[k].id == c);
        }
    }
}

/// A building of a known player keeps every building's owner known.
pub proof fn lemma_built_keeps_owners(
    m: SettlementMap,
    n: SettlementMap,
    id: SettlementLocationId,
    settlement_type: SettlementType,
    player_id: PlayerId,
    count: nat,
)
    requires
        built_on(m, n, id, settlement_type, player_id),
        player_id < count,
        crate::game::owners_known(m, count),
    ensures
        crate::game::owners_known(n, count),
{
    let i = choose|i: int|
        0 <= i < m.corners().len() && #[trigger] m.corners()[i].id == id
            && m.only_building_changed(n, i) && n.corners()[i].settlement == Some(
            PlayerSettlement { player_id, settlement_type },
        );
    assert forall|c: int|
        0 <= c < n.corners().len() && (#[trigger] n.corners()[c]).settlement is Some implies n.corners()[c].settlement->Some_0.player_id
            < count by {
        if c != i {
            assert(n.corners()[c] == m.corners()[c]);
        }
    }
}

/// Road `id` of `m` is claimed in `n` by `player_id`; nothing else changes.
pub open spec fn claimed(m: SettlementMap, n: SettlementMap, id: RoadLocationId, player_id: PlayerId) -> bool {
    &&& n.corners() == m.corners()
    &&& exists|j: int|
        0 <= j < m.road_list().len() && #[trigger] m.road_list()[j].id == id && n.road_list()
            == m.road_list().update(
            j,
            RoadLocation { player_road: Some(PlayerRoad { player_id }), ..m.road_list()[j] },
        )
}

/// The outcome of placing a first village on corner `id`.
pub open spec fn village_result(m: SettlementMap, id: SettlementLocationId) -> Result<(), GameError> {
    if m.neighbor_occupied(id) {
        Err(GameError::InvalidLocation)
    } else if !m.has_corner(id) {
        Err(GameError::InvalidLocation)
    } else if m.occupied(id) {
        Err(GameError::ActionFailed)
    } else {
        Ok(())
    }
}

/// The outcome of building on corner `id` during the main phase.
pub open spec fn settlement_result(
    m: SettlementMap,
    id: SettlementLocationId,
    settlement_type: SettlementType,
    player_id: PlayerId,
) -> Result<(), GameError> {
    if m.neighbor_occupied(id) {
        Err(GameError::InvalidLocation)
    } else if !m.has_player_road_at(id, player_id) {
        Err(GameError::InvalidLocation)
    } else if !m.has_corner(id) {
        Err(GameError::InvalidLocation)
    } else if !(exists|i: int|
        0 <= i < m.corners().len() && #[trigger] m.corners()[i].id == id && m.corners()[i].can_build(
            settlement_type,
            player_id,
        )) {
        Err(GameError::ActionFailed)
    } else {
        Ok(())
    }
}

/// `anchor` is a corner at an end of `road`, held by `player_id`.
pub open spec fn anchored(
    m: SettlementMap,
    road: RoadLocation,
    player_id: PlayerId,
    anchor: Option<SettlementLocationId>,
) -> bool {
    anchor matches Some(c) && road.touches(c) && m.holds_corner(c, player_id)
}

/// The outcome of claiming road `id`: during the opening a road must end at `anchor`,
/// the corner the player has just built on; afterwards it must end at one of the
/// player's corners or continue one of the player's roads.
pub open spec fn road_result(
    m: SettlementMap,
    id: RoadLocationId,
    player_id: PlayerId,
    opening: bool,
    anchor: Option<SettlementLocationId>,
) -> Result<(), GameError> {
    if !m.has_road_id(id) {
        Err(GameError::ActionFailed)
    } else if m.road_of(id).player_road is Some {
        Err(GameError::InvalidLocation)
    } else if opening && !anchored(m, m.road_of(id), player_id, anchor) {
        Err(GameError::InvalidLocation)
    } else if !opening && !m.connects(m.road_of(id), player_id) {
        Err(GameError::InvalidLocation)
    } else {
        Ok(())
    }
}

/// Places a first village: the corner must exist, be free, and have no building one
/// road away.
pub fn place_village(
    settlement_map: &mut SettlementMap,
    settlement_id: &SettlementLocationId,
    player_id: PlayerId,
) -> (r: Result<(), GameError>)
    requires
        old(settlement_map).wf(),
    ensures
        final(settlement_map).wf(),
        r == village_result(*old(settlement_map), *settlement_id),
        r is Ok ==> built_on(
            *old(settlement_map),
            *final(settlement_map),
            *settlement_id,
            SettlementType::Village,
            player_id,
        ),
        r is Err ==> *final(settlement_map) == *old(settlement_map),
{
    if settlement_map.is_neighbor_occupied(settlement_id) {
        return Err(GameError::InvalidLocation);
    }
    if !settlement_map.has_settlement(settlement_id) {
        return Err(GameError::InvalidLocation);
    }
    if settlement_map.is_occupied(settlement_id) {
        return Err(GameError::ActionFailed);
    }
    let ghost before = *settlement_map;
    match settlement_map.build_settlement(settlement_id, SettlementType::Village, player_id) {
        Ok(i) => {
            assert(built_on(before, *settlement_map, *settlement_id, SettlementType::Village, player_id));
            Ok(())
        },
        Err(_) => {
            proof {
                let i = choose|i: int|
                    0 <= i < before.corners().len() && #[trigger] before.corners()[i].id == *settlement_id;
                assert(before.corners()[i].settlement is None);
            }
            assert(false);
            Err(GameError::ActionFailed)
        },
    }
}

/// Builds a village or a city during the main phase: no building one road away, one of
/// the player's roads at the corner, and the tier possible there.
pub fn place_settlement(
    settlement_map: &mut SettlementMap,
    settlement_id: &SettlementLocationId,
    settlement_type: SettlementType,
    player_id: PlayerId,
) -> (r: Result<(), GameError>)
    requires
        old(settlement_map).wf(),
    ensures
        final(settlement_map).wf(),
        r == settlement_result(*old(settlement_map), *settlement_id, settlement_type, player_id),
        r is Ok ==> built_on(
            *old(settlement_map),
            *final(settlement_map),
            *settlement_id,
            settlement_type,
            player_id,
        ),
        r is Err ==> *final(settlement_map) == *old(settlement_map),
{
    if settlement_map.is_neighbor_occupied(settlement_id) {
        return Err(GameError::InvalidLocation);
    }
    if !settlement_map.has_settlement_player_roads(settlement_id, player_id) {
        return Err(GameError::InvalidLocation);
    }
    let i = match settlement_map.find_settlement(settlement_id) {
        None => return Err(GameError::InvalidLocation),
        Some(i) => i,
    };
    if !settlement_map.get_settlements()[i].can_build_now(settlement_type, player_id) {
        proof {
            assert forall|k: int|
                0 <= k < settlement_map.corners().len() && #[trigger] settlement_map.corners()[k].id
                    == *settlement_id implies !settlement_map.corners()[k].can_build(
                settlement_type,
                player_id,
            ) by {
                assert(settlement_map.corners()[k].id == settlement_map.corners()[i as int].id);
            }
        }
        return Err(GameError::ActionFailed);
    }
    let ghost before = *settlement_map;
    match settlement_map.build_settlement(settlement_id, settlement_type, player_id) {
        Ok(_) => Ok(()),
        Err(_) => {
            assert(false);
            Err(GameError::ActionFailed)
        },
    }
}

/// Claims road `road_id` for `player_id` (see `road_result`).
fn claim_road(
    settlement_map: &mut SettlementMap,
    road_id: &RoadLocationId,
    player_id: PlayerId,
    opening: bool,
    anchor: Option<SettlementLocationId>,
) -> (r: Result<(), GameError>)
    requires
        old(settlement_map).wf(),
    ensures
        final(settlement_map).wf(),
        r == road_result(*old(settlement_map), *road_id, player_id, opening, anchor),
        r is Ok ==> claimed(*old(settlement_map), *final(settlement_map), *road_id, player_id),
        r is Err ==> *final(settlement_map) == *old(settlement_map),
{
    let road = match settlement_map.lookup_road(road_id) {
        None => return Err(GameError::ActionFailed),
        Some(road) => road,
    };
    if road.has_road() {
        return Err(GameError::InvalidLocation);
    }
    let holds_end = settlement_map.is_corner_held_by(&road.settlement_a_id, player_id)
        || settlement_map.is_corner_held_by(&road.settlement_b_id, player_id);
    if opening {
        let at_anchor = match anchor {
            Some(c) => (road.settlement_a_id == c || road.settlement_b_id == c)
                && settlement_map.is_corner_held_by(&c, player_id),
            None => false,
        };
        if !at_anchor {
            return Err(GameError::InvalidLocation);
        }
    }
    if !opening && !holds_end && !settlement_map.has_settlement_player_roads(
        &road.settlement_a_id,
        player_id,
    ) && !settlement_map.has_settlement_player_roads(&road.settlement_b_id, player_id) {
        return Err(GameError::InvalidLocation);
    }
    let ghost before = *settlement_map;
    match settlement_map.build_road(road_id, player_id) {
        Ok(j) => {
            proof {
                let c = choose|c: int| 0 <= c < before.road_list().len() && #[trigger] before.road_list()[c].id == *road_id;
                assert(before.road_list()[c].id == before.road_list()[j as int].id);
            }
            Ok(())
        },
        Err(_) => {
            proof {
                let c = choose|c: int| 0 <= c < before.road_list().len() && #[trigger] before.road_list()[c].id == *road_id;
                assert(before.road_list()[c].player_road is None);
            }
            assert(false);
            Err(GameError::ActionFailed)
        },
    }
}

/// Claims a road during the main phase: it must be free and end at one of the player's
/// corners or continue one of the player's roads.
pub fn place_road(settlement_map: &mut SettlementMap, road_id: &RoadLocationId, player_id: PlayerId) -> (r:
    Result<(), GameError>)
    requires
        old(settlement_map).wf(),
    ensures
        final(settlement_map).wf(),
        r == road_result(*old(settlement_map), *road_id, player_id, false, None),
        r is Ok ==> claimed(*old(settlement_map), *final(settlement_map), *road_id, player_id),
        r is Err ==> *final(settlement_map) == *old(settlement_map),
{
    claim_road(settlement_map, road_id, player_id, false, None)
}

/// Claims a road during the opening: it must be free and end at `anchor`, the corner the
/// player has just built on.
pub fn place_start_road(
    settlement_map: &mut SettlementMap,
    road_id: &RoadLocationId,
    player_id: PlayerId,
    anchor: Option<SettlementLocationId>,
) -> (r: Result<(), GameError>)
    requires
        old(settlement_map).wf(),
    ensures
        final(settlement_map).wf(),
        r == road_result(*old(settlement_map), *road_id, player_id, true, anchor),
        r is Ok ==> claimed(*old(settlement_map), *final(settlement_map), *road_id, player_id),
        r is Err ==> *final(settlement_map) == *old(settlement_map),
{
    claim_road(settlement_map, road_id, player_id, true, anchor)
}

} // verus!
