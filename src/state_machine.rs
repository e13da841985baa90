//! The registry of game states and transitions between them.
use vstd::prelude::*;

verus! {

/// The stable ids of the game's states.
#[derive(Debug, Clone, Copy, PartialEq, Eq, Hash, Structural)]
pub enum StateId {
    StartVillagePlacement,
    StartRoadPlacement,
    RollDice,
    SelectAction,
    RobberRemoveCards,
    RobberRelocate,
    BuildNFreeRoads,
    Trading,
    GameError,
}

/// A type with a fixed state id.
pub trait HasStateId {
    spec fn state_id(&self) -> StateId;

    fn get_id(&self) -> (id: StateId)
        ensures
            id == self.state_id(),
    ;
}

/// Each player places a first village, in turn.
#[derive(Debug, Clone, Copy, PartialEq, Eq, Structural)]
pub struct StartVillagePlacement {}

/// The player who just placed a village places a road next to it.
#[derive(Debug, Clone, Copy, PartialEq, Eq, Structural)]
pub struct StartRoadPlacement {}

/// The turn holder rolls the dice.
#[derive(Debug, Clone, Copy, PartialEq, Eq, Structural)]
pub struct RollDice {}

/// The turn holder builds, plays cards, trades or ends the turn.
#[derive(Debug, Clone, Copy, PartialEq, Eq, Structural)]
pub struct SelectAction {}

/// Players over the hand limit discard down to it.
#[derive(Debug, Clone, Copy, PartialEq, Eq, Structural)]
pub struct RobberRemoveCards {}

/// The turn holder moves the robber and robs a player on its tile.
#[derive(Debug, Clone, Copy, PartialEq, Eq, Structural)]
pub struct RobberRelocate {}

/// The turn holder places `free_roads` roads without paying.
#[derive(Debug, Clone, Copy, PartialEq, Eq, Structural)]
pub struct BuildNFreeRoads {
    pub free_roads: usize,
    pub free_roads_left: usize,
}

/// A trade offer is open.
#[derive(Debug, Clone, Copy, PartialEq, Eq, Structural)]
pub struct Trading {}

/// The terminal state after a machine fault: every action is refused.
#[derive(Debug, Clone, Copy, PartialEq, Eq, Structural)]
pub struct GameErrorState {}

impl StartVillagePlacement {
    pub fn new() -> Self {
        StartVillagePlacement {  }
    }
}

impl StartRoadPlacement {
    pub fn new() -> Self {
        StartRoadPlacement {  }
    }
}

impl RollDice {
    pub fn new() -> Self {
        RollDice {  }
    }
}

impl SelectAction {
    pub fn new() -> Self {
        SelectAction {  }
    }
}

impl RobberRemoveCards {
    pub fn new() -> Self {
        RobberRemoveCards {  }
    }
}

impl RobberRelocate {
    pub fn new() -> Self {
        RobberRelocate {  }
    }
}

impl BuildNFreeRoads {
    /// A state granting `free_roads` roads on each entry.
    pub fn new(free_roads: usize) -> (s: Self)
        ensures
            s.free_roads == free_roads,
            s.free_roads_left == 0,
    {
        BuildNFreeRoads { free_roads, free_roads_left: 0 }
    }
}

impl Trading {
    pub fn new() -> Self {
        Trading {  }
    }
}

impl GameErrorState {
    pub fn new() -> Self {
        GameErrorState {  }
    }
}

impl HasStateId for StartVillagePlacement {
    open spec fn state_id(&self) -> StateId {
        StateId::StartVillagePlacement
    }

    fn get_id(&self) -> (id: StateId) {
        StateId::StartVillagePlacement
    }
}

impl HasStateId for StartRoadPlacement {
    open spec fn state_id(&self) -> StateId {
        StateId::StartRoadPlacement
    }

    fn get_id(&self) -> (id: StateId) {
        StateId::StartRoadPlacement
    }
}

impl HasStateId for RollDice {
    open spec fn state_id(&self) -> StateId {
        StateId::RollDice
    }

    fn get_id(&self) -> (id: StateId) {
        StateId::RollDice
    }
}

impl HasStateId for SelectAction {
    open spec fn state_id(&self) -> StateId {
        StateId::SelectAction
    }

    fn get_id(&self) -> (id: StateId) {
        StateId::SelectAction
    }
}

impl HasStateId for RobberRemoveCards {
    open spec fn state_id(&self) -> StateId {
        StateId::RobberRemoveCards
    }

    fn get_id(&self) -> (id: StateId) {
        StateId::RobberRemoveCards
    }
}

impl HasStateId for RobberRelocate {
    open spec fn state_id(&self) -> StateId {
        StateId::RobberRelocate
    }

    fn get_id(&self) -> (id: StateId) {
        StateId::RobberRelocate
    }
}

impl HasStateId for BuildNFreeRoads {
    open spec fn state_id(&self) -> StateId {
        StateId::BuildNFreeRoads
    }

    fn get_id(&self) -> (id: StateId) {
        StateId::BuildNFreeRoads
    }
}

impl HasStateId for Trading {
    open spec fn state_id(&self) -> StateId {
        StateId::Trading
    }

    fn get_id(&self) -> (id: StateId) {
        StateId::Trading
    }
}

impl HasStateId for GameErrorState {
    open spec fn state_id(&self) -> StateId {
        StateId::GameError
    }

    fn get_id(&self) -> (id: StateId) {
        StateId::GameError
    }
}

/// One registered state.
#[derive(Debug, Clone, Copy, PartialEq, Eq, Structural)]
pub enum GameState {
    StartVillagePlacement(StartVillagePlacement),
    StartRoadPlacement(StartRoadPlacement),
    RollDice(RollDice),
    SelectAction(SelectAction),
    RobberRemoveCards(RobberRemoveCards),
    RobberRelocate(RobberRelocate),
    BuildNFreeRoads(BuildNFreeRoads),
    Trading(Trading),
    GameError(GameErrorState),
}

impl HasStateId for GameState {
    open spec fn state_id(&self) -> StateId {
        match self {
            GameState::StartVillagePlacement(_) => StateId::StartVillagePlacement,
            GameState::StartRoadPlacement(_) => StateId::StartRoadPlacement,
            GameState::RollDice(_) => StateId::RollDice,
            GameState::SelectAction(_) => StateId::SelectAction,
            GameState::RobberRemoveCards(_) => StateId::RobberRemoveCards,
            GameState::RobberRelocate(_) => StateId::RobberRelocate,
            GameState::BuildNFreeRoads(_) => StateId::BuildNFreeRoads,
            GameState::Trading(_) => StateId::Trading,
            GameState::GameError(_) => StateId::GameError,
        }
    }

    fn get_id(&self) -> (id: StateId) {
        match self {
            GameState::StartVillagePlacement(_) => StateId::StartVillagePlacement,
            GameState::StartRoadPlacement(_) => StateId::StartRoadPlacement,
            GameState::RollDice(_) => StateId::RollDice,
            GameState::SelectAction(_) => StateId::SelectAction,
            GameState::RobberRemoveCards(_) => StateId::RobberRemoveCards,
            GameState::RobberRelocate(_) => StateId::RobberRelocate,
            GameState::BuildNFreeRoads(_) => StateId::BuildNFreeRoads,
            GameState::Trading(_) => StateId::Trading,
            GameState::GameError(_) => StateId::GameError,
        }
    }
}

impl GameState {
    /// The state as it is after being entered: a free-road state refills its allowance.
    pub open spec fn activated(self) -> GameState {
        match self {
            GameState::BuildNFreeRoads(s) => GameState::BuildNFreeRoads(
                BuildNFreeRoads { free_roads_left: s.free_roads, ..s },
            ),
            _ => self,
        }
    }

    /// Setup run once on entry.
    pub fn activate(&mut self)
        ensures
            *final(self) == old(self).activated(),
    {
        match self {
            GameState::BuildNFreeRoads(s) => {
                s.free_roads_left = s.free_roads;
            },
            _ => {},
        }
    }
}

/// Some state in `states` has id `id`.
pub open spec fn has_state(states: Seq<GameState>, id: StateId) -> bool {
    exists|i: int| 0 <= i < states.len() && (#[trigger] states[i]).state_id() == id
}

/// The registry of states and the id of the current one.
#[derive(Debug, Clone)]
pub struct StateMachine {
    pub current_state_id: StateId,
    pub states: Vec<GameState>,
}

impl StateMachine {
    /// Each id is registered at most once.
    pub open spec fn wf(self) -> bool {
        forall|i: int, k: int|
            0 <= i < self.states@.len() && 0 <= k < self.states@.len()
                && (#[trigger] self.states@[i]).state_id() == (#[trigger] self.states@[k]).state_id()
                ==> i == k
    }

    pub open spec fn is_registered(self, id: StateId) -> bool {
        has_state(self.states@, id)
    }

    /// `next` is `self` after a successful transition to `id`: `id` is current and its
    /// state has been entered.
    pub open spec fn entered(self, next: StateMachine, id: StateId) -> bool {
        &&& next.current_state_id == id
        &&& exists|i: int|
            0 <= i < self.states@.len() && (#[trigger] self.states@[i]).state_id() == id
                && next.states@ == self.states@.update(i, self.states@[i].activated())
    }

    /// `next` is `self` after a fault: the error state is current, the registry unchanged.
    pub open spec fn faulted(self, next: StateMachine) -> bool {
        &&& next.current_state_id == StateId::GameError
        &&& next.states@ == self.states@
    }

    /// The outcome of `transition_to(id)`.
    pub open spec fn transition_outcome(self, next: StateMachine, id: StateId, ok: bool) -> bool {
        &&& ok == self.is_registered(id)
        &&& ok ==> self.entered(next, id)
        &&& !ok ==> self.faulted(next)
    }

    /// Registers `states`; the last of several with one id wins.
    pub fn from(states: Vec<GameState>, current_state_id: StateId) -> (m: Self)
        ensures
            m.wf(),
            m.current_state_id == current_state_id,
            forall|id: StateId| #[trigger] m.is_registered(id) <==> has_state(states@, id),
    {
        let mut states = states;
        let ghost all = states@;
        let mut registered: Vec<GameState> = Vec::new();
        while states.len() > 0
            invariant
                all.subrange(0, states@.len() as int) == states@,
                states@.len() <= all.len(),
                forall|i: int, k: int|
                    0 <= i < registered@.len() && 0 <= k < registered@.len()
                        && (#[trigger] registered@[i]).state_id() == (#[trigger] registered@[k]).state_id()
                        ==> i == k,
                forall|id: StateId|
                    #[trigger] has_state(registered@, id) <==> exists|i: int|
                        states@.len() <= i < all.len() && (#[trigger] all[i]).state_id() == id,
            decreases states@.len(),
        {
            let ghost before = registered@;
            let state = states.pop().unwrap();
            assert(all[states@.len() as int] == state);
            assert(all.subrange(0, states@.len() as int) =~= states@);
            let mut known = false;
            let mut k: usize = 0;
            while k < registered.len()
                invariant
                    k <= registered.len(),
                    !known ==> forall|m: int| 0 <= m < k ==> (#[trigger] registered@[m]).state_id() != state.state_id(),
                    known ==> exists|m: int| 0 <= m < registered@.len() && (#[trigger] registered@[m]).state_id() == state.state_id(),
                decreases registered.len() - k,
            {
                if registered[k].get_id() == state.get_id() {
                    known = true;
                }
                k = k + 1;
            }
            if !known {
                registered.push(state);
                proof {
                    assert forall|i: int, m: int|
                        0 <= i < registered@.len() && 0 <= m < registered@.len()
                            && (#[trigger] registered@[i]).state_id() == (#[trigger] registered@[m]).state_id()
                            implies i == m by {
                        if i < before.len() && m < before.len() {
                            assert(before[i] == registered@[i] && before[m] == registered@[m]);
                        } else if i < before.len() {
                            assert(before[i] == registered@[i]);
                        } else if m < before.len() {
                            assert(before[m] == registered@[m]);
                        }
                    }
                }
            }
            proof {
                assert forall|id: StateId|
                    #[trigger] has_state(registered@, id) <==> exists|i: int|
                        states@.len() <= i < all.len() && (#[trigger] all[i]).state_id() == id by {
                    if exists|i: int|
                        0 <= i < registered@.len() && (#[trigger] registered@[i]).state_id() == id {
                        let i = choose|i: int|
                            0 <= i < registered@.len() && (#[trigger] registered@[i]).state_id() == id;
                        if i < before.len() {
                            assert(before[i] == registered@[i]);
                            assert(has_state(before, id));
                            let j = choose|j: int|
                                states@.len() + 1 <= j < all.len() && (#[trigger] all[j]).state_id() == id;
                            assert(states@.len() <= j < all.len() && all[j].state_id() == id);
                        } else {
                            assert(all[states@.len() as int].state_id() == id);
                        }
                    }
                    if exists|i: int|
                        states@.len() <= i < all.len() && (#[trigger] all[i]).state_id() == id {
                        let i = choose|i: int|
                            states@.len() <= i < all.len() && (#[trigger] all[i]).state_id() == id;
                        if i == states@.len() {
                            if known {
                                let m = choose|m: int| 0 <= m < registered@.len() && (#[trigger] registered@[m]).state_id() == state.state_id();
                                assert(registered@[m].state_id() == id);
                            } else {
                                assert(registered@[before.len() as int].state_id() == id);
                            }
                        } else {
                            assert(states@.len() + 1 <= i < all.len() && all[i].state_id() == id);
                            assert(has_state(before, id));
                            let m = choose|m: int| 0 <= m < before.len() && (#[trigger] before[m]).state_id() == id;
                            assert(registered@[m] == before[m]);
                        }
                    }
                }
            }
        }
        assert forall|id: StateId| #[trigger] has_state(registered@, id) <==> has_state(all, id) by {
            if has_state(all, id) {
                let i = choose|i: int| 0 <= i < all.len() && (#[trigger] all[i]).state_id() == id;
                assert(states@.len() <= i < all.len());
            }
        }
        StateMachine { current_state_id, states: registered }
    }

    /// Every state, starting with the first village placement; free roads come in twos.
    pub fn standard() -> (m: Self)
        ensures
            m.wf(),
            m.current_state_id == StateId::StartVillagePlacement,
            forall|id: StateId| #[trigger] m.is_registered(id),
    {
        let states: Vec<GameState> = vec![
            GameState::StartVillagePlacement(StartVillagePlacement::new()),
            GameState::StartRoadPlacement(StartRoadPlacement::new()),
            GameState::RollDice(RollDice::new()),
            GameState::SelectAction(SelectAction::new()),
            GameState::RobberRemoveCards(RobberRemoveCards::new()),
            GameState::RobberRelocate(RobberRelocate::new()),
            GameState::BuildNFreeRoads(BuildNFreeRoads::new(2)),
            GameState::Trading(Trading::new()),
            GameState::GameError(GameErrorState::new()),
        ];
        proof {
            assert forall|id: StateId| #[trigger] has_state(states@, id) by {
                match id {
                    StateId::StartVillagePlacement => assert(states@[0].state_id() == id),
                    StateId::StartRoadPlacement => assert(states@[1].state_id() == id),
                    StateId::RollDice => assert(states@[2].state_id() == id),
                    StateId::SelectAction => assert(states@[3].state_id() == id),
                    StateId::RobberRemoveCards => assert(states@[4].state_id() == id),
                    StateId::RobberRelocate => assert(states@[5].state_id() == id),
                    StateId::BuildNFreeRoads => assert(states@[6].state_id() == id),
                    StateId::Trading => assert(states@[7].state_id() == id),
                    StateId::GameError => assert(states@[8].state_id() == id),
                }
            }
        }
        StateMachine::from(states, StateId::StartVillagePlacement)
    }

    pub fn get_current_state_id(&self) -> (id: StateId)
        ensures
            id == self.current_state_id,
    {
        self.current_state_id
    }

    /// The position of the state registered under `id`, if any.
    pub fn find_state(&self, id: StateId) -> (r: Option<usize>)
        ensures
            r matches Some(i) ==> i < self.states@.len() && self.states@[i as int].state_id() == id,
            r is None <==> !self.is_registered(id),
    {
        let mut i: usize = 0;
        while i < self.states.len()
            invariant
                i <= self.states.len(),
                forall|k: int| 0 <= k < i ==> (#[trigger] self.states@[k]).state_id() != id,
            decreases self.states.len() - i,
        {
            if self.states[i].get_id() == id {
                return Some(i);
            }
            i = i + 1;
        }
        None
    }

    /// The current state, where it is registered.
    pub fn get_current_state(&self) -> (s: Option<&GameState>)
        ensures
            s matches Some(st) ==> st.state_id() == self.current_state_id && self.states@.contains(*st),
            s is None <==> !self.is_registered(self.current_state_id),
    {
        match self.find_state(self.current_state_id) {
            Some(i) => Some(&self.states[i]),
            None => None,
        }
    }

    /// Enters the state registered under `state_id`. Where none is, the machine faults
    /// into the error state and the transition fails.
    pub fn transition_to(&mut self, state_id: StateId) -> (r: Result<(), String>)
        requires
            old(self).wf(),
        ensures
            final(self).wf(),
            old(self).transition_outcome(*final(self), state_id, r is Ok),
    {
        match self.find_state(state_id) {
            Some(i) => {
                self.current_state_id = state_id;
                let ghost before = self.states@;
                let state = &mut self.states[i];
                state.activate();
                proof {
                    assert(self.states@ == before.update(i as int, before[i as int].activated()));
                    assert forall|a: int, b: int|
                        0 <= a < self.states@.len() && 0 <= b < self.states@.len()
                            && (#[trigger] self.states@[a]).state_id() == (#[trigger] self.states@[b]).state_id()
                            implies a == b by {
                        assert(before[a].state_id() == self.states@[a].state_id());
                        assert(before[b].state_id() == self.states@[b].state_id());
                    }
                }
                Ok(())
            },
            None => {
                self.to_error_state();
                Err("state not found, transitioning to the error state".to_string())
            },
        }
    }

    /// Forces the terminal error state.
    pub fn to_error_state(&mut self)
        ensures
            final(self).current_state_id == StateId::GameError,
            final(self).states@ == old(self).states@,
    {
        self.current_state_id = StateId::GameError;
    }

    /// The free roads left in the registered free-road state (0 where there is none).
    pub open spec fn free_roads_left(self) -> nat {
        if has_state(self.states@, StateId::BuildNFreeRoads) {
            let i = choose|i: int|
                0 <= i < self.states@.len() && (#[trigger] self.states@[i]).state_id()
                    == StateId::BuildNFreeRoads;
            self.states@[i]->BuildNFreeRoads_0.free_roads_left as nat
        } else {
            0
        }
    }

    proof fn lemma_free_road_state(self, i: int)
        requires
            self.wf(),
            0 <= i < self.states@.len(),
            self.states@[i].state_id() == StateId::BuildNFreeRoads,
        ensures
            self.free_roads_left() == self.states@[i]->BuildNFreeRoads_0.free_roads_left,
    {
        assert(has_state(self.states@, StateId::BuildNFreeRoads));
    }

    pub fn get_free_roads_left(&self) -> (n: usize)
        requires
            self.wf(),
        ensures
            n == self.free_roads_left(),
    {
        match self.find_state(StateId::BuildNFreeRoads) {
            None => 0,
            Some(i) => match self.states[i] {
                GameState::BuildNFreeRoads(s) => {
                    proof {
                        self.lemma_free_road_state(i as int);
                    }
                    s.free_roads_left
                },
                _ => {
                    assert(false);
                    0
                },
            },
        }
    }

    /// Uses up one free road.
    pub fn use_free_road(&mut self)
        requires
            old(self).wf(),
            old(self).free_roads_left() > 0,
        ensures
            final(self).wf(),
            final(self).current_state_id == old(self).current_state_id,
            final(self).free_roads_left() == old(self).free_roads_left() - 1,
            forall|id: StateId| #[trigger] final(self).is_registered(id) == old(self).is_registered(id),
    {
        let i = self.find_state(StateId::BuildNFreeRoads).unwrap();
        proof {
            self.lemma_free_road_state(i as int);
        }
        let ghost before = self.states@;
        let state = &mut self.states[i];
        match state {
            GameState::BuildNFreeRoads(s) => {
                s.free_roads_left = s.free_roads_left - 1;
            },
            _ => {},
        }
        proof {
            assert(self.states@ == before.update(i as int, *state));
            assert(self.states@[i as int].state_id() == before[i as int].state_id());
            assert forall|a: int, b: int|
                0 <= a < self.states@.len() && 0 <= b < self.states@.len()
                    && (#[trigger] self.states@[a]).state_id() == (#[trigger] self.states@[b]).state_id()
                    implies a == b by {
                assert(before[a].state_id() == self.states@[a].state_id());
                assert(before[b].state_id() == self.states@[b].state_id());
            }
            self.lemma_free_road_state(i as int);
            assert forall|id: StateId| #[trigger] self.is_registered(id) == old(self).is_registered(id) by {
                if old(self).is_registered(id) {
                    let k = choose|k: int| 0 <= k < before.len() && (#[trigger] before[k]).state_id() == id;
                    assert(self.states@[k].state_id() == id);
                }
                if self.is_registered(id) {
                    let k = choose|k: int| 0 <= k < self.states@.len() && (#[trigger] self.states@[k]).state_id() == id;
                    assert(before[k].state_id() == id);
                }
            }
        }
    }
}

} // verus!
