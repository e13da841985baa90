//! Trade offers between players.
use vstd::prelude::*;
use crate::player::PlayerId;
use crate::resources::ResourceCollection;

verus! {

/// A pending exchange proposed by `creator`: it gives `resource_offer` and asks for
/// `resource_receive`. Each invitee has an answer, `false` until it accepts.
#[derive(Debug, Clone)]
pub struct TradeOffer {
    pub creator: PlayerId,
    pub resource_offer: ResourceCollection,
    pub resource_receive: ResourceCollection,
    pub players_accepted: Vec<(PlayerId, bool)>,
}

impl TradeOffer {
    /// Each invitee appears once, and the creator is not among them.
    pub open spec fn wf(self) -> bool {
        &&& forall|i: int, k: int|
            0 <= i < self.players_accepted@.len() && 0 <= k < self.players_accepted@.len()
                && (#[trigger] self.players_accepted@[i]).0 == (#[trigger] self.players_accepted@[k]).0
                ==> i == k
        &&& forall|i: int|
            0 <= i < self.players_accepted@.len() ==> (#[trigger] self.players_accepted@[i]).0
                != self.creator
    }

    pub open spec fn is_invitee(self, player_id: PlayerId) -> bool {
        exists|i: int|
            0 <= i < self.players_accepted@.len() && (#[trigger] self.players_accepted@[i]).0
                == player_id
    }

    /// `player_id` has accepted the offer (and not rejected it since).
    pub open spec fn has_accepted(self, player_id: PlayerId) -> bool {
        exists|i: int|
            0 <= i < self.players_accepted@.len() && #[trigger] self.players_accepted@[i] == (
            player_id,
            true,
            )
    }

    /// A new offer inviting `players`, none of whom has accepted yet.
    pub fn new(
        creator: PlayerId,
        resource_offer: ResourceCollection,
        resource_receive: ResourceCollection,
        players: Vec<PlayerId>,
    ) -> (t: Self)
        requires
            !players@.contains(creator),
        ensures
            t.wf(),
            t.creator == creator,
            t.resource_offer == resource_offer,
            t.resource_receive == resource_receive,
            forall|p: PlayerId| #[trigger] t.is_invitee(p) <==> players@.contains(p),
            forall|p: PlayerId| !(#[trigger] t.has_accepted(p)),
    {
        let mut offer = TradeOffer {
            creator,
            resource_offer,
            resource_receive,
            players_accepted: Vec::new(),
        };
        let mut k: usize = 0;
        while k < players.len()
            invariant
                k <= players.len(),
                !players@.contains(creator),
                offer.wf(),
                offer.creator == creator,
                offer.resource_offer == resource_offer,
                offer.resource_receive == resource_receive,
                forall|p: PlayerId|
                    #[trigger] offer.is_invitee(p) <==> players@.subrange(0, k as int).contains(p),
                forall|i: int|
                    0 <= i < offer.players_accepted@.len() ==> !(#[trigger] offer.players_accepted@[i]).1,
            decreases players.len() - k,
        {
            let p = players[k];
            assert(players@.subrange(0, k + 1) =~= players@.subrange(0, k as int).push(p));
            let ghost old_offer = offer;
            let ghost prefix = players@.subrange(0, k as int);
            if offer.find(p).is_none() {
                let ghost before = offer.players_accepted@;
                offer.players_accepted.push((p, false));
                proof {
                    assert(offer.players_accepted@[before.len() as int].0 == p);
                    assert forall|q: PlayerId| #[trigger] offer.is_invitee(q) <==> players@.subrange(
                        0,
                        k + 1,
                    ).contains(q) by {
                        if prefix.contains(q) {
                            assert(old_offer.is_invitee(q));
                            let i = choose|i: int|
                                0 <= i < before.len() && (#[trigger] before[i]).0 == q;
                            assert(offer.players_accepted@[i].0 == q);
                        }
                        if q == p {
                            assert(players@.subrange(0, k + 1)[k as int] == p);
                        }
                        if offer.is_invitee(q) && q != p {
                            let i = choose|i: int|
                                0 <= i < offer.players_accepted@.len()
                                    && (#[trigger] offer.players_accepted@[i]).0 == q;
                            assert(before[i].0 == q);
                            assert(old_offer.is_invitee(q));
                            let j = choose|j: int| 0 <= j < prefix.len() && #[trigger] prefix[j] == q;
                            assert(players@.subrange(0, k + 1)[j] == q);
                        }
                        if players@.subrange(0, k + 1).contains(q) && q != p {
                            let j = choose|j: int| 0 <= j < k + 1 && #[trigger] players@.subrange(0, k + 1)[j] == q;
                            assert(prefix[j] == q);
                        }
                    }
                    assert forall|i: int|
                        0 <= i < offer.players_accepted@.len() implies !(#[trigger] offer.players_accepted@[i]).1 by {
                        if i < before.len() {
                            assert(before[i] == offer.players_accepted@[i]);
                        }
                    }
                }
            } else {
                proof {
                    assert(old_offer.is_invitee(p));
                    assert forall|q: PlayerId| #[trigger] offer.is_invitee(q) <==> players@.subrange(
                        0,
                        k + 1,
                    ).contains(q) by {
                        if q == p {
                            assert(players@.subrange(0, k + 1)[k as int] == p);
                        } else {
                            if offer.is_invitee(q) {
                                let j = choose|j: int| 0 <= j < prefix.len() && #[trigger] prefix[j] == q;
                                assert(players@.subrange(0, k + 1)[j] == q);
                            }
                            if players@.subrange(0, k + 1).contains(q) {
                                let j = choose|j: int| 0 <= j < k + 1 && #[trigger] players@.subrange(0, k + 1)[j] == q;
                                assert(prefix[j] == q);
                            }
                        }
                    }
                }
            }
            k = k + 1;
        }
        assert(players@.subrange(0, players@.len() as int) =~= players@);
        proof {
            assert forall|p: PlayerId| !(#[trigger] offer.has_accepted(p)) by {
                if offer.has_accepted(p) {
                    let i = choose|i: int|
                        0 <= i < offer.players_accepted@.len()
                            && #[trigger] offer.players_accepted@[i] == (p, true);
                    assert(!offer.players_accepted@[i].1);
                }
            }
        }
        offer
    }

    /// The position of `player_id`'s answer, if it is an invitee.
    pub fn find(&self, player_id: PlayerId) -> (r: Option<usize>)
        ensures
            r matches Some(i) ==> i < self.players_accepted@.len()
                && self.players_accepted@[i as int].0 == player_id,
            r is None <==> !self.is_invitee(player_id),
    {
        let mut i: usize = 0;
        while i < self.players_accepted.len()
            invariant
                i <= self.players_accepted.len(),
                forall|k: int| 0 <= k < i ==> (#[trigger] self.players_accepted@[k]).0 != player_id,
            decreases self.players_accepted.len() - i,
        {
            if self.players_accepted[i].0 == player_id {
                return Some(i);
            }
            i = i + 1;
        }
        None
    }

    /// Whether `player_id` has accepted.
    pub fn is_accepted(&self, player_id: PlayerId) -> (b: bool)
        requires
            self.wf(),
        ensures
            b == self.has_accepted(player_id),
    {
        match self.find(player_id) {
            None => false,
            Some(i) => {
                let b = self.players_accepted[i].1;
                proof {
                    if !b && self.has_accepted(player_id) {
                        let k = choose|k: int|
                            0 <= k < self.players_accepted@.len()
                                && #[trigger] self.players_accepted@[k] == (player_id, true);
                        assert(self.players_accepted@[k].0 == self.players_accepted@[i as int].0);
                    }
                }
                b
            },
        }
    }

    /// Records `player_id`'s answer; other answers stay.
    pub fn set_answer(&mut self, player_id: PlayerId, accepted: bool)
        requires
            old(self).wf(),
            player_id != old(self).creator,
        ensures
            final(self).wf(),
            final(self).creator == old(self).creator,
            final(self).resource_offer == old(self).resource_offer,
            final(self).resource_receive == old(self).resource_receive,
            final(self).has_accepted(player_id) == accepted,
            final(self).is_invitee(player_id),
            forall|p: PlayerId|
                p != player_id ==> (#[trigger] final(self).has_accepted(p) == old(self).has_accepted(
                    p,
                ) && final(self).is_invitee(p) == old(self).is_invitee(p)),
    {
        let ghost before = self.players_accepted@;
        match self.find(player_id) {
            Some(i) => {
                self.players_accepted.set(i, (player_id, accepted));
                proof {
                    assert(self.players_accepted@ == before.update(i as int, (player_id, accepted)));
                    assert forall|a: int, b: int|
                        0 <= a < self.players_accepted@.len() && 0 <= b < self.players_accepted@.len()
                            && (#[trigger] self.players_accepted@[a]).0
                            == (#[trigger] self.players_accepted@[b]).0 implies a == b by {
                        assert(before[a].0 == self.players_accepted@[a].0);
                        assert(before[b].0 == self.players_accepted@[b].0);
                    }
                    assert(self.players_accepted@[i as int] == (player_id, accepted));
                    if !accepted && self.has_accepted(player_id) {
                        let k = choose|k: int|
                            0 <= k < self.players_accepted@.len()
                                && #[trigger] self.players_accepted@[k] == (player_id, true);
                        assert(k == i);
                    }
                    assert forall|p: PlayerId| p != player_id implies (#[trigger] self.has_accepted(p)
                        == old(self).has_accepted(p) && self.is_invitee(p) == old(self).is_invitee(
                        p,
                    )) by {
                        if old(self).has_accepted(p) {
                            let k = choose|k: int|
                                0 <= k < before.len() && #[trigger] before[k] == (p, true);
                            assert(self.players_accepted@[k] == (p, true));
                        }
                        if self.has_accepted(p) {
                            let k = choose|k: int|
                                0 <= k < self.players_accepted@.len()
                                    && #[trigger] self.players_accepted@[k] == (p, true);
                            assert(before[k] == (p, true));
                        }
                        if old(self).is_invitee(p) {
                            let k = choose|k: int| 0 <= k < before.len() && (#[trigger] before[k]).0 == p;
                            assert(self.players_accepted@[k].0 == p);
                        }
                        if self.is_invitee(p) {
                            let k = choose|k: int|
                                0 <= k < self.players_accepted@.len()
                                    && (#[trigger] self.players_accepted@[k]).0 == p;
                            assert(before[k].0 == p);
                        }
                    }
                }
            },
            None => {
                self.players_accepted.push((player_id, accepted));
                proof {
                    let n = before.len() as int;
                    assert(self.players_accepted@[n] == (player_id, accepted));
                    if !accepted && self.has_accepted(player_id) {
                        let k = choose|k: int|
                            0 <= k < self.players_accepted@.len()
                                && #[trigger] self.players_accepted@[k] == (player_id, true);
                        if k < n {
                            assert(before[k].0 == player_id);
                        }
                    }
                    assert forall|a: int, b: int|
                        0 <= a < self.players_accepted@.len() && 0 <= b < self.players_accepted@.len()
                            && (#[trigger] self.players_accepted@[a]).0
                            == (#[trigger] self.players_accepted@[b]).0 implies a == b by {
                        if a < n && b < n {
                            assert(before[a].0 == before[b].0);
                        } else if a < n {
                            assert(before[a].0 == player_id);
                        } else if b < n {
                            assert(before[b].0 == player_id);
                        }
                    }
                    assert forall|p: PlayerId| p != player_id implies (#[trigger] self.has_accepted(p)
                        == old(self).has_accepted(p) && self.is_invitee(p) == old(self).is_invitee(
                        p,
                    )) by {
                        if old(self).has_accepted(p) {
                            let k = choose|k: int|
                                0 <= k < before.len() && #[trigger] before[k] == (p, true);
                            assert(self.players_accepted@[k] == (p, true));
                        }
                        if self.has_accepted(p) {
                            let k = choose|k: int|
                                0 <= k < self.players_accepted@.len()
                                    && #[trigger] self.players_accepted@[k] == (p, true);
                            assert(before[k] == (p, true));
                        }
                        if old(self).is_invitee(p) {
                            let k = choose|k: int| 0 <= k < before.len() && (#[trigger] before[k]).0 == p;
                            assert(self.players_accepted@[k].0 == p);
                        }
                        if self.is_invitee(p) {
                            let k = choose|k: int|
                                0 <= k < self.players_accepted@.len()
                                    && (#[trigger] self.players_accepted@[k]).0 == p;
                            assert(before[k].0 == p);
                        }
                    }
                }
            },
        }
    }
}

} // verus!
