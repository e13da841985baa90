//! Exchange-ratio policies, as offered by seaports.
use vstd::prelude::*;
use crate::resources::{ResourceCollection, ResourceKind};

verus! {

/// A policy deciding whether an exchange of `send` for `receive` is acceptable.
pub trait TradeContract {
    spec fn accepts(&self, receive: ResourceCollection, send: ResourceCollection) -> bool;

    fn accepts_offer(&self, receive: ResourceCollection, send: ResourceCollection) -> (r: bool)
        ensures
            r == self.accepts(receive, send),
    ;
}

/// `receive` and `send` are non-empty and `receive` is a whole number of `n`-unit lots,
/// each paid with exactly `m` units of `send`.
pub open spec fn ratio_holds(
    receive: ResourceCollection,
    send: ResourceCollection,
    n: nat,
    m: nat,
) -> bool {
    &&& n > 0
    &&& receive.total() <= usize::MAX
    &&& send.total() <= usize::MAX
    &&& receive.total() > 0
    &&& send.total() > 0
    &&& receive.total() % n == 0
    &&& (receive.total() / n) * m == send.total()
}

fn ratio_check(
    receive: &ResourceCollection,
    send: &ResourceCollection,
    receive_count: usize,
    send_count: usize,
) -> (r: bool)
    requires
        receive_count > 0,
    ensures
        r == ratio_holds(*receive, *send, receive_count as nat, send_count as nat),
{
    let received = match receive.checked_total() {
        None => return false,
        Some(t) => t,
    };
    let sent = match send.checked_total() {
        None => return false,
        Some(t) => t,
    };
    if received == 0 || sent == 0 {
        return false;
    }
    if received % receive_count != 0 {
        return false;
    }
    let trade_times = received / receive_count;
    match trade_times.checked_mul(send_count) {
        None => false,
        Some(p) => p == sent,
    }
}

/// Accepts any mix of kinds at a fixed ratio of `receive_count` to `send_count`.
#[derive(Debug, Clone, Copy, PartialEq, Eq, Structural)]
pub struct AcceptsNAnyTradeContract {
    pub receive_count: usize,
    pub send_count: usize,
}

impl AcceptsNAnyTradeContract {
    pub fn new(receive_count: usize, send_count: usize) -> (c: Self)
        requires
            receive_count > 0,
            send_count > 0,
        ensures
            c.receive_count == receive_count,
            c.send_count == send_count,
    {
        AcceptsNAnyTradeContract { receive_count, send_count }
    }
}

impl TradeContract for AcceptsNAnyTradeContract {
    open spec fn accepts(&self, receive: ResourceCollection, send: ResourceCollection) -> bool {
        ratio_holds(receive, send, self.receive_count as nat, self.send_count as nat)
    }

    fn accepts_offer(&self, receive: ResourceCollection, send: ResourceCollection) -> (r: bool) {
        if self.receive_count == 0 {
            return false;
        }
        ratio_check(&receive, &send, self.receive_count, self.send_count)
    }
}

/// Accepts a single kind at a fixed ratio of `receive_count` to `send_count`.
#[derive(Debug, Clone, Copy, PartialEq, Eq, Structural)]
pub struct AcceptsNSingleResourceTradeContract {
    pub receive_count: usize,
    pub send_count: usize,
    pub resource: ResourceKind,
}

impl AcceptsNSingleResourceTradeContract {
    pub fn new(receive_count: usize, send_count: usize, resource: ResourceKind) -> (c: Self)
        requires
            receive_count > 0,
            send_count > 0,
        ensures
            c.receive_count == receive_count,
            c.send_count == send_count,
            c.resource == resource,
    {
        AcceptsNSingleResourceTradeContract { receive_count, send_count, resource }
    }
}

impl TradeContract for AcceptsNSingleResourceTradeContract {
    open spec fn accepts(&self, receive: ResourceCollection, send: ResourceCollection) -> bool {
        ratio_holds(receive, send, self.receive_count as nat, self.send_count as nat)
            && receive.count(self.resource) == receive.total()
    }

    fn accepts_offer(&self, receive: ResourceCollection, send: ResourceCollection) -> (r: bool) {
        if self.receive_count == 0 {
            return false;
        }
        if !ratio_check(&receive, &send, self.receive_count, self.send_count) {
            return false;
        }
        let received = receive.checked_total().unwrap();
        receive.get(self.resource) == received
    }
}

/// The contract a seaport offers.
#[derive(Debug, Clone, Copy, PartialEq, Eq, Structural)]
pub enum SeaportTradeContract {
    AnyResource(AcceptsNAnyTradeContract),
    SingleResource(AcceptsNSingleResourceTradeContract),
}

impl TradeContract for SeaportTradeContract {
    open spec fn accepts(&self, receive: ResourceCollection, send: ResourceCollection) -> bool {
        match self {
            SeaportTradeContract::AnyResource(c) => c.accepts(receive, send),
            SeaportTradeContract::SingleResource(c) => c.accepts(receive, send),
        }
    }

    fn accepts_offer(&self, receive: ResourceCollection, send: ResourceCollection) -> (r: bool) {
        match self {
            SeaportTradeContract::AnyResource(c) => c.accepts_offer(receive, send),
            SeaportTradeContract::SingleResource(c) => c.accepts_offer(receive, send),
        }
    }
}

/// A seaport attached to a coastal corner.
#[derive(Debug, Clone, Copy, PartialEq, Eq, Structural)]
pub struct SeaportLocation {
    pub trade_contract: SeaportTradeContract,
}

impl SeaportLocation {
    pub fn new(trade_contract: SeaportTradeContract) -> (s: Self)
        ensures
            s.trade_contract == trade_contract,
    {
        SeaportLocation { trade_contract }
    }

    pub fn get_trade_contract(&self) -> (c: &SeaportTradeContract)
        ensures
            *c == self.trade_contract,
    {
        &self.trade_contract
    }
}

} // verus!
