//! Resource kinds, collections of resources, player ledgers and the fixed costs.
use vstd::prelude::*;

verus! {

/// The five resource kinds that tiles yield and players hold.
#[derive(Debug, Clone, Copy, PartialEq, Eq, Hash, Structural)]
pub enum ResourceKind {
    Clay,
    Wood,
    Ore,
    Sheep,
    Wheat,
}

/// A count for each resource kind: a ledger's content, a cost, or one side of a trade.
#[derive(Debug, Clone, Copy, PartialEq, Eq, Hash, Default, Structural)]
pub struct ResourceCollection {
    pub clay: usize,
    pub wood: usize,
    pub ore: usize,
    pub sheep: usize,
    pub wheat: usize,
}

impl ResourceCollection {
    pub open spec fn count(self, kind: ResourceKind) -> nat {
        match kind {
            ResourceKind::Clay => self.clay as nat,
            ResourceKind::Wood => self.wood as nat,
            ResourceKind::Ore => self.ore as nat,
            ResourceKind::Sheep => self.sheep as nat,
            ResourceKind::Wheat => self.wheat as nat,
        }
    }

    pub open spec fn total(self) -> nat {
        self.clay as nat + self.wood as nat + self.ore as nat + self.sheep as nat
            + self.wheat as nat
    }

    /// Every count of `self` is at least the matching count of `other`.
    pub open spec fn covers(self, other: ResourceCollection) -> bool {
        self.clay >= other.clay && self.wood >= other.wood && self.ore >= other.ore
            && self.sheep >= other.sheep && self.wheat >= other.wheat
    }

    /// `self` with the count of `kind` replaced by `value`.
    pub open spec fn with_count(self, kind: ResourceKind, value: usize) -> ResourceCollection {
        match kind {
            ResourceKind::Clay => ResourceCollection { clay: value, ..self },
            ResourceKind::Wood => ResourceCollection { wood: value, ..self },
            ResourceKind::Ore => ResourceCollection { ore: value, ..self },
            ResourceKind::Sheep => ResourceCollection { sheep: value, ..self },
            ResourceKind::Wheat => ResourceCollection { wheat: value, ..self },
        }
    }

    /// Componentwise sum; meaningful where every sum fits.
    pub open spec fn plus(self, other: ResourceCollection) -> ResourceCollection {
        ResourceCollection {
            clay: (self.clay + other.clay) as usize,
            wood: (self.wood + other.wood) as usize,
            ore: (self.ore + other.ore) as usize,
            sheep: (self.sheep + other.sheep) as usize,
            wheat: (self.wheat + other.wheat) as usize,
        }
    }

    /// Componentwise difference; meaningful where `self.covers(other)`.
    pub open spec fn minus(self, other: ResourceCollection) -> ResourceCollection {
        ResourceCollection {
            clay: (self.clay - other.clay) as usize,
            wood: (self.wood - other.wood) as usize,
            ore: (self.ore - other.ore) as usize,
            sheep: (self.sheep - other.sheep) as usize,
            wheat: (self.wheat - other.wheat) as usize,
        }
    }

    /// The collection that holds nothing.
    pub fn empty() -> (c: ResourceCollection)
        ensures
            c.total() == 0,
            forall|k: ResourceKind| c.count(k) == 0,
    {
        ResourceCollection { clay: 0, wood: 0, ore: 0, sheep: 0, wheat: 0 }
    }

    /// The collection that holds `count` units of `kind` and nothing else.
    pub fn single(kind: ResourceKind, count: usize) -> (c: ResourceCollection)
        ensures
            c == ResourceCollection::empty_spec().with_count(kind, count),
            c.total() == count,
    {
        ResourceCollection::empty().set_count(kind, count)
    }

    pub open spec fn empty_spec() -> ResourceCollection {
        ResourceCollection { clay: 0, wood: 0, ore: 0, sheep: 0, wheat: 0 }
    }

    pub fn get(&self, kind: ResourceKind) -> (n: usize)
        ensures
            n == self.count(kind),
    {
        match kind {
            ResourceKind::Clay => self.clay,
            ResourceKind::Wood => self.wood,
            ResourceKind::Ore => self.ore,
            ResourceKind::Sheep => self.sheep,
            ResourceKind::Wheat => self.wheat,
        }
    }

    /// A copy of `self` with the count of `kind` set to `value`.
    pub fn set_count(self, kind: ResourceKind, value: usize) -> (c: ResourceCollection)
        ensures
            c == self.with_count(kind, value),
            c.total() == self.total() - self.count(kind) + value,
    {
        match kind {
            ResourceKind::Clay => ResourceCollection { clay: value, ..self },
            ResourceKind::Wood => ResourceCollection { wood: value, ..self },
            ResourceKind::Ore => ResourceCollection { ore: value, ..self },
            ResourceKind::Sheep => ResourceCollection { sheep: value, ..self },
            ResourceKind::Wheat => ResourceCollection { wheat: value, ..self },
        }
    }

    /// The number of units held, or `None` where it does not fit in a `usize`.
    pub fn checked_total(&self) -> (t: Option<usize>)
        ensures
            t matches Some(n) ==> n == self.total(),
            t is None <==> self.total() > usize::MAX,
    {
        let a = self.clay.checked_add(self.wood);
        if a.is_none() {
            return None;
        }
        let b = a.unwrap().checked_add(self.ore);
        if b.is_none() {
            return None;
        }
        let c = b.unwrap().checked_add(self.sheep);
        if c.is_none() {
            return None;
        }
        c.unwrap().checked_add(self.wheat)
    }

    /// Whether every count of `self` is at least the matching count of `other`.
    pub fn contains_all(&self, other: &ResourceCollection) -> (b: bool)
        ensures
            b == self.covers(*other),
    {
        self.clay >= other.clay && self.wood >= other.wood && self.ore >= other.ore && self.sheep
            >= other.sheep && self.wheat >= other.wheat
    }
}

/// The number of units in a collection.
pub fn get_total_resources(resource_collection: &ResourceCollection) -> (t: usize)
    requires
        resource_collection.total() <= usize::MAX,
    ensures
        t == resource_collection.total(),
{
    resource_collection.clay + resource_collection.wood + resource_collection.ore
        + resource_collection.sheep + resource_collection.wheat
}

/// A player's ledger: a non-negative count per resource kind whose sum fits in a `usize`.
#[derive(Debug, Clone, Copy, PartialEq, Eq, Structural)]
pub struct PlayerResources {
    resources: ResourceCollection,
}

impl PlayerResources {
    pub closed spec fn view(self) -> ResourceCollection {
        self.resources
    }

    /// The ledger's total fits in a `usize`.
    pub open spec fn wf(self) -> bool {
        self@.total() <= usize::MAX
    }

    pub fn new() -> (p: Self)
        ensures
            p@ == ResourceCollection::empty_spec(),
            p.wf(),
    {
        PlayerResources { resources: ResourceCollection::empty() }
    }

    /// A ledger that starts with the given counts.
    pub fn from_collection(resources: ResourceCollection) -> (p: Self)
        requires
            resources.total() <= usize::MAX,
        ensures
            p@ == resources,
            p.wf(),
    {
        PlayerResources { resources }
    }

    pub fn get_resources(&self) -> (c: ResourceCollection)
        ensures
            c == self@,
    {
        self.resources
    }

    pub fn add_resource(&mut self, resource: ResourceKind, count: usize)
        requires
            old(self)@.total() + count <= usize::MAX,
        ensures
            final(self)@ == old(self)@.with_count(
                resource,
                (old(self)@.count(resource) + count) as usize,
            ),
            final(self)@.total() == old(self)@.total() + count,
            final(self).wf(),
    {
        let current = self.resources.get(resource);
        self.resources = self.resources.set_count(resource, current + count);
    }

    pub fn add_resources(&mut self, added_resources: ResourceCollection)
        requires
            old(self)@.total() + added_resources.total() <= usize::MAX,
        ensures
            final(self)@ == old(self)@.plus(added_resources),
            final(self)@.total() == old(self)@.total() + added_resources.total(),
            final(self).wf(),
    {
        let r = self.resources;
        self.resources = ResourceCollection {
            clay: r.clay + added_resources.clay,
            wood: r.wood + added_resources.wood,
            ore: r.ore + added_resources.ore,
            sheep: r.sheep + added_resources.sheep,
            wheat: r.wheat + added_resources.wheat,
        };
    }

    /// Takes `count` units of one kind; refuses, changing nothing, where fewer are held.
    pub fn remove_resource(&mut self, resource: ResourceKind, count: usize) -> (removed: bool)
        requires
            old(self).wf(),
        ensures
            removed == (old(self)@.count(resource) >= count),
            removed ==> final(self)@ == old(self)@.with_count(
                resource,
                (old(self)@.count(resource) - count) as usize,
            ),
            removed ==> final(self)@.total() == old(self)@.total() - count,
            !removed ==> *final(self) == *old(self),
            final(self).wf(),
    {
        let current = self.resources.get(resource);
        if current < count {
            return false;
        }
        self.resources = self.resources.set_count(resource, current - count);
        true
    }

    /// Takes a whole collection; refuses, changing nothing, where any count is short.
    pub fn remove_resources(&mut self, removed_resources: &ResourceCollection) -> (removed: bool)
        requires
            old(self).wf(),
        ensures
            removed == old(self)@.covers(*removed_resources),
            removed ==> final(self)@ == old(self)@.minus(*removed_resources),
            removed ==> final(self)@.total() == old(self)@.total() - removed_resources.total(),
            !removed ==> *final(self) == *old(self),
            final(self).wf(),
    {
        if !self.resources.contains_all(removed_resources) {
            return false;
        }
        let r = self.resources;
        self.resources = ResourceCollection {
            clay: r.clay - removed_resources.clay,
            wood: r.wood - removed_resources.wood,
            ore: r.ore - removed_resources.ore,
            sheep: r.sheep - removed_resources.sheep,
            wheat: r.wheat - removed_resources.wheat,
        };
        true
    }

    pub fn get_resource(&self, resource: ResourceKind) -> (n: usize)
        ensures
            n == self@.count(resource),
    {
        self.resources.get(resource)
    }

    pub fn get_total_resources(&self) -> (t: usize)
        requires
            self.wf(),
        ensures
            t == self@.total(),
    {
        get_total_resources(&self.resources)
    }

    pub fn has_resource(&self, resource: ResourceKind, expected_count: usize) -> (b: bool)
        ensures
            b == (self@.count(resource) >= expected_count),
    {
        self.resources.get(resource) >= expected_count
    }

    pub fn has_resources(&self, checked_resources: &ResourceCollection) -> (b: bool)
        ensures
            b == self@.covers(*checked_resources),
    {
        self.resources.contains_all(checked_resources)
    }
}

/// What a road costs: one clay and one wood.
pub fn get_road_cost() -> (c: ResourceCollection)
    ensures
        c == (ResourceCollection { clay: 1, wood: 1, ore: 0, sheep: 0, wheat: 0 }),
{
    ResourceCollection { clay: 1, wood: 1, ore: 0, sheep: 0, wheat: 0 }
}

/// What a village costs: one clay, one wood, one sheep and one wheat.
pub fn get_village_cost() -> (c: ResourceCollection)
    ensures
        c == (ResourceCollection { clay: 1, wood: 1, ore: 0, sheep: 1, wheat: 1 }),
{
    ResourceCollection { clay: 1, wood: 1, ore: 0, sheep: 1, wheat: 1 }
}

/// What a city costs: three ore and two wheat.
pub fn get_city_cost() -> (c: ResourceCollection)
    ensures
        c == (ResourceCollection { clay: 0, wood: 0, ore: 3, sheep: 0, wheat: 2 }),
{
    ResourceCollection { clay: 0, wood: 0, ore: 3, sheep: 0, wheat: 2 }
}

/// What a development card costs: one ore, one sheep and one wheat.
pub fn get_development_card_cost() -> (c: ResourceCollection)
    ensures
        c == (ResourceCollection { clay: 0, wood: 0, ore: 1, sheep: 1, wheat: 1 }),
{
    ResourceCollection { clay: 0, wood: 0, ore: 1, sheep: 1, wheat: 1 }
}

} // verus!
