//! Resource kinds, per-resource stock counts, and the storage that applies
//! a registry of standing updates to its stocks once per tick.
//!
//! The storage keeps one count per resource, clamped to that count's
//! capacity, and an update registry ordered by update identity.  Each tick
//! applies every registered update: additions and subtractions first, in
//! identity order, then the percentage updates.

use vstd::prelude::*;

use crate::game::GameId;

verus! {

/// A resource as it comes out of the ground.
#[derive(Debug, Clone, Copy, PartialEq, Eq, Structural, Hash)]
pub enum RawResource {
    /// Iron ore.
    Iron,
    /// Coal.
    Coal,
    /// Crude oil.
    Oil,
    /// Natural rubber.
    Rubber,
    /// Raw wood.
    Wood,
    /// Quarried stone.
    Stone,
    /// Sulfur.
    Sulfur,
}

/// A resource refined from raw ones.
#[derive(Debug, Clone, Copy, PartialEq, Eq, Structural, Hash)]
pub enum ProcessedResource {
    /// Steel.
    Steel,
    /// Plastic.
    Plastic,
    /// Fuel.
    Fuel,
    /// Processed rubber.
    Rubber,
    /// Lumber.
    Lumber,
    /// Concrete.
    Concrete,
    /// Gunpowder.
    Gunpowder,
}

/// Any resource, raw or processed.
#[derive(Debug, Clone, Copy, PartialEq, Eq, Structural, Hash)]
pub enum Resource {
    /// A raw resource.
    Raw(RawResource),
    /// A processed resource.
    Processed(ProcessedResource),
}

/// The stock of one resource: how much is held and how much fits.
#[derive(Debug, Clone, Copy, PartialEq, Eq, Structural)]
pub struct ResourceCount {
    /// The resource counted.
    pub resource: Resource,
    /// Capacity: the stock is clamped to this.
    pub max: u32,
    /// The held amount.
    pub amount: u32,
}

/// A fresh, empty stock of the given resource: nothing held, nothing fits
/// until capacity is granted.
pub open spec fn new_count(resource: Resource) -> ResourceCount {
    ResourceCount { resource, max: 0, amount: 0 }
}

impl From<Resource> for ResourceCount {
    /// A fresh, empty stock of the given resource.
    fn from(value: Resource) -> (r: ResourceCount) {
        ResourceCount { resource: value, max: 0, amount: 0 }
    }
}

impl vstd::std_specs::convert::FromSpecImpl<Resource> for ResourceCount {
    open spec fn obeys_from_spec() -> bool {
        true
    }

    open spec fn from_spec(v: Resource) -> ResourceCount {
        new_count(v)
    }
}

/// One standing change to a resource stock.
pub struct ResourceUpdate {
    id: GameId,
    title: String,
    description: &'static str,
    resource: Resource,
    amount: u32,
}

impl ResourceUpdate {
    /// The update's own identity.
    pub closed spec fn id_spec(self) -> GameId {
        self.id
    }

    /// The update's display title.
    pub closed spec fn title_spec(self) -> Seq<char> {
        self.title@
    }

    /// The update's description.
    pub closed spec fn description_spec(self) -> Seq<char> {
        self.description@
    }

    /// The resource the update touches.
    pub closed spec fn resource_spec(self) -> Resource {
        self.resource
    }

    /// The update's magnitude: an amount, or a percentage.
    pub closed spec fn amount_spec(self) -> u32 {
        self.amount
    }

    /// A standing update of the given resource by the given magnitude.
    pub fn new(
        id: GameId,
        title: String,
        description: &'static str,
        resource: Resource,
        amount: u32,
    ) -> (r: ResourceUpdate)
        ensures
            r.id_spec() == id,
            r.title_spec() == title@,
            r.description_spec() == description@,
            r.resource_spec() == resource,
            r.amount_spec() == amount,
    {
        ResourceUpdate { id, title, description, resource, amount }
    }
}

/// How a standing update changes its resource's stock each tick.
pub enum StorageUpdateStats {
    /// Adds the amount, clamped to capacity.
    Add(ResourceUpdate),
    /// Subtracts the amount; the stock stops at zero.
    Sub(ResourceUpdate),
    /// Grows the stock by a percentage of itself, clamped to capacity; a
    /// percentage of one hundred or more does nothing.
    Percent(ResourceUpdate),
}

/// An addition applied to one stock: the amount grows by `amt` and is
/// clamped to capacity.
pub open spec fn add_applied(c: ResourceCount, amt: u32) -> ResourceCount {
    if c.amount + amt > c.max {
        ResourceCount { resource: c.resource, max: c.max, amount: c.max }
    } else {
        ResourceCount { resource: c.resource, max: c.max, amount: (c.amount + amt) as u32 }
    }
}

/// A subtraction applied to one stock: the amount shrinks by `amt`,
/// stopping at zero, and is clamped to capacity.
pub open spec fn sub_applied(c: ResourceCount, amt: u32) -> ResourceCount {
    let diff = if c.amount >= amt {
        (c.amount - amt) as u32
    } else {
        0u32
    };
    if diff > c.max {
        ResourceCount { resource: c.resource, max: c.max, amount: c.max }
    } else {
        ResourceCount { resource: c.resource, max: c.max, amount: diff }
    }
}

/// A percentage applied to one stock: for a percentage below one hundred
/// the amount grows by `amount * (p / 100)` — zero under whole-number
/// division — clamped to capacity; any other percentage does nothing.
pub open spec fn percent_applied(c: ResourceCount, p: u32) -> ResourceCount {
    if p < 100 {
        let sum = c.amount + c.amount * (p as int / 100);
        if sum > c.max {
            ResourceCount { resource: c.resource, max: c.max, amount: c.max }
        } else {
            ResourceCount { resource: c.resource, max: c.max, amount: sum as u32 }
        }
    } else {
        c
    }
}

/// The stocks as a map from resource to its count.
pub open spec fn res_map_of(s: Seq<ResourceCount>) -> Map<Resource, ResourceCount>
    decreases s.len(),
{
    if s.len() == 0 {
        Map::empty()
    } else {
        res_map_of(s.drop_last()).insert(s.last().resource, s.last())
    }
}

/// At most one stock per resource.
pub open spec fn distinct_resources(s: Seq<ResourceCount>) -> bool {
    forall|i: int, j: int|
        0 <= i < j < s.len() ==> (#[trigger] s[i]).resource != (#[trigger] s[j]).resource
}

/// Every stock within its capacity.
pub open spec fn stocks_clamped(s: Seq<ResourceCount>) -> bool {
    forall|i: int| 0 <= i < s.len() ==> (#[trigger] s[i]).amount <= s[i].max
}

/// The update registry as a map from update identity to the update.
pub open spec fn upd_map_of(s: Seq<(GameId, StorageUpdateStats)>) -> Map<
    GameId,
    StorageUpdateStats,
>
    decreases s.len(),
{
    if s.len() == 0 {
        Map::empty()
    } else {
        upd_map_of(s.drop_last()).insert(s.last().0, s.last().1)
    }
}

/// The update registry strictly ordered by update identity.
pub open spec fn updates_sorted(s: Seq<(GameId, StorageUpdateStats)>) -> bool {
    forall|i: int, j: int| 0 <= i < j < s.len() ==> (#[trigger] s[i]).0 < (#[trigger] s[j]).0
}

/// The ordered registry with the update registered under `id`: inserted at
/// its identity's place, replacing whatever that identity held.
pub open spec fn insert_update(
    s: Seq<(GameId, StorageUpdateStats)>,
    id: GameId,
    u: StorageUpdateStats,
) -> Seq<(GameId, StorageUpdateStats)>
    decreases s.len(),
{
    if s.len() == 0 {
        seq![(id, u)]
    } else if s[0].0 < id {
        seq![s[0]] + insert_update(s.skip(1), id, u)
    } else if s[0].0 == id {
        seq![(id, u)] + s.skip(1)
    } else {
        seq![(id, u)] + s
    }
}

/// The ordered registry without the first update registered under `id`.
pub open spec fn remove_update(s: Seq<(GameId, StorageUpdateStats)>, id: GameId) -> Seq<
    (GameId, StorageUpdateStats),
>
    decreases s.len(),
{
    if s.len() == 0 {
        s
    } else if s[0].0 == id {
        s.skip(1)
    } else {
        seq![s[0]] + remove_update(s.skip(1), id)
    }
}

/// How [`insert_update`] relates to a scan: with every update before `i`
/// under a smaller identity and the one at `i` — if any — under an equal or
/// larger one, the insertion is a replacement at `i` on equality and an
/// insertion at `i` otherwise.
proof fn lemma_insert_update_form(
    s: Seq<(GameId, StorageUpdateStats)>,
    i: int,
    id: GameId,
    u: StorageUpdateStats,
)
    requires
        0 <= i <= s.len(),
        forall|j: int| 0 <= j < i ==> (#[trigger] s[j]).0 < id,
        i < s.len() ==> s[i].0 >= id,
    ensures
        (i < s.len() && s[i].0 == id) ==> insert_update(s, id, u) =~= s.update(i, (id, u)),
        !(i < s.len() && s[i].0 == id) ==> insert_update(s, id, u) =~= s.insert(i, (id, u)),
    decreases s.len(),
{
    if i == 0 {
        if s.len() == 0 {
            assert(insert_update(s, id, u) =~= s.insert(0, (id, u)));
        } else if s[0].0 == id {
            assert(seq![(id, u)] + s.skip(1) =~= s.update(0, (id, u)));
        } else {
            assert(s[0].0 > id);
            assert(seq![(id, u)] + s =~= s.insert(0, (id, u)));
        }
    } else {
        let st = s.skip(1);
        assert(s[0].0 < id);
        assert(forall|j: int| 0 <= j < i - 1 ==> (#[trigger] st[j]).0 < id);
        lemma_insert_update_form(st, i - 1, id, u);
        if i < s.len() && s[i].0 == id {
            assert(st[i - 1].0 == id);
            assert(seq![s[0]] + st.update(i - 1, (id, u)) =~= s.update(i, (id, u)));
        } else {
            assert(seq![s[0]] + st.insert(i - 1, (id, u)) =~= s.insert(i, (id, u)));
        }
    }
}

/// How [`remove_update`] relates to a scan: with every update before `i`
/// under another identity, removal removes position `i` when it carries the
/// identity, and nothing when the scan ran out.
proof fn lemma_remove_update_form(s: Seq<(GameId, StorageUpdateStats)>, i: int, id: GameId)
    requires
        0 <= i <= s.len(),
        forall|j: int| 0 <= j < i ==> (#[trigger] s[j]).0 != id,
        i < s.len() ==> s[i].0 == id,
    ensures
        i < s.len() ==> remove_update(s, id) =~= s.remove(i),
        i == s.len() ==> remove_update(s, id) =~= s,
    decreases s.len(),
{
    if i == 0 {
        if s.len() > 0 {
            assert(s.skip(1) =~= s.remove(0));
        }
    } else {
        let st = s.skip(1);
        assert(s[0].0 != id);
        assert(forall|j: int| 0 <= j < i - 1 ==> (#[trigger] st[j]).0 != id);
        lemma_remove_update_form(st, i - 1, id);
        if i < s.len() {
            assert(seq![s[0]] + st.remove(i - 1) =~= s.remove(i));
        } else {
            assert(seq![s[0]] + st =~= s);
        }
    }
}

/// One addition or subtraction applied to the stocks: an existing stock is
/// modified; a missing one is created empty, the change not applied to it.
pub open spec fn apply_amount(
    m: Map<Resource, ResourceCount>,
    res: Resource,
    amt: u32,
    add: bool,
) -> Map<Resource, ResourceCount> {
    if m.contains_key(res) {
        if add {
            m.insert(res, add_applied(m[res], amt))
        } else {
            m.insert(res, sub_applied(m[res], amt))
        }
    } else {
        m.insert(res, new_count(res))
    }
}

/// One percentage applied to the stocks: an existing stock is modified; a
/// missing one is created empty.
pub open spec fn apply_percent(m: Map<Resource, ResourceCount>, res: Resource, p: u32) -> Map<
    Resource,
    ResourceCount,
> {
    if m.contains_key(res) {
        m.insert(res, percent_applied(m[res], p))
    } else {
        m.insert(res, new_count(res))
    }
}

/// The first pass of a tick: every addition and subtraction, in registry
/// order; percentage updates wait for the second pass.
pub open spec fn pass_amounts(
    m: Map<Resource, ResourceCount>,
    updates: Seq<(GameId, StorageUpdateStats)>,
) -> Map<Resource, ResourceCount>
    decreases updates.len(),
{
    if updates.len() == 0 {
        m
    } else {
        let rest = pass_amounts(m, updates.drop_last());
        match updates.last().1 {
            StorageUpdateStats::Add(u) => apply_amount(rest, u.resource_spec(), u.amount_spec(), true),
            StorageUpdateStats::Sub(u) => apply_amount(
                rest,
                u.resource_spec(),
                u.amount_spec(),
                false,
            ),
            StorageUpdateStats::Percent(_) => rest,
        }
    }
}

/// The percentage updates of the registry, in registry order.
pub open spec fn percent_list(updates: Seq<(GameId, StorageUpdateStats)>) -> Seq<(Resource, u32)>
    decreases updates.len(),
{
    if updates.len() == 0 {
        Seq::empty()
    } else {
        let rest = percent_list(updates.drop_last());
        match updates.last().1 {
            StorageUpdateStats::Percent(u) => rest.push((u.resource_spec(), u.amount_spec())),
            _ => rest,
        }
    }
}

/// The second pass of a tick: the percentage updates, in registry order.
pub open spec fn pass_percents(
    m: Map<Resource, ResourceCount>,
    ps: Seq<(Resource, u32)>,
) -> Map<Resource, ResourceCount>
    decreases ps.len(),
{
    if ps.len() == 0 {
        m
    } else {
        apply_percent(pass_percents(m, ps.drop_last()), ps.last().0, ps.last().1)
    }
}

/// What one tick does to the stocks: additions and subtractions in registry
/// order, then percentages in registry order.
pub open spec fn storage_tick_spec(
    m: Map<Resource, ResourceCount>,
    updates: Seq<(GameId, StorageUpdateStats)>,
) -> Map<Resource, ResourceCount> {
    pass_percents(pass_amounts(m, updates), percent_list(updates))
}

/// A stock at index `i` is what the stock map holds for its resource.
proof fn lemma_res_map_found(s: Seq<ResourceCount>, i: int)
    requires
        distinct_resources(s),
        0 <= i < s.len(),
    ensures
        res_map_of(s).contains_key(s[i].resource),
        res_map_of(s)[s[i].resource] == s[i],
    decreases s.len(),
{
    if i == s.len() - 1 {
    } else {
        lemma_res_map_found(s.drop_last(), i);
        assert(s.drop_last()[i] == s[i]);
    }
}

/// A resource no stock carries is absent from the stock map.
proof fn lemma_res_map_absent(s: Seq<ResourceCount>, r: Resource)
    requires
        forall|j: int| 0 <= j < s.len() ==> (#[trigger] s[j]).resource != r,
    ensures
        !res_map_of(s).contains_key(r),
    decreases s.len(),
{
    if s.len() > 0 {
        lemma_res_map_absent(s.drop_last(), r);
    }
}

/// Replacing the stock at index `i` by one of the same resource replaces
/// that resource's entry of the stock map and nothing else.
proof fn lemma_res_map_update(s: Seq<ResourceCount>, i: int, c: ResourceCount)
    requires
        distinct_resources(s),
        0 <= i < s.len(),
        c.resource == s[i].resource,
    ensures
        res_map_of(s.update(i, c)) =~= res_map_of(s).insert(c.resource, c),
    decreases s.len(),
{
    let s2 = s.update(i, c);
    if i == s.len() - 1 {
        assert(s2.drop_last() =~= s.drop_last());
        assert(s2.last() == c);
    } else {
        assert(s2.drop_last() =~= s.drop_last().update(i, c));
        assert(s.drop_last()[i] == s[i]);
        lemma_res_map_update(s.drop_last(), i, c);
        assert(s2.last() == s.last());
        assert(s.last().resource != c.resource);
    }
}

/// An identity no registered update carries is absent from the registry
/// map.
proof fn lemma_upd_map_absent(s: Seq<(GameId, StorageUpdateStats)>, id: GameId)
    requires
        forall|j: int| 0 <= j < s.len() ==> (#[trigger] s[j]).0 != id,
    ensures
        !upd_map_of(s).contains_key(id),
    decreases s.len(),
{
    if s.len() > 0 {
        lemma_upd_map_absent(s.drop_last(), id);
    }
}

/// Replacing the update at index `i` while keeping its identity replaces
/// that identity's entry of the registry map and nothing else.
proof fn lemma_upd_map_update(
    s: Seq<(GameId, StorageUpdateStats)>,
    i: int,
    u: StorageUpdateStats,
)
    requires
        updates_sorted(s),
        0 <= i < s.len(),
    ensures
        upd_map_of(s.update(i, (s[i].0, u))) =~= upd_map_of(s).insert(s[i].0, u),
    decreases s.len(),
{
    let s2 = s.update(i, (s[i].0, u));
    if i == s.len() - 1 {
        assert(s2.drop_last() =~= s.drop_last());
    } else {
        assert(s2.drop_last() =~= s.drop_last().update(i, (s[i].0, u)));
        assert(s.drop_last()[i] == s[i]);
        lemma_upd_map_update(s.drop_last(), i, u);
        assert(s2.last() == s.last());
        assert(s.last().0 != s[i].0);
    }
}

/// Inserting an update of a fresh identity at position `i` adds exactly
/// that identity's entry to the registry map.
proof fn lemma_upd_map_insert(
    s: Seq<(GameId, StorageUpdateStats)>,
    i: int,
    id: GameId,
    u: StorageUpdateStats,
)
    requires
        0 <= i <= s.len(),
        forall|j: int| 0 <= j < s.len() ==> (#[trigger] s[j]).0 != id,
    ensures
        upd_map_of(s.insert(i, (id, u))) =~= upd_map_of(s).insert(id, u),
    decreases s.len(),
{
    let s2 = s.insert(i, (id, u));
    if i == s.len() {
        assert(s2.drop_last() =~= s);
        assert(s2.last() == (id, u));
    } else {
        assert(s2.drop_last() =~= s.drop_last().insert(i, (id, u)));
        assert(s2.last() == s.last());
        lemma_upd_map_insert(s.drop_last(), i, id, u);
        assert(s.last().0 != id);
    }
}

/// Removing the update at index `i` removes exactly its identity's entry
/// from the registry map.
proof fn lemma_upd_map_remove(s: Seq<(GameId, StorageUpdateStats)>, i: int)
    requires
        updates_sorted(s),
        0 <= i < s.len(),
    ensures
        upd_map_of(s.remove(i)) =~= upd_map_of(s).remove(s[i].0),
    decreases s.len(),
{
    let s2 = s.remove(i);
    if i == s.len() - 1 {
        assert(s2 =~= s.drop_last());
        assert forall|j: int| 0 <= j < s.drop_last().len() implies (#[trigger] s.drop_last()[j]).0
            != s[i].0 by {
            assert(s.drop_last()[j] == s[j]);
        }
        lemma_upd_map_absent(s.drop_last(), s[i].0);
    } else {
        assert(s2.drop_last() =~= s.drop_last().remove(i));
        assert(s2.last() == s.last());
        assert(s.drop_last()[i] == s[i]);
        lemma_upd_map_remove(s.drop_last(), i);
        assert(s.last().0 != s[i].0);
    }
}

/// Applies one addition or subtraction to the stocks held as a vector:
/// the first stock of the resource is modified in place; a missing one is
/// created empty, the change not applied to it.
fn apply_amount_to(resources: &mut Vec<ResourceCount>, res: Resource, amt: u32, add: bool)
    requires
        distinct_resources(old(resources)@),
        stocks_clamped(old(resources)@),
    ensures
        distinct_resources(final(resources)@),
        stocks_clamped(final(resources)@),
        res_map_of(final(resources)@) == apply_amount(res_map_of(old(resources)@), res, amt, add),
{
    let ghost pre = resources@;
    let n = resources.len();
    let mut i: usize = 0;
    while i < n
        invariant
            resources@ == pre,
            pre == old(resources)@,
            distinct_resources(pre),
            stocks_clamped(pre),
            n == pre.len(),
            i <= n,
            forall|j: int| 0 <= j < i ==> (#[trigger] pre[j]).resource != res,
        decreases n - i,
    {
        if resources[i].resource == res {
            let c = resources[i];
            let new_amount: u32 = if add {
                let sum = c.amount as u64 + amt as u64;
                if sum > c.max as u64 {
                    c.max
                } else {
                    sum as u32
                }
            } else {
                let diff = if c.amount >= amt {
                    c.amount - amt
                } else {
                    0
                };
                if diff > c.max {
                    c.max
                } else {
                    diff
                }
            };
            let updated = ResourceCount { resource: c.resource, max: c.max, amount: new_amount };
            resources[i] = updated;
            proof {
                assert(updated == if add {
                    add_applied(c, amt)
                } else {
                    sub_applied(c, amt)
                });
                lemma_res_map_found(pre, i as int);
                lemma_res_map_update(pre, i as int, updated);
                assert(res_map_of(resources@) =~= apply_amount(res_map_of(pre), res, amt, add));
                assert forall|a: int, b: int|
                    0 <= a < b < resources@.len() implies (#[trigger] resources@[a]).resource != (
                #[trigger] resources@[b]).resource by {
                    assert(pre[a].resource == resources@[a].resource);
                    assert(pre[b].resource == resources@[b].resource);
                }
            }
            return ;
        }
        i = i + 1;
    }
    resources.push(ResourceCount::from(res));
    proof {
        lemma_res_map_absent(pre, res);
        assert(resources@.drop_last() =~= pre);
        assert(res_map_of(resources@) =~= apply_amount(res_map_of(pre), res, amt, add));
    }
}

/// Applies one percentage update to the stocks held as a vector: the first
/// stock of the resource is modified in place; a missing one is created
/// empty.
fn apply_percent_to(resources: &mut Vec<ResourceCount>, res: Resource, p: u32)
    requires
        distinct_resources(old(resources)@),
        stocks_clamped(old(resources)@),
    ensures
        distinct_resources(final(resources)@),
        stocks_clamped(final(resources)@),
        res_map_of(final(resources)@) == apply_percent(res_map_of(old(resources)@), res, p),
{
    let ghost pre = resources@;
    let n = resources.len();
    let mut i: usize = 0;
    while i < n
        invariant
            resources@ == pre,
            pre == old(resources)@,
            distinct_resources(pre),
            stocks_clamped(pre),
            n == pre.len(),
            i <= n,
            forall|j: int| 0 <= j < i ==> (#[trigger] pre[j]).resource != res,
        decreases n - i,
    {
        if resources[i].resource == res {
            let c = resources[i];
            let new_amount: u32 = if p < 100 {
                let bonus = c.amount * (p / 100);
                let sum = c.amount as u64 + bonus as u64;
                if sum > c.max as u64 {
                    c.max
                } else {
                    sum as u32
                }
            } else {
                c.amount
            };
            let updated = ResourceCount { resource: c.resource, max: c.max, amount: new_amount };
            resources[i] = updated;
            proof {
                assert(updated == percent_applied(c, p));
                lemma_res_map_found(pre, i as int);
                lemma_res_map_update(pre, i as int, updated);
                assert(res_map_of(resources@) =~= apply_percent(res_map_of(pre), res, p));
                assert forall|a: int, b: int|
                    0 <= a < b < resources@.len() implies (#[trigger] resources@[a]).resource != (
                #[trigger] resources@[b]).resource by {
                    assert(pre[a].resource == resources@[a].resource);
                    assert(pre[b].resource == resources@[b].resource);
                }
            }
            return ;
        }
        i = i + 1;
    }
    resources.push(ResourceCount::from(res));
    proof {
        lemma_res_map_absent(pre, res);
        assert(resources@.drop_last() =~= pre);
        assert(res_map_of(resources@) =~= apply_percent(res_map_of(pre), res, p));
    }
}

/// Holds every resource stock and the registry of standing updates applied
/// to the stocks each tick.
pub struct ResourceStorage {
    resources: Vec<ResourceCount>,
    updates: Vec<(GameId, StorageUpdateStats)>,
}

impl ResourceStorage {
    /// The stocks, one per resource.
    pub closed spec fn resources_view(self) -> Seq<ResourceCount> {
        self.resources@
    }

    /// The update registry, ordered by update identity.
    pub closed spec fn updates_view(self) -> Seq<(GameId, StorageUpdateStats)> {
        self.updates@
    }

    /// The stocks as a map from resource to count.
    pub open spec fn res_map(self) -> Map<Resource, ResourceCount> {
        res_map_of(self.resources_view())
    }

    /// The update registry as a map from identity to update.
    pub open spec fn updates_map(self) -> Map<GameId, StorageUpdateStats> {
        upd_map_of(self.updates_view())
    }

    /// Well-formed: one stock per resource, every stock within capacity,
    /// and the registry strictly ordered by identity.
    pub open spec fn wf(self) -> bool {
        distinct_resources(self.resources_view()) && stocks_clamped(self.resources_view())
            && updates_sorted(self.updates_view())
    }
}

impl Default for ResourceStorage {
    /// An empty storage: no stocks, no standing updates.
    fn default() -> (r: ResourceStorage)
        ensures
            r.wf(),
            r.resources_view().len() == 0,
            r.updates_view().len() == 0,
    {
        ResourceStorage { resources: Vec::new(), updates: Vec::new() }
    }
}

impl ResourceStorage {
    /// The stock of the given resource, if one is held.
    pub fn resource_count(&self, resource: Resource) -> (r: Option<ResourceCount>)
        requires
            self.wf(),
        ensures
            r == if self.res_map().contains_key(resource) {
                Some(self.res_map()[resource])
            } else {
                Option::<ResourceCount>::None
            },
    {
        let ghost s = self.resources_view();
        let n = self.resources.len();
        let mut i: usize = 0;
        while i < n
            invariant
                s == self.resources_view(),
                self.wf(),
                n == s.len(),
                i <= n,
                forall|j: int| 0 <= j < i ==> (#[trigger] s[j]).resource != resource,
            decreases n - i,
        {
            if self.resources[i].resource == resource {
                proof {
                    lemma_res_map_found(s, i as int);
                }
                return Some(self.resources[i]);
            }
            i = i + 1;
        }
        proof {
            lemma_res_map_absent(s, resource);
        }
        None
    }

    /// Registers the update under the given identity — replacing whatever
    /// the identity held — and applies a tick to the stocks at once.
    pub fn add_update_storage(&mut self, id: GameId, storage: StorageUpdateStats)
        requires
            old(self).wf(),
        ensures
            final(self).wf(),
            final(self).updates_view() == insert_update(old(self).updates_view(), id, storage),
            final(self).updates_map() == old(self).updates_map().insert(id, storage),
            final(self).res_map() == storage_tick_spec(
                old(self).res_map(),
                final(self).updates_view(),
            ),
    {
        let ghost pre = self.updates@;
        let n = self.updates.len();
        let mut i: usize = 0;
        while i < n && self.updates[i].0 < id
            invariant
                pre == self.updates@,
                pre == old(self).updates_view(),
                self.resources@ == old(self).resources_view(),
                old(self).wf(),
                n == pre.len(),
                i <= n,
                forall|j: int| 0 <= j < i ==> (#[trigger] pre[j]).0 < id,
            decreases n - i,
        {
            i = i + 1;
        }
        proof {
            lemma_insert_update_form(pre, i as int, id, storage);
        }
        if i < n && self.updates[i].0 == id {
            self.updates[i] = (id, storage);
            proof {
                assert(self.updates@ =~= pre.update(i as int, (pre[i as int].0, storage)));
                assert(self.updates@ =~= insert_update(pre, id, storage));
                lemma_upd_map_update(pre, i as int, storage);
                assert forall|a: int, b: int|
                    0 <= a < b < self.updates@.len() implies (#[trigger] self.updates@[a]).0 < (
                #[trigger] self.updates@[b]).0 by {
                    assert(pre[a].0 == self.updates@[a].0);
                    assert(pre[b].0 == self.updates@[b].0);
                }
            }
        } else {
            proof {
                assert forall|j: int| 0 <= j < pre.len() implies (#[trigger] pre[j]).0 != id by {
                    if j == i {
                        assert(pre[i as int].0 >= id);
                    } else if j > i {
                        assert(pre[i as int].0 >= id);
                        assert(pre[i as int].0 < pre[j].0);
                    }
                }
                lemma_upd_map_insert(pre, i as int, id, storage);
            }
            self.updates.insert(i, (id, storage));
            proof {
                let post = self.updates@;
                assert(post =~= insert_update(pre, id, storage));
                assert forall|a: int, b: int|
                    0 <= a < b < post.len() implies (#[trigger] post[a]).0 < (
                #[trigger] post[b]).0 by {
                    if b < i {
                    } else if a < i && b == i {
                        assert(post[a] == pre[a]);
                    } else if a < i && b > i {
                        assert(post[a] == pre[a] && post[b] == pre[b - 1]);
                    } else if a == i {
                        assert(post[b] == pre[b - 1]);
                        assert(i <= b - 1 < pre.len());
                        assert(pre[i as int].0 > id);
                        assert(pre[i as int].0 <= pre[b - 1].0);
                    } else {
                        assert(post[a] == pre[a - 1] && post[b] == pre[b - 1]);
                    }
                }
            }
        }
        self.tick();
    }

    /// Unregisters the identity's standing update, if any; the stocks are
    /// untouched.
    pub fn remove(&mut self, id: GameId)
        requires
            old(self).wf(),
        ensures
            final(self).wf(),
            final(self).updates_view() == remove_update(old(self).updates_view(), id),
            final(self).updates_map() == old(self).updates_map().remove(id),
            final(self).resources_view() == old(self).resources_view(),
    {
        let ghost pre = self.updates@;
        let n = self.updates.len();
        let mut i: usize = 0;
        while i < n
            invariant
                pre == self.updates@,
                pre == old(self).updates_view(),
                self.resources@ == old(self).resources_view(),
                old(self).wf(),
                n == pre.len(),
                i <= n,
                forall|j: int| 0 <= j < i ==> (#[trigger] pre[j]).0 != id,
            decreases n - i,
        {
            if self.updates[i].0 == id {
                proof {
                    lemma_upd_map_remove(pre, i as int);
                    lemma_remove_update_form(pre, i as int, id);
                }
                self.updates.remove(i);
                proof {
                    let post = self.updates@;
                    assert(post =~= pre.remove(i as int));
                    assert(post =~= remove_update(pre, id));
                    assert forall|a: int, b: int|
                        0 <= a < b < post.len() implies (#[trigger] post[a]).0 < (
                    #[trigger] post[b]).0 by {
                        if b < i {
                        } else if a < i {
                            assert(post[a] == pre[a] && post[b] == pre[b + 1]);
                        } else {
                            assert(post[a] == pre[a + 1] && post[b] == pre[b + 1]);
                        }
                    }
                }
                return ;
            }
            i = i + 1;
        }
        proof {
            lemma_upd_map_absent(pre, id);
            assert(upd_map_of(pre).remove(id) =~= upd_map_of(pre));
            lemma_remove_update_form(pre, n as int, id);
        }
    }

    /// Applies every standing update to the stocks once: additions and
    /// subtractions in registry order, then percentages in registry order.
    /// The registry itself is untouched.
    pub fn tick(&mut self)
        requires
            old(self).wf(),
        ensures
            final(self).wf(),
            final(self).updates_view() == old(self).updates_view(),
            final(self).res_map() == storage_tick_spec(
                old(self).res_map(),
                old(self).updates_view(),
            ),
    {
        let ghost ups = self.updates@;
        let ghost m0 = res_map_of(self.resources@);
        let mut percents: Vec<(Resource, u32)> = Vec::new();
        let n = self.updates.len();
        let mut i: usize = 0;
        while i < n
            invariant
                ups == self.updates@,
                n == ups.len(),
                i <= n,
                updates_sorted(ups),
                distinct_resources(self.resources@),
                stocks_clamped(self.resources@),
                res_map_of(self.resources@) == pass_amounts(m0, ups.take(i as int)),
                percents@ == percent_list(ups.take(i as int)),
            decreases n - i,
        {
            proof {
                assert(ups.take(i + 1).drop_last() =~= ups.take(i as int));
                assert(ups.take(i + 1).last() == ups[i as int]);
            }
            match &self.updates[i].1 {
                StorageUpdateStats::Add(u) => {
                    apply_amount_to(&mut self.resources, u.resource, u.amount, true);
                },
                StorageUpdateStats::Sub(u) => {
                    apply_amount_to(&mut self.resources, u.resource, u.amount, false);
                },
                StorageUpdateStats::Percent(u) => {
                    percents.push((u.resource, u.amount));
                },
            }
            i = i + 1;
        }
        proof {
            assert(ups.take(n as int) =~= ups);
        }
        let ghost m1 = res_map_of(self.resources@);
        let ghost ps = percents@;
        let pn = percents.len();
        let mut k: usize = 0;
        while k < pn
            invariant
                ups == self.updates@,
                ps == percents@,
                pn == ps.len(),
                k <= pn,
                distinct_resources(self.resources@),
                stocks_clamped(self.resources@),
                res_map_of(self.resources@) == pass_percents(m1, ps.take(k as int)),
            decreases pn - k,
        {
            proof {
                assert(ps.take(k + 1).drop_last() =~= ps.take(k as int));
                assert(ps.take(k + 1).last() == ps[k as int]);
            }
            let entry = percents[k];
            apply_percent_to(&mut self.resources, entry.0, entry.1);
            k = k + 1;
        }
        proof {
            assert(ps.take(pn as int) =~= ps);
        }
    }
}

} // verus!
