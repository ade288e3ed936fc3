//! Health of storage pools: its names, the record of what was last seen of
//! each pool, and the changes that a new observation brings.

use vstd::hash_map::StringHashMap;
use vstd::prelude::*;

verus! {

/// Health of a storage pool, as the operating system reports it.
#[derive(Clone, Copy, Debug, PartialEq, Eq, Structural)]
pub enum Health {
    /// A spare that is ready to take over.
    Available,
    /// Not healthy, but working.
    Degraded,
    /// Not working.
    Faulted,
    /// Taken out of service by hand.
    Offline,
    /// Healthy and working.
    Online,
    /// Pulled out while the system was running.
    Removed,
    /// Cannot be opened.
    Unavailable,
}

/// The upper-case name under which a health value appears in messages.
pub open spec fn health_name(health: Health) -> Seq<char> {
    match health {
        Health::Available => "AVAILABLE"@,
        Health::Degraded => "DEGRADED"@,
        Health::Faulted => "FAULTED"@,
        Health::Offline => "OFFLINE"@,
        Health::Online => "ONLINE"@,
        Health::Removed => "REMOVED"@,
        Health::Unavailable => "UNAVAILABLE"@,
    }
}

/// Renders a health value as its upper-case name.
pub fn zpool_health_to_string(health: &Health) -> (name: String)
    ensures
        name@ == health_name(*health),
{
    match *health {
        Health::Available => String::from_str("AVAILABLE"),
        Health::Degraded => String::from_str("DEGRADED"),
        Health::Faulted => String::from_str("FAULTED"),
        Health::Offline => String::from_str("OFFLINE"),
        Health::Online => String::from_str("ONLINE"),
        Health::Removed => String::from_str("REMOVED"),
        Health::Unavailable => String::from_str("UNAVAILABLE"),
    }
}

/// A pool as it was observed: its name and its health.
#[derive(Clone, Debug, PartialEq, Eq)]
pub struct PoolStatus {
    pub name: String,
    pub health: Health,
}

/// A `PoolStatus` with its name as a sequence of characters.
pub struct PoolStatusView {
    pub name: Seq<char>,
    pub health: Health,
}

impl View for PoolStatus {
    type V = PoolStatusView;

    open spec fn view(&self) -> PoolStatusView {
        PoolStatusView { name: self.name@, health: self.health }
    }
}

impl DeepView for PoolStatus {
    type V = PoolStatusView;

    open spec fn deep_view(&self) -> PoolStatusView {
        self@
    }
}

/// The report that a known pool has entered another state of health.
#[derive(Clone, Debug, PartialEq, Eq)]
pub struct HealthChanged {
    pub name: String,
    pub health: Health,
}

impl View for HealthChanged {
    type V = PoolStatusView;

    open spec fn view(&self) -> PoolStatusView {
        PoolStatusView { name: self.name@, health: self.health }
    }
}

impl DeepView for HealthChanged {
    type V = PoolStatusView;

    open spec fn deep_view(&self) -> PoolStatusView {
        self@
    }
}

/// Whether `pool` is known to `known` under another health than it has now.
pub open spec fn is_change(known: Map<Seq<char>, Health>, pool: PoolStatusView) -> bool {
    known.contains_key(pool.name) && known[pool.name] != pool.health
}

/// The record after the pools `observed` were seen, one after the other: each
/// stands in it with the health it was last seen in.
pub open spec fn healths_after(
    known: Map<Seq<char>, Health>,
    observed: Seq<PoolStatusView>,
) -> Map<Seq<char>, Health>
    decreases observed.len(),
{
    if observed.len() == 0 {
        known
    } else {
        healths_after(known, observed.drop_last()).insert(
            observed.last().name,
            observed.last().health,
        )
    }
}

/// Whether the pool at position `i` of `observed` is reported: the record, as
/// it stands when the pools before it were seen, knows it under another health.
pub open spec fn reported_at(
    known: Map<Seq<char>, Health>,
    observed: Seq<PoolStatusView>,
    i: int,
) -> bool {
    is_change(healths_after(known, observed.take(i)), observed[i])
}

/// The pools of `observed` that are reported, in the order of `observed`.
pub open spec fn changes(
    known: Map<Seq<char>, Health>,
    observed: Seq<PoolStatusView>,
) -> Seq<PoolStatusView>
    decreases observed.len(),
{
    if observed.len() == 0 {
        Seq::empty()
    } else {
        let before = changes(known, observed.drop_last());
        if is_change(healths_after(known, observed.drop_last()), observed.last()) {
            before.push(observed.last())
        } else {
            before
        }
    }
}

/// The health in which each pool was last seen. A pool, once recorded, stays
/// recorded: there is no way to remove one.
pub struct PoolHealthMap {
    pools: StringHashMap<Health>,
}

impl View for PoolHealthMap {
    type V = Map<Seq<char>, Health>;

    closed spec fn view(&self) -> Map<Seq<char>, Health> {
        self.pools@
    }
}

impl PoolHealthMap {
    /// A record of no pool.
    pub fn new() -> (map: PoolHealthMap)
        ensures
            map@ == Map::<Seq<char>, Health>::empty(),
    {
        PoolHealthMap { pools: StringHashMap::new() }
    }

    /// The health in which the pool `name` was last seen, if it was ever seen.
    pub fn get(&self, name: &str) -> (health: Option<Health>)
        ensures
            health == if self@.contains_key(name@) {
                Some(self@[name@])
            } else {
                None
            },
    {
        match self.pools.get(name) {
            Some(health) => Some(*health),
            None => None,
        }
    }

    /// Records `health` for the pool `name`, whether or not it was known.
    pub fn record(&mut self, name: String, health: Health)
        ensures
            final(self)@ == old(self)@.insert(name@, health),
    {
        self.pools.insert(name, health);
    }

    /// Takes in the pools `observed`, in their order. A pool not seen before
    /// is recorded and not reported. A pool known under another health is
    /// reported and recorded anew. A pool that is not among `observed` stays
    /// as it was.
    pub fn reconcile(&mut self, observed: &Vec<PoolStatus>) -> (events: Vec<HealthChanged>)
        ensures
            final(self)@ == healths_after(old(self)@, observed.deep_view()),
            events.deep_view() == changes(old(self)@, observed.deep_view()),
    {
        let ghost known = self@;
        let ghost all = observed.deep_view();
        let mut events: Vec<HealthChanged> = Vec::new();
        let mut i: usize = 0;
        while i < observed.len()
            invariant
                i <= observed.len(),
                all == observed.deep_view(),
                self@ == healths_after(known, all.take(i as int)),
                events.deep_view() == changes(known, all.take(i as int)),
            decreases observed.len() - i,
        {
            let ghost record = self@;
            assert(all.take(i + 1).drop_last() =~= all.take(i as int));
            let pool = &observed[i];
            match self.get(pool.name.as_str()) {
                Some(previous) => {
                    if previous != pool.health {
                        events.push(
                            HealthChanged { name: pool.name.clone(), health: pool.health },
                        );
                        self.record(pool.name.clone(), pool.health);
                    } else {
                        assert(record.insert(pool.name@, pool.health) =~= record);
                    }
                },
                None => {
                    self.record(pool.name.clone(), pool.health);
                },
            }
            i += 1;
        }
        assert(all.take(observed.len() as int) =~= all);
        events
    }
}

/// Whether one of the pools `observed` has the name `name`.
pub open spec fn is_observed(observed: Seq<PoolStatusView>, name: Seq<char>) -> bool {
    exists|i: int| 0 <= i < observed.len() && (#[trigger] observed[i]).name == name
}

/// A pool, once recorded, stays recorded: taking in observations removes
/// none.
pub proof fn lemma_pools_stay_recorded(
    known: Map<Seq<char>, Health>,
    observed: Seq<PoolStatusView>,
    name: Seq<char>,
)
    requires
        known.contains_key(name),
    ensures
        healths_after(known, observed).contains_key(name),
    decreases observed.len(),
{
    if observed.len() > 0 {
        lemma_pools_stay_recorded(known, observed.drop_last(), name);
    }
}

/// A pool that is not among those observed stays as it was: recorded with
/// the health it had, or not recorded.
pub proof fn lemma_absent_pool_is_untouched(
    known: Map<Seq<char>, Health>,
    observed: Seq<PoolStatusView>,
    name: Seq<char>,
)
    requires
        !is_observed(observed, name),
    ensures
        healths_after(known, observed).contains_key(name) == known.contains_key(name),
        known.contains_key(name) ==> healths_after(known, observed)[name] == known[name],
    decreases observed.len(),
{
    if observed.len() > 0 {
        let before = observed.drop_last();
        assert(!is_observed(before, name)) by {
            if is_observed(before, name) {
                let i = choose|i: int| 0 <= i < before.len() && (#[trigger] before[i]).name == name;
                assert(observed[i].name == name);
            }
        }
        lemma_absent_pool_is_untouched(known, before, name);
    }
}

/// Every pool observed is recorded afterwards, with the health in which it
/// was seen last.
pub proof fn lemma_observed_pool_is_recorded(
    known: Map<Seq<char>, Health>,
    observed: Seq<PoolStatusView>,
    i: int,
)
    requires
        0 <= i < observed.len(),
        !is_observed(observed.skip(i + 1), observed[i].name),
    ensures
        healths_after(known, observed).contains_key(observed[i].name),
        healths_after(known, observed)[observed[i].name] == observed[i].health,
    decreases observed.len(),
{
    let last = observed.len() - 1;
    if i < last {
        let before = observed.drop_last();
        assert(observed.skip(i + 1)[last - i - 1] == observed[last]);
        assert(!is_observed(before.skip(i + 1), before[i].name)) by {
            if is_observed(before.skip(i + 1), before[i].name) {
                let k = choose|k: int|
                    0 <= k < before.skip(i + 1).len() && (#[trigger] before.skip(i + 1)[k]).name
                        == before[i].name;
                assert(observed.skip(i + 1)[k].name == observed[i].name);
            }
        }
        lemma_observed_pool_is_recorded(known, before, i);
    }
}

/// A pool that is seen for the first time is never reported, whatever its
/// health: not if the record did not know it and no pool earlier among
/// those observed had its name. It is recorded with the health it has.
pub proof fn lemma_first_sight_is_silent(
    known: Map<Seq<char>, Health>,
    observed: Seq<PoolStatusView>,
    i: int,
)
    requires
        0 <= i < observed.len(),
        !known.contains_key(observed[i].name),
        !is_observed(observed.take(i), observed[i].name),
    ensures
        !reported_at(known, observed, i),
        healths_after(known, observed.take(i + 1))[observed[i].name] == observed[i].health,
{
    lemma_absent_pool_is_untouched(known, observed.take(i), observed[i].name);
}

/// Pools that are all seen for the first time, each of them once, are
/// recorded without a single report.
pub proof fn lemma_baseline_is_silent(known: Map<Seq<char>, Health>, observed: Seq<PoolStatusView>)
    requires
        forall|i: int|
            0 <= i < observed.len() ==> !known.contains_key((#[trigger] observed[i]).name),
        forall|i: int, j: int|
            0 <= j < i < observed.len() ==> (#[trigger] observed[j]).name != (
            #[trigger] observed[i]).name,
    ensures
        changes(known, observed) == Seq::<PoolStatusView>::empty(),
    decreases observed.len(),
{
    if observed.len() > 0 {
        let before = observed.drop_last();
        let last = observed.len() - 1;
        assert forall|i: int| 0 <= i < before.len() implies !known.contains_key(
            (#[trigger] before[i]).name,
        ) by {
            assert(before[i] == observed[i]);
        }
        assert forall|i: int, j: int| 0 <= j < i < before.len() implies (#[trigger] before[j]).name
            != (#[trigger] before[i]).name by {
            assert(before[i] == observed[i] && before[j] == observed[j]);
        }
        lemma_baseline_is_silent(known, before);
        assert(!is_observed(before, observed[last].name)) by {
            if is_observed(before, observed[last].name) {
                let j = choose|j: int|
                    0 <= j < before.len() && (#[trigger] before[j]).name == observed[last].name;
                assert(observed[j].name != observed[last].name);
            }
        }
        assert(observed.take(last) =~= before);
        lemma_first_sight_is_silent(known, observed, last);
    }
}

/// Pools seen again as they were last seen are not reported, and the record
/// stays as it is.
pub proof fn lemma_same_health_is_silent(known: Map<Seq<char>, Health>, observed: Seq<PoolStatusView>)
    requires
        forall|i: int|
            0 <= i < observed.len() ==> known.contains_key((#[trigger] observed[i]).name)
                && known[observed[i].name] == observed[i].health,
    ensures
        changes(known, observed) == Seq::<PoolStatusView>::empty(),
        healths_after(known, observed) == known,
    decreases observed.len(),
{
    if observed.len() > 0 {
        let before = observed.drop_last();
        assert forall|i: int| 0 <= i < before.len() implies known.contains_key(
            (#[trigger] before[i]).name,
        ) && known[before[i].name] == before[i].health by {
            assert(before[i] == observed[i]);
        }
        lemma_same_health_is_silent(known, before);
        assert(known.insert(observed.last().name, observed.last().health) =~= known);
    }
}

/// Taking in the same pools a second time reports nothing and changes
/// nothing, if no name stands twice among them.
pub proof fn lemma_second_look_is_silent(known: Map<Seq<char>, Health>, observed: Seq<PoolStatusView>)
    requires
        forall|i: int, j: int|
            0 <= j < i < observed.len() ==> (#[trigger] observed[j]).name != (
            #[trigger] observed[i]).name,
    ensures
        changes(healths_after(known, observed), observed) == Seq::<PoolStatusView>::empty(),
        healths_after(healths_after(known, observed), observed) == healths_after(known, observed),
{
    let record = healths_after(known, observed);
    assert forall|i: int| 0 <= i < observed.len() implies record.contains_key(
        (#[trigger] observed[i]).name,
    ) && record[observed[i].name] == observed[i].health by {
        let later = observed.skip(i + 1);
        assert(!is_observed(later, observed[i].name)) by {
            if is_observed(later, observed[i].name) {
                let k = choose|k: int|
                    0 <= k < later.len() && (#[trigger] later[k]).name == observed[i].name;
                assert(observed[i + 1 + k].name != observed[i].name);
            }
        }
        lemma_observed_pool_is_recorded(known, observed, i);
    }
    lemma_same_health_is_silent(record, observed);
}

} // verus!
