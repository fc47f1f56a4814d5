//! Averages over the points of interest of a planet: of the demand for
//! each item, and of its price.

use crate::components::item::{first_with_key, position_of, Item};
use crate::components::market::listed_item;
use crate::components::planet::{Planet, PlanetView, PoiView};
use crate::components::shared::Core;
use crate::util::tally::{
    div_trunc, keys_of, lemma_push_contains, lemma_take_contains, quantity, quantity_of,
};
use std::collections::HashMap;
use vstd::prelude::*;

verus! {

broadcast use vstd::std_specs::hash::group_hash_axioms;

/// The sum, over the points of interest, of the demand for one item; a
/// point of interest that does not list the item adds 0.
pub open spec fn demand_sum(pois: Seq<PoiView>, key: u32) -> int
    decreases pois.len(),
{
    if pois.len() == 0 {
        0
    } else {
        demand_sum(pois.drop_last(), key) + quantity(pois.last().demand, key)
    }
}

/// The price of the item under `key` at a point of interest that stocks
/// it, and 0 at one that does not.
pub open spec fn price_if_stocked(poi: PoiView, items: Seq<Item>, key: u32) -> int {
    if poi.inventory.contains_key(key) {
        poi.price(listed_item(items, key)@)
    } else {
        0
    }
}

/// The sum, over the points of interest that stock the item under `key`,
/// of its price there.
pub open spec fn price_sum(pois: Seq<PoiView>, items: Seq<Item>, key: u32) -> int
    decreases pois.len(),
{
    if pois.len() == 0 {
        0
    } else {
        price_sum(pois.drop_last(), items, key) + price_if_stocked(pois.last(), items, key)
    }
}

/// The table of a point of interest that an average is taken over: its
/// stock where `stocked`, its demands otherwise.
pub open spec fn table_of(poi: PoiView, stocked: bool) -> Map<u32, i32> {
    if stocked {
        poi.inventory
    } else {
        poi.demand
    }
}

/// Whether the table of one of the points of interest lists the item.
pub open spec fn listed_somewhere(pois: Seq<PoiView>, stocked: bool, key: u32) -> bool {
    exists|i: int| 0 <= i < pois.len() && #[trigger] table_of(pois[i], stocked).contains_key(key)
}

/// Whether one of the points of interest has a demand for the item.
pub open spec fn demanded_somewhere(pois: Seq<PoiView>, key: u32) -> bool {
    listed_somewhere(pois, false, key)
}

/// Whether one of the points of interest stocks the item.
pub open spec fn stocked_somewhere(pois: Seq<PoiView>, key: u32) -> bool {
    listed_somewhere(pois, true, key)
}

impl PlanetView {
    /// The average demand for the item under `key`: the sum of the demands
    /// at the points of interest over their number, rounded towards zero.
    pub open spec fn avg_demand_of(self, key: u32) -> int {
        div_trunc(demand_sum(self.poi, key), self.poi.len() as int)
    }

    /// The average demand for every item that is in demand somewhere on the
    /// planet.
    pub open spec fn avg_demand(self) -> Map<u32, i32> {
        Map::new(
            |key: u32| demanded_somewhere(self.poi, key),
            |key: u32| self.avg_demand_of(key) as i32,
        )
    }

    /// The average price of the item under `key`: the sum of its prices at
    /// the points of interest that stock it over the number of all points
    /// of interest, rounded towards zero.
    pub open spec fn avg_price_of(self, items: Seq<Item>, key: u32) -> int {
        div_trunc(price_sum(self.poi, items, key), self.poi.len() as int)
    }

    /// The average price of every item that is stocked somewhere on the
    /// planet.
    pub open spec fn avg_prices(self, items: Seq<Item>) -> Map<u32, i32> {
        Map::new(
            |key: u32| stocked_somewhere(self.poi, key),
            |key: u32| self.avg_price_of(items, key) as i32,
        )
    }

    /// Every item that is stocked somewhere on the planet is on the list,
    /// and its price can be worked out wherever it is stocked.
    pub open spec fn can_price_all(self, items: Seq<Item>) -> bool {
        forall|i: int, key: u32|
            0 <= i < self.poi.len() && #[trigger] self.poi[i].inventory.contains_key(key)
                ==> first_with_key(items, key) is Some && self.poi[i].can_price(
                listed_item(items, key)@,
            )
    }
}

/// The quotient of a sum of `n` 32-bit numbers by `n` is a 32-bit number.
proof fn lemma_average_fits(sum: int, n: int)
    requires
        n >= 1,
        -0x8000_0000 * n <= sum <= 0x7fff_ffff * n,
    ensures
        -0x8000_0000 <= div_trunc(sum, n) <= 0x7fff_ffff,
{
    if sum >= 0 {
        assert(0 <= sum / n <= 0x7fff_ffff) by (nonlinear_arith)
            requires
                n >= 1,
                0 <= sum <= 0x7fff_ffff * n,
        ;
    } else {
        assert(0 <= (-sum) / n <= 0x8000_0000) by (nonlinear_arith)
            requires
                n >= 1,
                0 <= -sum <= 0x8000_0000 * n,
        ;
    }
}

impl Planet {
    /// The sum of the demands for one item at the points of interest.
    fn demand_sum_of(&self, key: u32) -> (sum: i128)
        ensures
            sum == demand_sum(self@.poi, key),
            -0x8000_0000 * self.poi@.len() <= sum <= 0x7fff_ffff * self.poi@.len(),
    {
        let mut sum: i128 = 0;
        let mut i: usize = 0;
        assert(self@.poi.take(0) =~= Seq::<PoiView>::empty());
        while i < self.poi.len()
            invariant
                i <= self.poi@.len(),
                sum == demand_sum(self@.poi.take(i as int), key),
                -0x8000_0000 * i <= sum <= 0x7fff_ffff * i,
            decreases self.poi@.len() - i,
        {
            assert(self@.poi.take(i + 1).drop_last() =~= self@.poi.take(i as int));
            assert(self@.poi.take(i + 1).last() == self.poi@[i as int]@);
            let demand = quantity_of(&self.poi[i].demand, key);
            sum = sum + demand as i128;
            i = i + 1;
        }
        assert(self@.poi.take(self.poi@.len() as int) =~= self@.poi);
        sum
    }

    /// The sum of the prices of one item at the points of interest that
    /// stock it.
    fn price_sum_of(&self, items: &Vec<Item>, key: u32) -> (sum: i128)
        requires
            self@.can_price_all(items@),
        ensures
            sum == price_sum(self@.poi, items@, key),
            -0x8000_0000 * self.poi@.len() <= sum <= 0x7fff_ffff * self.poi@.len(),
    {
        let mut sum: i128 = 0;
        let mut i: usize = 0;
        assert(self@.poi.take(0) =~= Seq::<PoiView>::empty());
        while i < self.poi.len()
            invariant
                i <= self.poi@.len(),
                self@.can_price_all(items@),
                sum == price_sum(self@.poi.take(i as int), items@, key),
                -0x8000_0000 * i <= sum <= 0x7fff_ffff * i,
            decreases self.poi@.len() - i,
        {
            assert(self@.poi.take(i + 1).drop_last() =~= self@.poi.take(i as int));
            assert(self@.poi.take(i + 1).last() == self.poi@[i as int]@);
            assert(self@.poi[i as int] == self.poi@[i as int]@);
            if self.poi[i].inventory.contains_key(&key) {
                assert(self@.poi[i as int].inventory.contains_key(key));
                let found = position_of(items, key);
                let price = self.poi[i].calculate_price(items[found.unwrap()].clone());
                sum = sum + price as i128;
            }
            i = i + 1;
        }
        assert(self@.poi.take(self.poi@.len() as int) =~= self@.poi);
        sum
    }

    /// The keys that the tables of the points of interest list: the stock
    /// tables where `stocked`, the demand tables otherwise. A key may come
    /// more than once.
    fn keys_listed(&self, stocked: bool) -> (keys: Vec<u32>)
        ensures
            forall|key: u32| keys@.contains(key) <==> listed_somewhere(self@.poi, stocked, key),
    {
        let mut keys: Vec<u32> = Vec::new();
        let mut i: usize = 0;
        while i < self.poi.len()
            invariant
                i <= self.poi@.len(),
                forall|key: u32|
                    #![trigger keys@.contains(key)]
                    keys@.contains(key) <==> listed_somewhere(
                        self@.poi.take(i as int),
                        stocked,
                        key,
                    ),
            decreases self.poi@.len() - i,
        {
            let here = if stocked {
                keys_of(&self.poi[i].inventory)
            } else {
                keys_of(&self.poi[i].demand)
            };
            let ghost before = keys@;
            let ghost table = table_of(self@.poi[i as int], stocked);
            assert(self@.poi[i as int] == self.poi@[i as int]@);
            assert(forall|key: u32| table.contains_key(key) <==> here@.contains(key));
            let mut t: usize = 0;
            assert(here@.take(0) =~= Seq::<u32>::empty());
            while t < here.len()
                invariant
                    t <= here@.len(),
                    forall|key: u32|
                        #![trigger keys@.contains(key)]
                        keys@.contains(key) <==> before.contains(key) || here@.take(
                            t as int,
                        ).contains(key),
                decreases here@.len() - t,
            {
                let ghost earlier = keys@;
                keys.push(here[t]);
                assert forall|key: u32|
                    #![trigger keys@.contains(key)]
                    keys@.contains(key) <==> before.contains(key) || here@.take(t + 1).contains(
                        key,
                    ) by {
                    lemma_push_contains(earlier, here@[t as int], key);
                    lemma_take_contains(here@, t as int, key);
                    assert(earlier.contains(key) <==> before.contains(key) || here@.take(
                        t as int,
                    ).contains(key));
                }
                t = t + 1;
            }
            assert(here@.take(here@.len() as int) =~= here@);
            assert forall|key: u32|
                #![trigger keys@.contains(key)]
                keys@.contains(key) <==> listed_somewhere(
                    self@.poi.take(i + 1),
                    stocked,
                    key,
                ) by {
                let longer = self@.poi.take(i + 1);
                let shorter = self@.poi.take(i as int);
                assert(before.contains(key) <==> listed_somewhere(shorter, stocked, key));
                assert(table.contains_key(key) <==> here@.contains(key));
                assert(longer[i as int] == self@.poi[i as int]);
                if listed_somewhere(longer, stocked, key) {
                    let j = choose|j: int|
                        0 <= j < longer.len() && #[trigger] table_of(longer[j], stocked).contains_key(
                            key,
                        );
                    if j < i {
                        assert(table_of(shorter[j], stocked).contains_key(key));
                    }
                }
                if listed_somewhere(shorter, stocked, key) {
                    let j = choose|j: int|
                        0 <= j < shorter.len() && #[trigger] table_of(
                            shorter[j],
                            stocked,
                        ).contains_key(key);
                    assert(table_of(longer[j], stocked).contains_key(key));
                }
                if table.contains_key(key) {
                    assert(table_of(longer[i as int], stocked).contains_key(key));
                }
            }
            i = i + 1;
        }
        assert(self@.poi.take(self.poi@.len() as int) =~= self@.poi);
        keys
    }

    /// The averages over the points of interest of the planet: of the prices
    /// of the items of `items` where `prices`, of the demands otherwise.
    fn averages_over(&self, items: &Vec<Item>, prices: bool) -> (averages: HashMap<u32, i32>)
        requires
            self.poi@.len() > 0,
            prices ==> self@.can_price_all(items@),
        ensures
            averages@ == (if prices {
                self@.avg_prices(items@)
            } else {
                self@.avg_demand()
            }),
    {
        let keys = self.keys_listed(prices);
        let count = self.poi.len();
        let mut averages: HashMap<u32, i32> = HashMap::new();
        let mut t: usize = 0;
        assert(keys@.take(0) =~= Seq::<u32>::empty());
        while t < keys.len()
            invariant
                t <= keys@.len(),
                count == self.poi@.len(),
                count > 0,
                prices ==> self@.can_price_all(items@),
                forall|key: u32|
                    #![trigger averages@.contains_key(key)]
                    averages@.contains_key(key) <==> keys@.take(t as int).contains(key),
                forall|key: u32| #[trigger]
                    averages@.contains_key(key) ==> averages@[key] == (if prices {
                        self@.avg_price_of(items@, key)
                    } else {
                        self@.avg_demand_of(key)
                    }) as i32,
            decreases keys@.len() - t,
        {
            let key = keys[t];
            let sum = if prices {
                self.price_sum_of(items, key)
            } else {
                self.demand_sum_of(key)
            };
            proof {
                lemma_average_fits(sum as int, count as int);
            }
            let average = sum / (count as i128);
            let ghost earlier = averages@;
            averages.insert(key, average as i32);
            assert forall|k: u32|
                #![trigger averages@.contains_key(k)]
                averages@.contains_key(k) <==> keys@.take(t + 1).contains(k) by {
                lemma_take_contains(keys@, t as int, k);
                assert(earlier.contains_key(k) <==> keys@.take(t as int).contains(k));
            }
            t = t + 1;
        }
        assert(keys@.take(keys@.len() as int) =~= keys@);
        assert(averages@ =~= (if prices {
            self@.avg_prices(items@)
        } else {
            self@.avg_demand()
        }));
        averages
    }

    /// The average demand for each item, over the points of interest of the
    /// planet.
    ///
    /// The planet has to have a point of interest.
    pub fn avg_demand(&self) -> (averages: HashMap<u32, i32>)
        requires
            self.poi@.len() > 0,
        ensures
            averages@ == self@.avg_demand(),
    {
        let unpriced: Vec<Item> = Vec::new();
        self.averages_over(&unpriced, false)
    }

    /// The average price of each item that is stocked on the planet, over
    /// the points of interest of the planet. The items are those of
    /// `core`.
    ///
    /// The planet has to have a point of interest, every item stocked has
    /// to be on the list, and its price has to be one that can be worked
    /// out wherever it is stocked.
    pub fn avg_prices(&self, core: &Core) -> (averages: HashMap<u32, i32>)
        requires
            self.poi@.len() > 0,
            self@.can_price_all(core.items@),
        ensures
            averages@ == self@.avg_prices(core.items@),
    {
        self.averages_over(&core.items, true)
    }
}

} // verus!
