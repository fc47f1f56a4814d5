//! The market of a point of interest: what an item costs there, and
//! buying and selling.
//!
//! The price of an item moves between its low and its high price with the
//! demand for it, taken against the mean demand of the point of interest.
//! A purchase moves stock against funds. A sale moves cargo from the hold
//! of the player's ship into stock, against funds.

use crate::components::error::TradeError;
use crate::components::item::{first_with_key, position_of, Item, ItemView};
use crate::components::planet::{PoiView, PointOfInterest};
use crate::components::player::Player;
use crate::components::shared::Core;
use crate::components::ship::ShipView;
use crate::components::state::GameState;
use crate::util::tally::{lemma_total_bounds, quantity, quantity_of, total, total_of};
use vstd::prelude::*;

verus! {

broadcast use vstd::std_specs::hash::group_hash_axioms;

impl PoiView {
    /// The mean of the demands for all items, rounded down.
    pub open spec fn mean_demand(self) -> int {
        total(self.demand) / (self.demand.len() as int)
    }

    /// The price of one unit of an item here: its low price plus the spread
    /// between its high and its low price, scaled by the demand for the
    /// item over the mean demand, the quotient rounded down. The demand for
    /// an item that is not listed here is 0.
    pub open spec fn price(self, item: ItemView) -> int {
        item.low_price + ((item.high_price - item.low_price) * quantity(self.demand, item.key()))
            / self.mean_demand()
    }

    /// The price of the item can be worked out here: the demands are in
    /// order and there is one for at least one item, the item is
    /// well-formed, and the price is no more than a 32-bit number can hold.
    pub open spec fn can_price(self, item: ItemView) -> bool {
        &&& self.demands_ok()
        &&& self.demand.len() > 0
        &&& item.wf()
        &&& self.price(item) <= i32::MAX
    }
}

/// The three amounts that a trade of one item moves: the stock of the item
/// at the point of interest, the amount of it in the hold of the player's
/// ship, and the funds of the player.
pub struct Deal {
    pub stock: int,
    pub cargo: int,
    pub funds: int,
}

impl Deal {
    /// Each of the three amounts is one that 32 bits can hold.
    pub open spec fn fits(self) -> bool {
        &&& i32::MIN <= self.stock <= i32::MAX
        &&& i32::MIN <= self.cargo <= i32::MAX
        &&& i32::MIN <= self.funds <= i32::MAX
    }
}

/// What buying `amount` units at `unit_price` each does to the amounts.
///
/// The point of interest must stock the amount asked for, and the player
/// must be able to pay for all of it; the stock is looked at first. Then
/// the stock goes down by the amount and the funds by the total price.
pub open spec fn buy_deal(before: Deal, unit_price: int, amount: int) -> Result<Deal, TradeError> {
    if before.stock < amount {
        Err(TradeError::InsufficientStock)
    } else if before.funds < unit_price * amount {
        Err(TradeError::InsufficientFunds)
    } else {
        Ok(
            Deal {
                stock: before.stock - amount,
                cargo: before.cargo,
                funds: before.funds - unit_price * amount,
            },
        )
    }
}

/// What selling `amount` units at `unit_price` each does to the amounts.
///
/// The hold of the player's ship must carry the amount offered. Then the
/// hold goes down by the amount, the stock goes up by it, and the funds go
/// up by the total price.
pub open spec fn sell_deal(before: Deal, unit_price: int, amount: int) -> Result<Deal, TradeError> {
    if before.cargo < amount {
        Err(TradeError::InsufficientStock)
    } else {
        Ok(
            Deal {
                stock: before.stock + amount,
                cargo: before.cargo - amount,
                funds: before.funds + unit_price * amount,
            },
        )
    }
}

/// The amounts that a trade of the item would start from.
pub open spec fn deal_before(poi: PoiView, player: Player, item: ItemView) -> Deal {
    Deal {
        stock: quantity(poi.inventory, item.key()),
        cargo: player.ship@.cargo(item.id as i32),
        funds: player.money as int,
    }
}

/// The point of interest with the stock of one item set.
pub open spec fn with_stock(poi: PoiView, key: u32, stock: int) -> PoiView {
    PoiView { inventory: poi.inventory.insert(key, stock as i32), ..poi }
}

/// Among demands that are percentages from 1 to 100, so is their mean.
pub proof fn lemma_mean_demand_bounds(poi: PoiView)
    requires
        poi.demands_ok(),
        poi.demand.len() > 0,
    ensures
        1 <= poi.mean_demand() <= 100,
{
    let n = poi.demand.len() as int;
    let sum = total(poi.demand);
    lemma_total_bounds(poi.demand, 1, 100);
    assert(1 <= sum / n <= 100) by (nonlinear_arith)
        requires
            n > 0,
            1 * n <= sum <= 100 * n,
    ;
}

impl PointOfInterest {
    /// The price of one unit of `item` at this point of interest.
    ///
    /// The demands have to be in order, with one for at least one item, and
    /// the price has to fit the result.
    pub fn calculate_price(&self, item: Item) -> (price: i32)
        requires
            self@.can_price(item@),
        ensures
            price == self@.price(item@),
    {
        let demand = quantity_of(&self.demand, item.key());
        let sum = total_of(&self.demand);
        let count = self.demand.len();
        proof {
            lemma_total_bounds(self.demand@, 1, 100);
            lemma_mean_demand_bounds(self@);
        }
        assert(sum <= 100 * count);
        let mean: i128 = sum / (count as i128);
        let spread: i128 = item.high_price as i128 - item.low_price as i128;
        assert(0 <= spread * demand <= 0x1_0000_0000 * 100) by (nonlinear_arith)
            requires
                0 <= spread <= 0x1_0000_0000,
                0 <= demand <= 100,
        ;
        let scaled: i128 = (spread * demand as i128) / mean;
        proof {
            lemma_price_bounds(self@, item@);
        }
        (item.low_price as i128 + scaled) as i32
    }
}

/// The price of an item lies between its low price and its low price plus
/// a hundred times the spread between its high and its low price.
pub proof fn lemma_price_bounds(poi: PoiView, item: ItemView)
    requires
        poi.demands_ok(),
        poi.demand.len() > 0,
        item.wf(),
    ensures
        item.low_price <= poi.price(item) <= item.low_price + (item.high_price - item.low_price)
            * 100,
{
    let spread = item.high_price - item.low_price;
    let demand = quantity(poi.demand, item.key());
    let mean = poi.mean_demand();
    lemma_mean_demand_bounds(poi);
    assert(0 <= (spread * demand) / mean <= spread * 100) by (nonlinear_arith)
        requires
            0 <= spread,
            0 <= demand <= 100,
            1 <= mean,
    ;
}

/// A purchase that is at once followed by the sale of the same amount at
/// the same point of interest leaves the stock and the funds as they were
/// before the purchase, and the point of interest with them where it listed
/// the item. The hold has to carry the amount, or the sale fails: a
/// purchase adds nothing to the hold.
pub proof fn lemma_buy_then_sell_restores(
    poi: PoiView,
    item: ItemView,
    cargo: int,
    funds: int,
    amount: int,
)
    requires
        buy_deal(
            Deal { stock: quantity(poi.inventory, item.key()), cargo, funds },
            poi.price(item),
            amount,
        ) is Ok,
        quantity(poi.inventory, item.key()) - amount <= i32::MAX,
        cargo >= amount,
    ensures
        ({
            let before = Deal { stock: quantity(poi.inventory, item.key()), cargo, funds };
            let bought = buy_deal(before, poi.price(item), amount)->Ok_0;
            let market = with_stock(poi, item.key(), bought.stock);
            let sold = sell_deal(
                Deal {
                    stock: quantity(market.inventory, item.key()),
                    cargo: bought.cargo,
                    funds: bought.funds,
                },
                market.price(item),
                amount,
            );
            &&& sold is Ok
            &&& sold->Ok_0.stock == before.stock
            &&& sold->Ok_0.funds == funds
            &&& sold->Ok_0.cargo == cargo - amount
            &&& poi.inventory.contains_key(item.key()) ==> with_stock(
                market,
                item.key(),
                sold->Ok_0.stock,
            ) == poi
        }),
{
    let key = item.key();
    let before = Deal { stock: quantity(poi.inventory, key), cargo, funds };
    let bought = buy_deal(before, poi.price(item), amount)->Ok_0;
    let market = with_stock(poi, key, bought.stock);
    assert(market.price(item) == poi.price(item));
    if poi.inventory.contains_key(key) {
        assert(market.inventory.insert(key, before.stock as i32) =~= poi.inventory);
    }
}

/// The price of an item does not fall when the demand for it rises and
/// every other demand stays, as long as the demand for the item rises at
/// least as much as the mean demand does in proportion: the old demand
/// times the new mean is no more than the new demand times the old mean.
/// This is so in particular where the mean demand, which is rounded, stays
/// the same.
pub proof fn lemma_price_rises_with_demand(poi: PoiView, item: ItemView, higher: i32)
    requires
        poi.demands_ok(),
        item.wf(),
        poi.demand.contains_key(item.key()),
        poi.demand[item.key()] <= higher,
        ({
            let raised = PoiView { demand: poi.demand.insert(item.key(), higher), ..poi };
            poi.demand[item.key()] * raised.mean_demand() <= higher * poi.mean_demand()
        }),
    ensures
        ({
            let raised = PoiView { demand: poi.demand.insert(item.key(), higher), ..poi };
            poi.price(item) <= raised.price(item)
        }),
{
    let key = item.key();
    let raised = PoiView { demand: poi.demand.insert(key, higher), ..poi };
    let spread = item.high_price - item.low_price;
    let low = poi.demand[key] as int;
    let high = higher as int;
    let mean = poi.mean_demand();
    let new_mean = raised.mean_demand();
    assert(raised.demand.dom() =~= poi.demand.dom());
    assert(mean >= 1) by {
        lemma_mean_demand_bounds(poi);
    }
    assert(new_mean >= 1) by {
        lemma_total_bounds(raised.demand, 1, i32::MAX as int);
        let n = raised.demand.len() as int;
        let sum = total(raised.demand);
        assert(n > 0);
        assert(sum / n >= 1) by (nonlinear_arith)
            requires
                n > 0,
                1 * n <= sum,
        ;
    }
    assert((spread * low) * new_mean <= (spread * high) * mean) by (nonlinear_arith)
        requires
            spread >= 0,
            low * new_mean <= high * mean,
    ;
    assert(0 <= spread * low) by (nonlinear_arith)
        requires
            spread >= 0,
            low >= 1,
    ;
    lemma_quotient_order(spread * low, mean, spread * high, new_mean);
}

/// The price of an item does not fall when the demand for it rises, every
/// other demand stays, and the rounded mean demand stays with them.
pub proof fn lemma_price_rises_while_mean_stays(poi: PoiView, item: ItemView, higher: i32)
    requires
        poi.demands_ok(),
        item.wf(),
        poi.demand.contains_key(item.key()),
        poi.demand[item.key()] <= higher,
        ({
            let raised = PoiView { demand: poi.demand.insert(item.key(), higher), ..poi };
            raised.mean_demand() == poi.mean_demand()
        }),
    ensures
        ({
            let raised = PoiView { demand: poi.demand.insert(item.key(), higher), ..poi };
            poi.price(item) <= raised.price(item)
        }),
{
    let mean = poi.mean_demand();
    let low = poi.demand[item.key()] as int;
    lemma_mean_demand_bounds(poi);
    assert(low * mean <= higher * mean) by (nonlinear_arith)
        requires
            low <= higher,
            mean >= 1,
    ;
    lemma_price_rises_with_demand(poi, item, higher);
}

/// Among fractions with positive denominators and a first numerator that
/// is not negative, the smaller fraction has the smaller rounded quotient.
proof fn lemma_quotient_order(a: int, m: int, b: int, n: int)
    requires
        0 <= a,
        m >= 1,
        n >= 1,
        a * n <= b * m,
    ensures
        a / m <= b / n,
{
    let q = a / m;
    assert(q * m <= a && 0 <= q) by (nonlinear_arith)
        requires
            q == a / m,
            m >= 1,
            0 <= a,
    ;
    assert(q * n <= b) by (nonlinear_arith)
        requires
            q * m <= a,
            a * n <= b * m,
            m >= 1,
            n >= 1,
            0 <= q,
    ;
    assert(q <= b / n) by (nonlinear_arith)
        requires
            q * n <= b,
            n >= 1,
    ;
}

/// The item that a trade by key is about: the first item of the list with
/// that key.
pub open spec fn listed_item(items: Seq<Item>, key: u32) -> Item {
    items[first_with_key(items, key)->0]
}

impl PointOfInterest {
    /// What has to hold before a trade of `amount` units of the item filed
    /// under `item_id`, where a game is in progress: the item is on the
    /// list; and where the seller holds the amount, the price can be
    /// worked out; and where the trade goes through, 32 bits can hold the
    /// amounts it leaves. `selling` tells the direction.
    pub open spec fn can_trade(&self, core: &Core, item_id: u32, amount: i32, selling: bool) -> bool {
        core.state is Some ==> {
            let item = listed_item(core.items@, item_id);
            let before = deal_before(self@, core.state->0.player, item@);
            let held = if selling {
                before.cargo
            } else {
                before.stock
            };
            let after = if selling {
                sell_deal(before, self@.price(item@), amount as int)
            } else {
                buy_deal(before, self@.price(item@), amount as int)
            };
            &&& first_with_key(core.items@, item_id) is Some
            &&& held >= amount ==> self@.can_price(item@)
            &&& after is Ok ==> after->Ok_0.fits()
        }
    }

    /// Player buys items from POI
    ///
    /// Fails where no game is in progress, where the point of interest
    /// stocks less than `amount`, and where the player cannot pay `amount`
    /// times the unit price, in this order. A purchase that fails changes
    /// nothing. One that succeeds takes `amount` from the stock and the
    /// total price from the player's funds, and changes nothing else.
    pub fn buy(&mut self, core: &mut Core, item_id: u32, amount: i32) -> (done: Result<
        (),
        TradeError,
    >)
        requires
            old(self).can_trade(old(core), item_id, amount, false),
        ensures
            match old(core).state {
                None => done == Err::<(), TradeError>(TradeError::NoActivePlayer) && *final(self)
                    == *old(self) && *final(core) == *old(core),
                Some(state) => {
                    let item = listed_item(old(core).items@, item_id);
                    let before = deal_before(old(self)@, state.player, item@);
                    match buy_deal(before, old(self)@.price(item@), amount as int) {
                        Ok(after) => {
                            &&& done is Ok
                            &&& final(self)@ == with_stock(old(self)@, item_id, after.stock)
                            &&& *final(core) == (Core {
                                state: Some(
                                    GameState {
                                        player: Player {
                                            money: after.funds as i32,
                                            ..state.player
                                        },
                                        ..state
                                    },
                                ),
                                ..*old(core)
                            })
                        },
                        Err(e) => done == Err::<(), TradeError>(e) && *final(self) == *old(self)
                            && *final(core) == *old(core),
                    }
                },
            },
            old(self)@.wf() && old(self).inventory@.contains_key(item_id) ==> final(self)@.wf(),
    {
        match &mut core.state {
            None => Err(TradeError::NoActivePlayer),
            Some(state) => {
                let found = position_of(&core.items, item_id);
                let index = found.unwrap();
                let stock = quantity_of(&self.inventory, item_id);
                // Ensure POI has enough items
                if stock < amount {
                    return Err(TradeError::InsufficientStock);
                }
                let unit_price = self.calculate_price(core.items[index].clone());
                assert(-0x4000_0000_0000_0000 <= unit_price * amount <= 0x4000_0000_0000_0000)
                    by (nonlinear_arith)
                    requires
                        -0x8000_0000 <= unit_price <= 0x8000_0000,
                        -0x8000_0000 <= amount <= 0x8000_0000,
                ;
                let price: i64 = unit_price as i64 * amount as i64;
                if (state.player.money as i64) < price {
                    return Err(TradeError::InsufficientFunds);
                }
                self.inventory.insert(item_id, stock - amount);
                state.player.money = (state.player.money as i64 - price) as i32;
                assert(old(self).inventory@.contains_key(item_id) ==> self.inventory@.dom()
                    =~= old(self).inventory@.dom());
                Ok(())
            },
        }
    }

    /// Player sells items to POI
    ///
    /// Fails where no game is in progress and where the hold of the
    /// player's ship carries less than `amount` of the item. A sale that
    /// fails changes nothing. One that succeeds takes `amount` from the
    /// hold, adds it to the stock, adds the total price to the player's
    /// funds, and changes nothing else.
    pub fn sell(&mut self, core: &mut Core, item_id: u32, amount: i32) -> (done: Result<
        (),
        TradeError,
    >)
        requires
            old(self).can_trade(old(core), item_id, amount, true),
        ensures
            match old(core).state {
                None => done == Err::<(), TradeError>(TradeError::NoActivePlayer) && *final(self)
                    == *old(self) && *final(core) == *old(core),
                Some(state) => {
                    let item = listed_item(old(core).items@, item_id);
                    let before = deal_before(old(self)@, state.player, item@);
                    match sell_deal(before, old(self)@.price(item@), amount as int) {
                        Ok(after) => {
                            let sold = final(core).state->0;
                            &&& done is Ok
                            &&& final(self)@ == with_stock(old(self)@, item_id, after.stock)
                            &&& *final(core) == (Core { state: Some(sold), ..*old(core) })
                            &&& sold == (GameState { player: sold.player, ..state })
                            &&& sold.player == (Player {
                                money: after.funds as i32,
                                ship: sold.player.ship,
                                ..state.player
                            })
                            &&& sold.player.ship@ == (ShipView {
                                inventory: state.player.ship@.inventory.insert(
                                    item.id,
                                    after.cargo as i32,
                                ),
                                ..state.player.ship@
                            })
                        },
                        Err(e) => done == Err::<(), TradeError>(e) && *final(self) == *old(self)
                            && *final(core) == *old(core),
                    }
                },
            },
            old(self)@.wf() && old(self).inventory@.contains_key(item_id) && amount >= 0
                ==> final(self)@.wf(),
            old(core).state is Some && old(core).state->0.player.ship@.wf()
                ==> final(core).state->0.player.ship@.wf(),
    {
        match &mut core.state {
            None => Err(TradeError::NoActivePlayer),
            Some(state) => {
                let found = position_of(&core.items, item_id);
                let index = found.unwrap();
                let id = core.items[index].id;
                let cargo = match state.player.ship.inventory.get(&id) {
                    Some(held) => *held,
                    None => 0,
                };
                if cargo < amount {
                    return Err(TradeError::InsufficientStock);
                }
                let unit_price = self.calculate_price(core.items[index].clone());
                assert(-0x4000_0000_0000_0000 <= unit_price * amount <= 0x4000_0000_0000_0000)
                    by (nonlinear_arith)
                    requires
                        -0x8000_0000 <= unit_price <= 0x8000_0000,
                        -0x8000_0000 <= amount <= 0x8000_0000,
                ;
                let price: i64 = unit_price as i64 * amount as i64;
                let stock = quantity_of(&self.inventory, item_id);
                state.player.ship.inventory.insert(id, cargo - amount);
                self.inventory.insert(item_id, stock + amount);
                state.player.money = (state.player.money as i64 + price) as i32;
                assert(old(self).inventory@.contains_key(item_id) ==> self.inventory@.dom()
                    =~= old(self).inventory@.dom());
                Ok(())
            },
        }
    }
}

} // verus!
