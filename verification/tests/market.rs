use space_game::components::error::TradeError;
use space_game::components::item::Item;
use space_game::components::planet::{POIType, Planet, PointOfInterest, SecurityLevel, Tier};
use space_game::components::player::Player;
use space_game::components::shared::Core;
use space_game::components::ship::{Ship, ShipSpecification};
use space_game::components::state::GameState;
use space_game::util::tally::{all_within, keys_of, quantity_of, same_keys, total_of};
use std::collections::HashMap;

fn item(id: i32, low: i32, high: i32) -> Item {
    Item {
        id,
        name: format!("item{}", id),
        description: String::from("ITEM"),
        category: String::from("FOOD"),
        low_price: low,
        high_price: high,
        illegal: false,
    }
}

fn poi_type(name: &str, categories: &[&str]) -> POIType {
    POIType {
        name: String::from(name),
        categories: categories.iter().map(|c| String::from(*c)).collect(),
        description: String::from("POI"),
    }
}

fn table(entries: &[(u32, i32)]) -> HashMap<u32, i32> {
    entries.iter().copied().collect()
}

fn poi(inventory: &[(u32, i32)], demand: &[(u32, i32)]) -> PointOfInterest {
    PointOfInterest {
        name: String::from("Market"),
        description: String::from("A point of interest"),
        inventory: table(inventory),
        demand: table(demand),
        x: 10,
        y: 20,
        types: (poi_type("Farm", &["FOOD"]), poi_type("Mine", &["METAL"])),
    }
}

fn ship(cargo: &[(i32, i32)]) -> Ship {
    Ship {
        specification: ShipSpecification {
            name: String::from("Sparrow"),
            max_fuel_bits: 100.0f32.to_bits(),
            max_inventory: 50,
            max_crew: 4,
        },
        fuel_bits: 25.5f32.to_bits(),
        inventory: cargo.iter().copied().collect(),
        crew: Vec::new(),
    }
}

fn shared(money: i32, cargo: &[(i32, i32)]) -> Core {
    let mut core = Core::new(String::from("1.0.0"));
    let mut player = Player::new(String::from("Ann"), ship(cargo));
    player.money = money;
    core.state = Some(GameState {
        planets: Vec::new(),
        current_planet: 0,
        current_poi: 0,
        player,
        turn: 0,
    });
    core.items = vec![item(1, 10, 50), item(2, 5, 5), item(3, 0, 100)];
    core
}

fn market() -> PointOfInterest {
    poi(&[(1, 5), (2, 7), (3, 9)], &[(1, 40), (2, 10), (3, 10)])
}

fn money(core: &Core) -> i32 {
    core.state.as_ref().unwrap().player.money
}

fn cargo(core: &Core, id: i32) -> Option<i32> {
    core.state.as_ref().unwrap().player.ship.inventory.get(&id).copied()
}

#[test]
fn price_follows_demand_over_mean_demand() {
    let market = market();
    assert_eq!(market.calculate_price(item(1, 10, 50)), 90);
    assert_eq!(market.calculate_price(item(2, 5, 5)), 5);
    assert_eq!(market.calculate_price(item(3, 0, 100)), 50);
}

#[test]
fn price_of_an_unlisted_item_is_its_low_price() {
    assert_eq!(market().calculate_price(item(9, 17, 50)), 17);
}

#[test]
fn price_rounds_the_mean_and_the_quotient_down() {
    let market = poi(&[(1, 1), (2, 1)], &[(1, 3), (2, 4)]);
    // mean demand 7 / 2 = 3; 10 * 4 / 3 = 13
    assert_eq!(market.calculate_price(item(2, 1, 11)), 14);
    assert_eq!(market.calculate_price(item(1, 1, 11)), 11);
}

#[test]
fn price_with_a_negative_low_price() {
    let market = poi(&[(1, 1)], &[(1, 7)]);
    assert_eq!(market.calculate_price(item(1, -30, -10)), -10);
    assert_eq!(market.calculate_price(item(1, -30, 30)), 30);
}

#[test]
fn price_rises_with_demand_while_the_mean_stays() {
    let lower = poi(&[(1, 1), (2, 1), (3, 1)], &[(1, 40), (2, 10), (3, 10)]);
    let higher = poi(&[(1, 1), (2, 1), (3, 1)], &[(1, 42), (2, 10), (3, 10)]);
    // the mean demand is 20 at both
    assert_eq!(lower.calculate_price(item(1, 10, 50)), 90);
    assert_eq!(higher.calculate_price(item(1, 10, 50)), 94);
}

#[test]
fn price_can_fall_where_a_higher_demand_lifts_the_rounded_mean() {
    let lower = poi(&[(1, 1), (2, 1)], &[(1, 2), (2, 1)]);
    let higher = poi(&[(1, 1), (2, 1)], &[(1, 3), (2, 1)]);
    // mean demand 3 / 2 = 1, then 4 / 2 = 2
    assert_eq!(lower.calculate_price(item(1, 0, 2)), 4);
    assert_eq!(higher.calculate_price(item(1, 0, 2)), 3);
}

#[test]
fn buy_takes_stock_and_funds() {
    let mut market = market();
    let mut core = shared(200, &[]);
    assert_eq!(market.buy(&mut core, 1, 2), Ok(()));
    assert_eq!(market.inventory[&1], 3);
    assert_eq!(market.inventory[&2], 7);
    assert_eq!(market.inventory[&3], 9);
    assert_eq!(market.demand, table(&[(1, 40), (2, 10), (3, 10)]));
    assert_eq!(money(&core), 20);
    assert_eq!(cargo(&core, 1), None);
}

#[test]
fn buying_two_units_at_ninety_takes_a_hundred_and_eighty() {
    let mut market = market();
    let mut core = shared(180, &[]);
    assert_eq!(market.calculate_price(item(1, 10, 50)), 10 + (50 - 10) * 40 / 20);
    assert_eq!(market.buy(&mut core, 1, 2), Ok(()));
    assert_eq!(market.inventory[&1], 5 - 2);
    assert_eq!(money(&core), 0);
}

#[test]
fn buy_with_exactly_enough_funds_and_stock() {
    let mut market = market();
    let mut core = shared(450, &[]);
    assert_eq!(market.buy(&mut core, 1, 5), Ok(()));
    assert_eq!(market.inventory[&1], 0);
    assert_eq!(money(&core), 0);
}

#[test]
fn buy_without_funds_changes_nothing() {
    let mut market = market();
    let mut core = shared(179, &[]);
    assert_eq!(market.buy(&mut core, 1, 2), Err(TradeError::InsufficientFunds));
    assert_eq!(market.inventory, table(&[(1, 5), (2, 7), (3, 9)]));
    assert_eq!(market.demand, table(&[(1, 40), (2, 10), (3, 10)]));
    assert_eq!(money(&core), 179);
}

#[test]
fn buy_without_stock_changes_nothing() {
    let mut market = market();
    let mut core = shared(100_000, &[]);
    assert_eq!(market.buy(&mut core, 1, 6), Err(TradeError::InsufficientStock));
    assert_eq!(market.inventory, table(&[(1, 5), (2, 7), (3, 9)]));
    assert_eq!(money(&core), 100_000);
}

#[test]
fn buy_looks_at_the_stock_before_the_funds() {
    let mut market = market();
    let mut core = shared(0, &[]);
    assert_eq!(market.buy(&mut core, 1, 6), Err(TradeError::InsufficientStock));
}

#[test]
fn buy_without_a_game_fails() {
    let mut market = market();
    let mut core = Core::new(String::from("1.0.0"));
    assert_eq!(market.buy(&mut core, 1, 1), Err(TradeError::NoActivePlayer));
    assert_eq!(market.sell(&mut core, 1, 1), Err(TradeError::NoActivePlayer));
    assert_eq!(market.inventory, table(&[(1, 5), (2, 7), (3, 9)]));
    assert!(core.state.is_none());
}

#[test]
fn sell_moves_cargo_into_stock_and_pays() {
    let mut market = market();
    let mut core = shared(20, &[(1, 3), (2, 1)]);
    assert_eq!(market.sell(&mut core, 1, 2), Ok(()));
    assert_eq!(market.inventory[&1], 7);
    assert_eq!(market.inventory[&2], 7);
    assert_eq!(money(&core), 200);
    assert_eq!(cargo(&core, 1), Some(1));
    assert_eq!(cargo(&core, 2), Some(1));
}

#[test]
fn sell_without_cargo_changes_nothing() {
    let mut market = market();
    let mut core = shared(20, &[(1, 1)]);
    assert_eq!(market.sell(&mut core, 1, 2), Err(TradeError::InsufficientStock));
    assert_eq!(market.sell(&mut core, 3, 1), Err(TradeError::InsufficientStock));
    assert_eq!(market.inventory, table(&[(1, 5), (2, 7), (3, 9)]));
    assert_eq!(money(&core), 20);
    assert_eq!(cargo(&core, 1), Some(1));
    assert_eq!(cargo(&core, 3), None);
}

#[test]
fn buy_then_sell_restores_stock_and_funds() {
    let mut market = market();
    let mut core = shared(500, &[(1, 4)]);
    assert_eq!(market.buy(&mut core, 1, 4), Ok(()));
    assert_eq!(market.inventory[&1], 1);
    assert_eq!(money(&core), 140);
    assert_eq!(market.sell(&mut core, 1, 4), Ok(()));
    assert_eq!(market.inventory, table(&[(1, 5), (2, 7), (3, 9)]));
    assert_eq!(money(&core), 500);
    assert_eq!(cargo(&core, 1), Some(0));
}

#[test]
fn buy_then_sell_with_an_empty_hold_does_not_restore() {
    let mut market = market();
    let mut core = shared(500, &[]);
    assert_eq!(market.buy(&mut core, 1, 4), Ok(()));
    assert_eq!(market.sell(&mut core, 1, 4), Err(TradeError::InsufficientStock));
    assert_eq!(market.inventory[&1], 1);
    assert_eq!(money(&core), 140);
}

#[test]
fn trade_uses_the_first_item_with_the_key() {
    let mut market = market();
    let mut core = shared(1000, &[]);
    core.items.push(item(1, 1000, 1000));
    assert_eq!(market.buy(&mut core, 1, 1), Ok(()));
    assert_eq!(money(&core), 910);
}

#[test]
fn tier_asks_the_main_type_first() {
    let mut market = market();
    market.types = (poi_type("Farm", &["FOOD", "WATER"]), poi_type("Mine", &["METAL", "FOOD"]));
    assert_eq!(market.tier_of(&String::from("FOOD")), Tier::Main);
    assert_eq!(market.tier_of(&String::from("WATER")), Tier::Main);
    assert_eq!(market.tier_of(&String::from("METAL")), Tier::Sub);
    assert_eq!(market.tier_of(&String::from("ARMS")), Tier::Other);
}

fn planet(pois: Vec<PointOfInterest>) -> Planet {
    Planet {
        name: String::from("Terra"),
        population: 1_000_000,
        poi: pois,
        x: 1,
        y: 2,
        security: SecurityLevel::Medium,
    }
}

#[test]
fn avg_demand_divides_the_sums_by_the_number_of_pois() {
    let planet = planet(vec![
        poi(&[(1, 1), (2, 1), (3, 1)], &[(1, 40), (2, 10), (3, 10)]),
        poi(&[(1, 1), (2, 1), (3, 1)], &[(1, 11), (2, 20), (3, 30)]),
    ]);
    assert_eq!(planet.avg_demand(), table(&[(1, 25), (2, 15), (3, 20)]));
}

#[test]
fn avg_demand_counts_a_poi_that_lacks_the_item() {
    let planet = planet(vec![
        poi(&[(1, 1)], &[(1, 40)]),
        poi(&[(2, 1)], &[(2, 9)]),
        poi(&[(1, 1)], &[(1, 21)]),
    ]);
    assert_eq!(planet.avg_demand(), table(&[(1, 20), (2, 3)]));
}

#[test]
fn avg_demand_rounds_towards_zero() {
    let mixed = planet(vec![poi(&[(1, 1)], &[(1, -5)]), poi(&[(1, 1)], &[(1, 2)])]);
    assert_eq!(mixed.avg_demand(), table(&[(1, -1)]));
    let greatest = planet(vec![poi(&[(1, 1)], &[(1, i32::MAX)]), poi(&[(1, 1)], &[(1, i32::MAX)])]);
    assert_eq!(greatest.avg_demand(), table(&[(1, i32::MAX)]));
    let least = planet(vec![poi(&[(1, 1)], &[(1, i32::MIN)]), poi(&[(1, 1)], &[(1, i32::MIN)])]);
    assert_eq!(least.avg_demand(), table(&[(1, i32::MIN)]));
}

#[test]
fn avg_prices_divides_the_sums_by_the_number_of_pois() {
    let planet = planet(vec![
        poi(&[(1, 1), (2, 1), (3, 1)], &[(1, 40), (2, 10), (3, 10)]),
        poi(&[(1, 1), (2, 1), (3, 1)], &[(1, 11), (2, 20), (3, 30)]),
    ]);
    let core = shared(0, &[]);
    assert_eq!(planet.avg_prices(&core), table(&[(1, 61), (2, 5), (3, 100)]));
}

#[test]
fn avg_prices_of_a_single_poi_are_its_prices() {
    let planet = planet(vec![market()]);
    let core = shared(0, &[]);
    assert_eq!(planet.avg_prices(&core), table(&[(1, 90), (2, 5), (3, 50)]));
}

#[test]
fn tally_sums_a_table() {
    let demand = table(&[(1, 40), (2, 10), (4000000000, -7)]);
    assert_eq!(total_of(&demand), 43);
    assert_eq!(total_of(&HashMap::new()), 0);
    assert_eq!(quantity_of(&demand, 2), 10);
    assert_eq!(quantity_of(&demand, 3), 0);
    let mut keys = keys_of(&demand);
    keys.sort();
    assert_eq!(keys, vec![1, 2, 4000000000]);
}

#[test]
fn tables_are_checked_against_bounds_and_each_other() {
    let demand = table(&[(1, 40), (2, 10), (3, 100)]);
    assert!(all_within(&demand, 1, 100));
    assert!(all_within(&demand, 10, 100));
    assert!(!all_within(&demand, 11, 100));
    assert!(!all_within(&demand, 1, 99));
    assert!(all_within(&HashMap::new(), 5, 4));
    assert!(same_keys(&demand, &table(&[(3, 0), (2, 0), (1, 0)])));
    assert!(!same_keys(&demand, &table(&[(1, 40), (2, 10)])));
    assert!(!same_keys(&demand, &table(&[(1, 40), (2, 10), (4, 100)])));
    assert!(!same_keys(&table(&[(1, 40)]), &demand));
    assert!(same_keys(&HashMap::new(), &HashMap::new()));
}

#[test]
fn a_point_of_interest_is_checked_for_being_well_formed() {
    assert!(market().is_wf());
    assert!(poi(&[], &[]).is_wf());
    assert!(!poi(&[(1, 5)], &[(2, 40)]).is_wf());
    assert!(!poi(&[(1, 5)], &[(1, 40), (2, 40)]).is_wf());
    assert!(!poi(&[(1, -1)], &[(1, 40)]).is_wf());
    assert!(!poi(&[(1, 5)], &[(1, 0)]).is_wf());
    assert!(!poi(&[(1, 5)], &[(1, 101)]).is_wf());
    assert!(poi(&[(1, 0)], &[(1, 1)]).is_wf());
    let mut off_the_map = market();
    off_the_map.x = 100;
    assert!(!off_the_map.is_wf());
    let mut off_the_map = market();
    off_the_map.y = -1;
    assert!(!off_the_map.is_wf());
}

#[test]
fn a_planet_is_checked_for_being_well_formed() {
    assert!(planet(vec![market()]).is_wf());
    assert!(planet(vec![market(), market(), market()]).is_wf());
    assert!(!planet(Vec::new()).is_wf());
    assert!(!planet(vec![market(), market(), market(), market()]).is_wf());
    assert!(!planet(vec![market(), poi(&[(1, -1)], &[(1, 40)])]).is_wf());
    let mut off_the_map = planet(vec![market()]);
    off_the_map.x = 100;
    assert!(!off_the_map.is_wf());
}
