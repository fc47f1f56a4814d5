use space_game::components::error::CatalogError;
use space_game::components::item::{get_all_items, index_items, Item};
use space_game::components::planet::{
    demand_bounds, get_all_poi_types, inventory_bounds, POIType, Planet, PointOfInterest, Tier,
};
use space_game::components::ship::{Ship, ShipSpecification};
use space_game::components::state::GameState;
use space_game::util::generators::{
    generate_name, n_to_roman, numeral_from, numeral_or_empty, push_end_letter, push_numeral,
    push_syllable, is_among, NameGenerationParams, CAN_DOUBLE, END_CONSONANTS, END_VOWELS,
    PHONETICS,
};
use space_game::util::random::{
    is_multiple, maybe, maybe_chance, pick_index, pick_one, pick_x, random_between,
};
use std::collections::HashMap;

const ITEMS: &str = "1 Water 10 50 FOOD false ITEM_WATER\n\
2 Spice 100 900 DRUG true ITEM_SPICE\n\
3 Ore 5 50 METAL false ITEM_ORE\n\
4 Fuel 20 80 FUEL false ITEM_FUEL\n\
5 Art 500 5000 LUXURY false ITEM_ART\n";

const TYPES: &str = "Mine METAL,FUEL POI_MINE\n\
Farm FOOD POI_FARM\n\
Den DRUG,LUXURY POI_DEN\n";

fn catalog() -> HashMap<u32, Item> {
    index_items(&get_all_items(ITEMS).unwrap())
}

fn ship() -> Ship {
    Ship {
        specification: ShipSpecification {
            name: String::from("Sparrow"),
            max_fuel_bits: 100.0f32.to_bits(),
            max_inventory: 50,
            max_crew: 4,
        },
        fuel_bits: 25.5f32.to_bits(),
        inventory: HashMap::new(),
        crew: Vec::new(),
    }
}

fn check_poi(poi: &PointOfInterest, catalog: &HashMap<u32, Item>, types: &Vec<POIType>) {
    assert_eq!(poi.inventory.len(), catalog.len());
    assert_eq!(poi.demand.len(), catalog.len());
    assert!(0 <= poi.x && poi.x < 100);
    assert!(0 <= poi.y && poi.y < 100);
    assert_eq!(poi.description, "A point of interest");
    assert!(!poi.name.is_empty());
    assert!(types.iter().any(|t| t.name == poi.types.0.name));
    assert!(types.iter().any(|t| t.name == poi.types.1.name));
    assert_ne!(poi.types.0.name, poi.types.1.name);
    for (key, item) in catalog {
        let tier = poi.tier_of(&item.category);
        let (low, high) = inventory_bounds(tier);
        let stock = poi.inventory[key];
        assert!(stock >= 0);
        assert!(low <= stock && stock < high);
        let (low, high) = demand_bounds(tier);
        let demand = poi.demand[key];
        assert!(low <= demand && demand < high);
        assert!(1 <= demand && demand <= 100);
    }
}

#[test]
fn tier_ranges() {
    assert_eq!(inventory_bounds(Tier::Main), (400, 1000));
    assert_eq!(inventory_bounds(Tier::Sub), (200, 600));
    assert_eq!(inventory_bounds(Tier::Other), (100, 300));
    assert_eq!(demand_bounds(Tier::Main), (1, 20));
    assert_eq!(demand_bounds(Tier::Sub), (5, 30));
    assert_eq!(demand_bounds(Tier::Other), (30, 70));
}

#[test]
fn generated_poi_covers_the_catalog_within_the_tier_ranges() {
    let catalog = catalog();
    let types = get_all_poi_types(TYPES).unwrap();
    for _ in 0..200 {
        let poi = PointOfInterest::generate(&catalog, &types).unwrap();
        check_poi(&poi, &catalog, &types);
    }
}

#[test]
fn what_is_generated_is_well_formed() {
    let catalog = catalog();
    let types = get_all_poi_types(TYPES).unwrap();
    for _ in 0..50 {
        assert!(PointOfInterest::generate(&catalog, &types).unwrap().is_wf());
        assert!(Planet::generate(&catalog, &types).unwrap().is_wf());
    }
    assert!(GameState::new(String::from("Ann"), ship(), &catalog, &types).unwrap().is_wf());
}

#[test]
fn generated_poi_for_an_empty_catalog_is_empty() {
    let types = get_all_poi_types(TYPES).unwrap();
    let poi = PointOfInterest::generate(&HashMap::new(), &types).unwrap();
    assert!(poi.inventory.is_empty());
    assert!(poi.demand.is_empty());
}

#[test]
fn generation_needs_two_poi_types() {
    let catalog = catalog();
    let none: Vec<POIType> = Vec::new();
    let one = get_all_poi_types("Mine METAL POI_MINE").unwrap();
    assert_eq!(
        PointOfInterest::generate(&catalog, &none).err(),
        Some(CatalogError::TooFewPoiTypes)
    );
    assert_eq!(
        PointOfInterest::generate(&catalog, &one).err(),
        Some(CatalogError::TooFewPoiTypes)
    );
    assert_eq!(Planet::generate(&catalog, &one).err(), Some(CatalogError::TooFewPoiTypes));
    assert_eq!(
        GameState::new(String::from("Ann"), ship(), &catalog, &one).err(),
        Some(CatalogError::TooFewPoiTypes)
    );
    let two = get_all_poi_types("Mine METAL POI_MINE\nFarm FOOD POI_FARM").unwrap();
    assert!(PointOfInterest::generate(&catalog, &two).is_ok());
}

#[test]
fn generate_inventory_and_demand_replace_only_their_table() {
    let catalog = catalog();
    let types = get_all_poi_types(TYPES).unwrap();
    let mut poi = PointOfInterest::generate(&catalog, &types).unwrap();
    let name = poi.name.clone();
    let demand = poi.demand.clone();
    let (x, y) = (poi.x, poi.y);
    poi.inventory.insert(77, 1);
    poi.generate_inventory(&catalog);
    assert_eq!(poi.name, name);
    assert_eq!(poi.demand, demand);
    assert_eq!((poi.x, poi.y), (x, y));
    check_poi(&poi, &catalog, &types);
    let inventory = poi.inventory.clone();
    poi.demand.insert(77, 1);
    poi.generate_demand(&catalog);
    assert_eq!(poi.inventory, inventory);
    check_poi(&poi, &catalog, &types);
}

#[test]
fn generated_planet_has_one_to_three_pois() {
    let catalog = catalog();
    let types = get_all_poi_types(TYPES).unwrap();
    let mut seen = [false; 4];
    for _ in 0..200 {
        let planet = Planet::generate(&catalog, &types).unwrap();
        assert!(1 <= planet.poi.len() && planet.poi.len() <= 3);
        seen[planet.poi.len()] = true;
        assert!(0 <= planet.x && planet.x < 100);
        assert!(0 <= planet.y && planet.y < 100);
        assert!(100_000 <= planet.population && planet.population < 10_000_000_000);
        assert!(!planet.name.is_empty());
        for poi in &planet.poi {
            check_poi(poi, &catalog, &types);
        }
    }
    assert!(seen[1] && seen[2] && seen[3]);
}

#[test]
fn new_game_has_six_or_seven_planets() {
    let catalog = catalog();
    let types = get_all_poi_types(TYPES).unwrap();
    for _ in 0..20 {
        let state = GameState::new(String::from("Ann"), ship(), &catalog, &types).unwrap();
        assert!(state.planets.len() == 6 || state.planets.len() == 7);
        assert_eq!(state.current_planet, 0);
        assert_eq!(state.current_poi, 0);
        assert_eq!(state.turn, 0);
        assert_eq!(state.player.name, "Ann");
        assert_eq!(state.player.money, 0);
        assert_eq!(state.player.ship.fuel_bits, 25.5f32.to_bits());
        assert_eq!(state.player.ship.specification.name, "Sparrow");
        for planet in &state.planets {
            for poi in &planet.poi {
                check_poi(poi, &catalog, &types);
            }
        }
    }
}

#[test]
fn random_between_stays_in_range() {
    for _ in 0..1000 {
        let drawn = random_between(-3, 4);
        assert!(-3 <= drawn && drawn < 4);
    }
    assert_eq!(random_between(5, 6), 5);
    assert_eq!(random_between(i32::MAX - 1, i32::MAX), i32::MAX - 1);
}

#[test]
fn random_between_draws_more_than_one_number() {
    let first = random_between(0, 1_000_000);
    let mut differs = false;
    for _ in 0..100 {
        if random_between(0, 1_000_000) != first {
            differs = true;
        }
    }
    assert!(differs);
}

#[test]
fn multiples() {
    assert!(is_multiple(0, 4));
    assert!(is_multiple(8, 4));
    assert!(is_multiple(-8, 4));
    assert!(is_multiple(8, -4));
    assert!(!is_multiple(9, 4));
    assert!(!is_multiple(-9, 4));
    assert!(is_multiple(i32::MIN, -1));
    assert!(is_multiple(i32::MIN, i32::MIN));
    assert!(!is_multiple(i32::MAX, i32::MIN));
    assert!(is_multiple(7, 1));
    for drawn in [-7, -4, -1, 0, 3, 12] {
        for chance in [-5, -2, 1, 2, 3, 4] {
            assert_eq!(is_multiple(drawn, chance), drawn % chance == 0);
        }
    }
}

#[test]
fn chance_of_one_in_one_is_certain() {
    for _ in 0..50 {
        assert!(maybe_chance(1));
        assert!(maybe_chance(-1));
    }
    let mut heads = 0;
    for _ in 0..1000 {
        if maybe() {
            heads += 1;
        }
    }
    assert!(0 < heads && heads < 1000);
}

#[test]
fn pick_index_is_the_remainder() {
    assert_eq!(pick_index(0, 5), 0);
    assert_eq!(pick_index(13, 5), 3);
    assert_eq!(pick_index(usize::MAX, 1), 0);
    assert_eq!(pick_index(4, 5), 4);
}

#[test]
fn pick_one_picks_an_element() {
    let pool = vec![3, 5, 8];
    for _ in 0..100 {
        assert!(pool.contains(&pick_one(&pool)));
    }
    assert_eq!(pick_one(&vec![String::from("only")]), "only");
}

#[test]
fn pick_x_picks_different_elements() {
    let pool = vec![1, 2, 3, 4, 5];
    for _ in 0..200 {
        let picked = pick_x(pool.clone(), false, 2);
        assert_eq!(picked.len(), 2);
        assert_ne!(picked[0], picked[1]);
        assert!(pool.contains(&picked[0]) && pool.contains(&picked[1]));
    }
    let mut all = pick_x(pool.clone(), false, 5);
    all.sort();
    assert_eq!(all, pool);
    let mut all = pick_x(pool.clone(), true, 5);
    all.sort();
    assert_eq!(all, pool);
    assert_eq!(pick_x(pool.clone(), false, 0), Vec::<i32>::new());
    assert_eq!(pick_x(pool.clone(), true, -1), Vec::<i32>::new());
}

#[test]
fn pick_x_hands_the_pool_back_where_it_is_too_small() {
    assert_eq!(pick_x(vec![1, 2, 3], false, 4), vec![1, 2, 3]);
    assert_eq!(pick_x(vec![1, 2, 3], false, -1), vec![1, 2, 3]);
    assert_eq!(pick_x(Vec::<i32>::new(), false, 2), Vec::<i32>::new());
}

#[test]
fn roman_numerals() {
    assert_eq!(n_to_roman(1), "I");
    assert_eq!(n_to_roman(14), "XIV");
    assert_eq!(n_to_roman(19), "XIX");
    assert_eq!(n_to_roman(1984), "MCMLXXXIV");
    assert_eq!(n_to_roman(3999), "MMMCMXCIX");
    assert_eq!(n_to_roman(0), "");
    assert_eq!(n_to_roman(-5), "");
    assert_eq!(n_to_roman(4000), "");
    assert_eq!(numeral_or_empty(Some(String::from("IX"))), "IX");
    assert_eq!(numeral_or_empty(None), "");
}

#[test]
fn numerals_keep_the_sign_of_the_number_drawn() {
    assert_eq!(numeral_from(0), 0);
    assert_eq!(numeral_from(19), 19);
    assert_eq!(numeral_from(20), 0);
    assert_eq!(numeral_from(47), 7);
    assert_eq!(numeral_from(-47), -7);
    assert_eq!(numeral_from(i32::MIN), -8);
    assert_eq!(numeral_from(i32::MAX), 7);
}

#[test]
fn tables_of_letters() {
    assert_eq!(PHONETICS.len(), 119);
    assert_eq!(PHONETICS[0], "AE");
    assert_eq!(PHONETICS[18], "UO");
    assert_eq!(PHONETICS[19], "BA");
    assert_eq!(PHONETICS[118], "ZU");
    assert!(is_among(&END_CONSONANTS, 'B'));
    assert!(is_among(&END_CONSONANTS, 'Z'));
    assert!(!is_among(&END_CONSONANTS, 'Q'));
    assert!(!is_among(&END_CONSONANTS, 'A'));
    assert!(is_among(&END_VOWELS, 'U'));
    assert!(is_among(&CAN_DOUBLE, 'C'));
    assert!(!is_among(&CAN_DOUBLE, 'B'));
    assert!(!is_among(&CAN_DOUBLE, 'c'));
}

#[test]
fn syllables_double_their_first_letter_where_it_can_be() {
    let mut name = String::from("BA");
    push_syllable(&mut name, "CO", true);
    assert_eq!(name, "BACCO");
    push_syllable(&mut name, "CO", false);
    assert_eq!(name, "BACCOCO");
    push_syllable(&mut name, "BU", true);
    assert_eq!(name, "BACCOCOBU");
    push_syllable(&mut name, "AE", true);
    assert_eq!(name, "BACCOCOBUAE");
    push_syllable(&mut name, "", true);
    assert_eq!(name, "BACCOCOBUAE");
}

#[test]
fn end_letters_alternate_with_the_last_letter() {
    let mut name = String::from("BA");
    push_end_letter(&mut name, 21);
    assert_eq!(name, "BAC");
    push_end_letter(&mut name, 7);
    assert_eq!(name, "BACI");
    let mut name = String::from("Q");
    push_end_letter(&mut name, 0);
    assert_eq!(name, "QB");
    let mut name = String::new();
    push_end_letter(&mut name, 19);
    assert_eq!(name, "Z");
}

#[test]
fn numerals_follow_a_blank() {
    let mut name = String::from("BA");
    push_numeral(&mut name, 4);
    assert_eq!(name, "BA IV");
    let mut name = String::from("BA");
    push_numeral(&mut name, 0);
    assert_eq!(name, "BA ");
    let mut name = String::from("BA");
    push_numeral(&mut name, -3);
    assert_eq!(name, "BA ");
}

fn letters(name: &str) -> bool {
    name.chars().all(|c| c.is_ascii_uppercase())
}

#[test]
fn default_names_are_syllables_with_an_optional_end_and_numeral() {
    for _ in 0..500 {
        let name = generate_name(NameGenerationParams::default());
        let (body, numeral) = match name.split_once(' ') {
            Some((body, numeral)) => (body, Some(numeral)),
            None => (name.as_str(), None),
        };
        assert!(letters(body));
        assert!(2 <= body.len() && body.len() <= 4 * 3 + 1 - 1);
        if let Some(numeral) = numeral {
            assert!(numeral.chars().all(|c| c == 'I' || c == 'V' || c == 'X'));
        }
    }
}

#[test]
fn names_follow_their_parameters() {
    for _ in 0..200 {
        let name = generate_name(NameGenerationParams {
            min: Some(2),
            max: Some(3),
            can_have_end_letter: Some(false),
            must_have_end_letter: None,
            can_have_numeral: Some(false),
            must_have_numeral: None,
        });
        assert!(letters(&name));
        assert!(name.len() == 4 || name.len() == 5);
        let name = generate_name(NameGenerationParams {
            min: Some(1),
            max: Some(2),
            can_have_end_letter: None,
            must_have_end_letter: Some(true),
            can_have_numeral: Some(false),
            must_have_numeral: Some(true),
        });
        let (body, _) = name.split_once(' ').unwrap();
        assert_eq!(body.len(), 3);
        assert!(is_among(&END_CONSONANTS, body.chars().last().unwrap()));
        let name = generate_name(NameGenerationParams {
            min: Some(-3),
            max: Some(1),
            can_have_end_letter: Some(false),
            must_have_end_letter: None,
            can_have_numeral: Some(false),
            must_have_numeral: None,
        });
        assert_eq!(name, "");
        let name = generate_name(NameGenerationParams {
            min: Some(0),
            max: Some(1),
            can_have_end_letter: None,
            must_have_end_letter: Some(true),
            can_have_numeral: Some(false),
            must_have_numeral: None,
        });
        assert_eq!(name.len(), 1);
        assert!(is_among(&END_CONSONANTS, name.chars().next().unwrap()));
    }
}
