//! Planets and their points of interest.
//!
//! A point of interest stocks every item of the catalog and has a demand
//! for each. Its two archetypes, a main one and a secondary one, decide
//! how much: an item whose category the main archetype favours is stocked
//! most and asked for least.

use crate::components::error::CatalogError;
use crate::components::item::Item;
use crate::util::generators::{default_params, generate_name, is_name, NameGenerationParams};
use crate::util::random::{pick_one, pick_x, random_between, random_in_range, selects};
use crate::util::tally::{all_within, keys_of, lemma_take_contains, same_keys};
use crate::util::text::{
    bounds_within, cut, field_bounds, fields, is_comment, line_bounds, lines, slices, split_bounds,
    split_on, to_chars,
};
use std::collections::HashMap;
use vstd::prelude::*;

verus! {

broadcast use vstd::std_specs::hash::group_hash_axioms;

pub const INV_MAX_MAIN_TYPE: i32 = 1000;

pub const INV_MIN_MAIN_TYPE: i32 = 400;

pub const DEM_MAX_MAIN_TYPE: i32 = 20;

pub const DEM_MIN_MAIN_TYPE: i32 = 1;

pub const INV_MAX_SUB_TYPE: i32 = 600;

pub const INV_MIN_SUB_TYPE: i32 = 200;

pub const DEM_MAX_SUB_TYPE: i32 = 30;

pub const DEM_MIN_SUB_TYPE: i32 = 5;

pub const INV_MAX_ANY: i32 = 300;

pub const INV_MIN_ANY: i32 = 100;

pub const DEM_MAX_ANY: i32 = 70;

pub const DEM_MIN_ANY: i32 = 30;

/// How well a planet is policed.
#[derive(Debug, Clone, Copy, PartialEq, Eq, Structural)]
pub enum SecurityLevel {
    Low,
    Medium,
    High,
}

/// An archetype of point of interest, with the item categories it favours.
pub struct POIType {
    pub name: String,
    pub categories: Vec<String>,
    pub description: String,
}

/// An archetype as a mathematical value.
pub struct PoiTypeView {
    pub name: Seq<char>,
    pub categories: Seq<Seq<char>>,
    pub description: Seq<char>,
}

impl View for POIType {
    type V = PoiTypeView;

    open spec fn view(&self) -> PoiTypeView {
        PoiTypeView {
            name: self.name@,
            categories: Seq::new(self.categories@.len(), |i: int| self.categories@[i]@),
            description: self.description@,
        }
    }
}

impl PoiTypeView {
    /// Whether the archetype favours items of this category.
    pub open spec fn favors(self, category: Seq<char>) -> bool {
        self.categories.contains(category)
    }
}

impl Clone for POIType {
    fn clone(&self) -> (copy: Self)
        ensures
            copy@ == self@,
    {
        let mut categories: Vec<String> = Vec::new();
        let mut i: usize = 0;
        while i < self.categories.len()
            invariant
                i <= self.categories@.len(),
                categories@.len() == i,
                forall|j: int| 0 <= j < i ==> (#[trigger] categories@[j])@ == self.categories@[j]@,
            decreases self.categories@.len() - i,
        {
            categories.push(self.categories[i].clone());
            i = i + 1;
        }
        let copy = POIType {
            name: self.name.clone(),
            categories,
            description: self.description.clone(),
        };
        assert(copy@.categories =~= self@.categories);
        copy
    }
}

impl POIType {
    /// Whether the archetype favours items of this category.
    pub fn favors(&self, category: &String) -> (yes: bool)
        ensures
            yes == self@.favors(category@),
    {
        let mut i: usize = 0;
        while i < self.categories.len()
            invariant
                i <= self.categories@.len(),
                forall|j: int| 0 <= j < i ==> self@.categories[j] != category@,
            decreases self.categories@.len() - i,
        {
            if self.categories[i] == *category {
                assert(self@.categories[i as int] == category@);
                return true;
            }
            i = i + 1;
        }
        false
    }
}

/// How an item's category relates to the two archetypes of a point of
/// interest.
#[derive(Debug, Clone, Copy, PartialEq, Eq, Structural)]
pub enum Tier {
    /// The main archetype favours the category.
    Main,
    /// The main archetype does not favour the category, the secondary one
    /// does.
    Sub,
    /// Neither archetype favours the category.
    Other,
}

/// The tier of a category under a main and a secondary archetype. The main
/// archetype is asked first.
pub open spec fn tier_of(types: (PoiTypeView, PoiTypeView), category: Seq<char>) -> Tier {
    if types.0.favors(category) {
        Tier::Main
    } else if types.1.favors(category) {
        Tier::Sub
    } else {
        Tier::Other
    }
}

/// The half-open range from which the stock of an item of this tier is
/// drawn.
pub open spec fn inventory_range(tier: Tier) -> (int, int) {
    match tier {
        Tier::Main => (INV_MIN_MAIN_TYPE as int, INV_MAX_MAIN_TYPE as int),
        Tier::Sub => (INV_MIN_SUB_TYPE as int, INV_MAX_SUB_TYPE as int),
        Tier::Other => (INV_MIN_ANY as int, INV_MAX_ANY as int),
    }
}

/// The half-open range from which the demand for an item of this tier is
/// drawn.
pub open spec fn demand_range(tier: Tier) -> (int, int) {
    match tier {
        Tier::Main => (DEM_MIN_MAIN_TYPE as int, DEM_MAX_MAIN_TYPE as int),
        Tier::Sub => (DEM_MIN_SUB_TYPE as int, DEM_MAX_SUB_TYPE as int),
        Tier::Other => (DEM_MIN_ANY as int, DEM_MAX_ANY as int),
    }
}

/// The half-open range from which an amount for an item of this tier is
/// drawn: of stock where `stock`, of demand otherwise.
pub open spec fn tier_range(tier: Tier, stock: bool) -> (int, int) {
    if stock {
        inventory_range(tier)
    } else {
        demand_range(tier)
    }
}

/// Whether `value` lies in the half-open `range`.
pub open spec fn in_range(value: int, range: (int, int)) -> bool {
    range.0 <= value < range.1
}

/// A place on a planet where goods are traded.
pub struct PointOfInterest {
    pub name: String,
    pub description: String,
    /// Amounts of items
    pub inventory: HashMap<u32, i32>,
    /// Demand for each item, as a percentage (ie 1-100)
    pub demand: HashMap<u32, i32>,
    pub x: i32,
    pub y: i32,
    /// The main archetype, then the secondary one.
    pub types: (POIType, POIType),
}

/// A point of interest as a mathematical value.
pub struct PoiView {
    pub name: Seq<char>,
    pub description: Seq<char>,
    pub inventory: Map<u32, i32>,
    pub demand: Map<u32, i32>,
    pub x: int,
    pub y: int,
    pub types: (PoiTypeView, PoiTypeView),
}

impl View for PointOfInterest {
    type V = PoiView;

    open spec fn view(&self) -> PoiView {
        PoiView {
            name: self.name@,
            description: self.description@,
            inventory: self.inventory@,
            demand: self.demand@,
            x: self.x as int,
            y: self.y as int,
            types: (self.types.0@, self.types.1@),
        }
    }
}

impl PoiView {
    /// There is a demand for finitely many items, and each is a percentage
    /// from 1 to 100.
    pub open spec fn demands_ok(self) -> bool {
        &&& self.demand.dom().finite()
        &&& forall|key: u32| #[trigger] self.demand.contains_key(key) ==> 1 <= self.demand[key] <= 100
    }

    /// Stock and demand are kept for the same items, no stock is negative,
    /// the demands are in order, and the position lies on the 100 by 100
    /// map.
    pub open spec fn wf(self) -> bool {
        &&& self.demands_ok()
        &&& self.inventory.dom() == self.demand.dom()
        &&& forall|key: u32| #[trigger]
            self.inventory.contains_key(key) ==> self.inventory[key] >= 0
        &&& 0 <= self.x < 100
        &&& 0 <= self.y < 100
    }

    /// Stock and demand are kept for exactly the items of the catalog.
    pub open spec fn covers(self, catalog: Map<u32, Item>) -> bool {
        self.inventory.dom() == catalog.dom() && self.demand.dom() == catalog.dom()
    }

    /// The stock of every catalog item lies in the range of its tier.
    pub open spec fn stocked_by_tier(self, catalog: Map<u32, Item>) -> bool {
        forall|key: u32| #[trigger]
            catalog.contains_key(key) ==> self.inventory.contains_key(key) && in_range(
                self.inventory[key] as int,
                inventory_range(tier_of(self.types, catalog[key]@.category)),
            )
    }

    /// The demand for every catalog item lies in the range of its tier.
    pub open spec fn demanded_by_tier(self, catalog: Map<u32, Item>) -> bool {
        forall|key: u32| #[trigger]
            catalog.contains_key(key) ==> self.demand.contains_key(key) && in_range(
                self.demand[key] as int,
                demand_range(tier_of(self.types, catalog[key]@.category)),
            )
    }

    /// What holds of a point of interest that was generated from the
    /// catalog: it is well-formed, it stocks and asks for exactly the items
    /// of the catalog, and the stock of and the demand for each item lie in
    /// the ranges of the item's tier.
    pub open spec fn generated_from(self, catalog: Map<u32, Item>) -> bool {
        &&& self.wf()
        &&& self.covers(catalog)
        &&& self.stocked_by_tier(catalog)
        &&& self.demanded_by_tier(catalog)
    }
}

impl PointOfInterest {
    /// Decides `wf`.
    pub fn is_wf(&self) -> (ok: bool)
        ensures
            ok == self@.wf(),
    {
        0 <= self.x && self.x < 100 && 0 <= self.y && self.y < 100 && same_keys(
            &self.inventory,
            &self.demand,
        ) && all_within(&self.inventory, 0, i32::MAX) && all_within(&self.demand, 1, 100)
    }

    /// The tier of an item category here.
    pub fn tier_of(&self, category: &String) -> (tier: Tier)
        ensures
            tier == tier_of(self@.types, category@),
    {
        if self.types.0.favors(category) {
            Tier::Main
        } else if self.types.1.favors(category) {
            Tier::Sub
        } else {
            Tier::Other
        }
    }
}

/// The range from which the stock of an item of this tier is drawn.
pub fn inventory_bounds(tier: Tier) -> (bounds: (i32, i32))
    ensures
        (bounds.0 as int, bounds.1 as int) == inventory_range(tier),
        bounds.0 < bounds.1,
{
    match tier {
        Tier::Main => (INV_MIN_MAIN_TYPE, INV_MAX_MAIN_TYPE),
        Tier::Sub => (INV_MIN_SUB_TYPE, INV_MAX_SUB_TYPE),
        Tier::Other => (INV_MIN_ANY, INV_MAX_ANY),
    }
}

/// The range from which the demand for an item of this tier is drawn.
pub fn demand_bounds(tier: Tier) -> (bounds: (i32, i32))
    ensures
        (bounds.0 as int, bounds.1 as int) == demand_range(tier),
        bounds.0 < bounds.1,
{
    match tier {
        Tier::Main => (DEM_MIN_MAIN_TYPE, DEM_MAX_MAIN_TYPE),
        Tier::Sub => (DEM_MIN_SUB_TYPE, DEM_MAX_SUB_TYPE),
        Tier::Other => (DEM_MIN_ANY, DEM_MAX_ANY),
    }
}

/// Copies a list of archetypes.
fn copy_types(poi_types: &Vec<POIType>) -> (copy: Vec<POIType>)
    ensures
        copy@.len() == poi_types@.len(),
        forall|i: int| 0 <= i < copy@.len() ==> (#[trigger] copy@[i])@ == poi_types@[i]@,
{
    let mut copy: Vec<POIType> = Vec::new();
    let mut i: usize = 0;
    while i < poi_types.len()
        invariant
            i <= poi_types@.len(),
            copy@.len() == i,
            forall|j: int| 0 <= j < i ==> (#[trigger] copy@[j])@ == poi_types@[j]@,
        decreases poi_types@.len() - i,
    {
        copy.push(poi_types[i].clone());
        i = i + 1;
    }
    copy
}

/// The two archetypes are those at two different places of the list.
pub open spec fn two_of(types: (PoiTypeView, PoiTypeView), poi_types: Seq<POIType>) -> bool {
    exists|i: int, j: int|
        0 <= i < poi_types.len() && 0 <= j < poi_types.len() && i != j && types.0
            == (#[trigger] poi_types[i])@ && types.1 == (#[trigger] poi_types[j])@
}

impl PointOfInterest {
    /// A random point of interest for the catalog, with two different
    /// archetypes of the list: the main one and the secondary one.
    ///
    /// Fails where the list holds fewer than two archetypes.
    pub fn generate(items: &HashMap<u32, Item>, poi_types: &Vec<POIType>) -> (made: Result<
        PointOfInterest,
        CatalogError,
    >)
        ensures
            match made {
                Ok(poi) => {
                    &&& poi_types@.len() >= 2
                    &&& poi@.generated_from(items@)
                    &&& two_of(poi@.types, poi_types@)
                    &&& poi@.description == "A point of interest"@
                    &&& is_name(default_params(), poi@.name)
                },
                Err(e) => poi_types@.len() < 2 && e == CatalogError::TooFewPoiTypes,
            },
    {
        if poi_types.len() < 2 {
            return Err(CatalogError::TooFewPoiTypes);
        }
        let x = random_between(0, 100);
        let y = random_between(0, 100);
        let pool = copy_types(poi_types);
        let mut types = pick_x(pool, false, 2);
        let ghost picked = types@;
        proof {
            let from = choose|from: Seq<int>| selects(pool@, picked, from);
            assert(from[0] != from[1]);
            assert(picked[0]@ == poi_types@[from[0]]@);
            assert(picked[1]@ == poi_types@[from[1]]@);
        }
        let sub = types.pop().unwrap();
        let main = types.pop().unwrap();
        assert(main == picked[0] && sub == picked[1]);
        let mut poi = PointOfInterest {
            name: generate_name(NameGenerationParams::default()),
            description: "A point of interest".to_owned(),
            inventory: HashMap::new(),
            demand: HashMap::new(),
            x,
            y,
            types: (main, sub),
        };
        poi.generate_inventory(items);
        poi.generate_demand(items);
        Ok(poi)
    }

    /// A table for every item of the catalog: an amount of stock where
    /// `stock`, a demand otherwise, each drawn from the range of the item's
    /// tier here.
    fn draw_table(&self, items: &HashMap<u32, Item>, stock: bool) -> (table: HashMap<u32, i32>)
        ensures
            table@.dom() == items@.dom(),
            forall|key: u32| #[trigger]
                items@.contains_key(key) ==> in_range(
                    table@[key] as int,
                    tier_range(tier_of(self@.types, items@[key]@.category), stock),
                ),
    {
        let keys = keys_of(items);
        let mut table: HashMap<u32, i32> = HashMap::new();
        let mut i: usize = 0;
        assert(keys@.take(0) =~= Seq::<u32>::empty());
        while i < keys.len()
            invariant
                i <= keys@.len(),
                forall|key: u32| items@.contains_key(key) <==> keys@.contains(key),
                forall|key: u32|
                    #![trigger table@.contains_key(key)]
                    table@.contains_key(key) <==> keys@.take(i as int).contains(key),
                forall|key: u32| #[trigger]
                    table@.contains_key(key) ==> in_range(
                        table@[key] as int,
                        tier_range(tier_of(self@.types, items@[key]@.category), stock),
                    ),
            decreases keys@.len() - i,
        {
            let key = keys[i];
            assert(keys@.contains(key));
            let ghost earlier = table@;
            match items.get(&key) {
                Some(item) => {
                    // Main type, big amount; other stuff, not a whole lot
                    let tier = self.tier_of(&item.category);
                    let (low, high) = if stock {
                        inventory_bounds(tier)
                    } else {
                        demand_bounds(tier)
                    };
                    table.insert(key, random_between(low, high));
                },
                None => {},
            }
            assert forall|k: u32|
                #![trigger table@.contains_key(k)]
                table@.contains_key(k) <==> keys@.take(i + 1).contains(k) by {
                lemma_take_contains(keys@, i as int, k);
                assert(earlier.contains_key(k) <==> keys@.take(i as int).contains(k));
            }
            i = i + 1;
        }
        assert(keys@.take(keys@.len() as int) =~= keys@);
        assert(table@.dom() =~= items@.dom());
        table
    }

    /// Stocks the point of interest anew: for every item of the catalog an
    /// amount drawn from the range of the item's tier. Nothing else
    /// changes.
    pub fn generate_inventory(&mut self, items: &HashMap<u32, Item>)
        ensures
            final(self)@ == (PoiView { inventory: final(self)@.inventory, ..old(self)@ }),
            final(self)@.inventory.dom() == items@.dom(),
            final(self)@.stocked_by_tier(items@),
    {
        let inventory = self.draw_table(items, true);
        self.inventory = inventory;
    }

    /// Sets the demands of the point of interest anew: for every item of
    /// the catalog a percentage drawn from the range of the item's tier.
    /// Nothing else changes.
    pub fn generate_demand(&mut self, items: &HashMap<u32, Item>)
        ensures
            final(self)@ == (PoiView { demand: final(self)@.demand, ..old(self)@ }),
            final(self)@.demand.dom() == items@.dom(),
            final(self)@.demanded_by_tier(items@),
    {
        let demand = self.draw_table(items, false);
        self.demand = demand;
    }
}

/// A planet with its points of interest.
pub struct Planet {
    pub name: String,
    pub population: i64,
    pub poi: Vec<PointOfInterest>,
    pub x: i32,
    pub y: i32,
    pub security: SecurityLevel,
}

/// A planet as a mathematical value.
pub struct PlanetView {
    pub name: Seq<char>,
    pub population: int,
    pub poi: Seq<PoiView>,
    pub x: int,
    pub y: int,
    pub security: SecurityLevel,
}

impl View for Planet {
    type V = PlanetView;

    open spec fn view(&self) -> PlanetView {
        PlanetView {
            name: self.name@,
            population: self.population as int,
            poi: Seq::new(self.poi@.len(), |i: int| self.poi@[i]@),
            x: self.x as int,
            y: self.y as int,
            security: self.security,
        }
    }
}

impl PlanetView {
    /// The planet has one to three points of interest, each of them
    /// well-formed, and its position lies on the 100 by 100 map.
    pub open spec fn wf(self) -> bool {
        &&& 1 <= self.poi.len() <= 3
        &&& forall|i: int| 0 <= i < self.poi.len() ==> (#[trigger] self.poi[i]).wf()
        &&& 0 <= self.x < 100
        &&& 0 <= self.y < 100
    }

    /// What holds of a planet that was generated from the catalog: it is
    /// well-formed, and so is each of its points of interest for the
    /// catalog.
    pub open spec fn generated_from(self, catalog: Map<u32, Item>) -> bool {
        &&& self.wf()
        &&& forall|i: int|
            0 <= i < self.poi.len() ==> (#[trigger] self.poi[i]).generated_from(catalog)
    }
}

impl Planet {
    /// Decides `wf`.
    pub fn is_wf(&self) -> (ok: bool)
        ensures
            ok == self@.wf(),
    {
        if !(0 <= self.x && self.x < 100 && 0 <= self.y && self.y < 100) {
            return false;
        }
        if self.poi.len() < 1 || self.poi.len() > 3 {
            return false;
        }
        let mut i: usize = 0;
        while i < self.poi.len()
            invariant
                i <= self.poi@.len(),
                forall|j: int| 0 <= j < i ==> (#[trigger] self@.poi[j]).wf(),
            decreases self.poi@.len() - i,
        {
            assert(self@.poi[i as int] == self.poi@[i as int]@);
            if !self.poi[i].is_wf() {
                return false;
            }
            i = i + 1;
        }
        true
    }

    /// A random planet with one to three points of interest, each made for
    /// the catalog with archetypes of the list.
    ///
    /// Fails where the list holds fewer than two archetypes.
    pub fn generate(items: &HashMap<u32, Item>, poi_types: &Vec<POIType>) -> (made: Result<
        Planet,
        CatalogError,
    >)
        ensures
            match made {
                Ok(planet) => {
                    &&& poi_types@.len() >= 2
                    &&& planet@.generated_from(items@)
                    &&& 100_000 <= planet@.population < 10_000_000_000
                    &&& is_name(default_params(), planet@.name)
                },
                Err(e) => poi_types@.len() < 2 && e == CatalogError::TooFewPoiTypes,
            },
    {
        if poi_types.len() < 2 {
            return Err(CatalogError::TooFewPoiTypes);
        }
        // Create 1-4 random POI
        let count = random_between(1, 4);
        let mut poi: Vec<PointOfInterest> = Vec::new();
        let mut i: i32 = 0;
        while i < count
            invariant
                0 <= i <= count < 4,
                poi@.len() == i,
                poi_types@.len() >= 2,
                forall|j: int| 0 <= j < poi@.len() ==> (#[trigger] poi@[j])@.generated_from(items@),
            decreases count - i,
        {
            match PointOfInterest::generate(items, poi_types) {
                Ok(made) => {
                    poi.push(made);
                },
                Err(e) => {
                    return Err(e);
                },
            }
            i = i + 1;
        }
        let x = random_between(0, 100);
        let y = random_between(0, 100);
        let levels: Vec<SecurityLevel> = vec![
            SecurityLevel::Low,
            SecurityLevel::Medium,
            SecurityLevel::High,
        ];
        let planet = Planet {
            name: generate_name(NameGenerationParams::default()),
            population: random_in_range(100_000, 10_000_000_000),
            poi,
            x,
            y,
            security: pick_one(&levels),
        };
        Ok(planet)
    }
}

/// The number of fields of the record of an archetype: name, categories
/// and description.
pub const POI_TYPE_FIELDS: usize = 3;

/// The archetype that a record line describes: a name, the categories it
/// favours, which are the pieces of the second field between commas, and a
/// description. `None` where the line has fewer than the three fields of a
/// record. What follows the third field is passed over.
pub open spec fn poi_type_of_line(line: Seq<char>) -> Option<PoiTypeView> {
    let record = fields(line);
    if record.len() < POI_TYPE_FIELDS {
        None
    } else {
        Some(
            PoiTypeView {
                name: record[0],
                categories: split_on(record[1], ','),
                description: record[2],
            },
        )
    }
}

/// The archetypes that a sequence of lines lists, in order. A line that
/// starts with `#` is a comment and is passed over. Every other line has
/// to be a record: a blank line is malformed like any other line with too
/// few fields. The first malformed line stops the reading, and the error
/// names it.
pub open spec fn poi_types_of_lines(lines: Seq<Seq<char>>) -> Result<
    Seq<PoiTypeView>,
    CatalogError,
>
    decreases lines.len(),
{
    if lines.len() == 0 {
        Ok(Seq::empty())
    } else {
        match poi_types_of_lines(lines.drop_last()) {
            Err(e) => Err(e),
            Ok(types) => if is_comment(lines.last()) {
                Ok(types)
            } else {
                match poi_type_of_line(lines.last()) {
                    Some(poi_type) => Ok(types.push(poi_type)),
                    None => Err(CatalogError::MalformedRecord { line: lines.len() as usize }),
                }
            },
        }
    }
}

/// The archetypes of a list as mathematical values.
pub open spec fn poi_type_views(types: Seq<POIType>) -> Seq<PoiTypeView> {
    Seq::new(types.len(), |i: int| types[i]@)
}

/// Reads the record of an archetype in the characters `from..to` of
/// `text`.
fn read_poi_type(text: &str, chars: &Vec<char>, from: usize, to: usize) -> (poi_type: Option<
    POIType,
>)
    requires
        chars@ == text@,
        from <= to <= chars@.len(),
    ensures
        match poi_type_of_line(text@.subrange(from as int, to as int)) {
            Some(view) => poi_type is Some && poi_type->0@ == view,
            None => poi_type is None,
        },
{
    let record = field_bounds(chars, from, to);
    let ghost parts = fields(text@.subrange(from as int, to as int));
    assert(parts.len() == record@.len()) by {
        assert(slices(chars@, record@).len() == record@.len());
    }
    assert forall|i: int| 0 <= i < record@.len() implies parts[i] == text@.subrange(
        record@[i].0 as int,
        record@[i].1 as int,
    ) by {
        assert(slices(chars@, record@)[i] == chars@.subrange(
            record@[i].0 as int,
            record@[i].1 as int,
        ));
    }
    if record.len() < POI_TYPE_FIELDS {
        return None;
    }
    let name = cut(text, record[0].0, record[0].1);
    let mut categories: Vec<String> = Vec::new();
    let pieces = split_bounds(chars, record[1].0, record[1].1, ',');
    let ghost wanted = split_on(parts[1], ',');
    assert(wanted.len() == pieces@.len()) by {
        assert(slices(chars@, pieces@).len() == pieces@.len());
    }
    let mut i: usize = 0;
    while i < pieces.len()
        invariant
            i <= pieces@.len(),
            chars@ == text@,
            wanted == slices(chars@, pieces@),
            wanted.len() == pieces@.len(),
            bounds_within(pieces@, 0, chars@.len() as int),
            categories@.len() == i,
            forall|j: int| 0 <= j < i ==> (#[trigger] categories@[j])@ == wanted[j],
        decreases pieces@.len() - i,
    {
        let (a, b) = pieces[i];
        assert(wanted[i as int] == chars@.subrange(a as int, b as int));
        categories.push(cut(text, a, b));
        i = i + 1;
    }
    let description = cut(text, record[2].0, record[2].1);
    let poi_type = POIType { name, categories, description };
    assert(poi_type@.categories =~= wanted);
    Some(poi_type)
}

/// Reads a catalog of archetypes: a text with one record per line,
///
/// ```text
/// NAME CATEGORY1,CATEGORY2,... DESCRIPTION
/// ```
///
/// with fields separated by white space. A line that starts with `#` is a
/// comment. Every other line has to hold all three fields.
///
/// Returns the archetypes in the order of their lines, or the first
/// malformed line.
pub fn get_all_poi_types(text: &str) -> (loaded: Result<Vec<POIType>, CatalogError>)
    ensures
        match poi_types_of_lines(lines(text@)) {
            Ok(views) => loaded is Ok && poi_type_views(loaded->Ok_0@) == views,
            Err(e) => loaded == Err::<Vec<POIType>, CatalogError>(e),
        },
{
    let chars = to_chars(text);
    let bounds = line_bounds(&chars);
    let ghost all = lines(text@);
    assert(all.len() == bounds@.len()) by {
        assert(slices(chars@, bounds@).len() == bounds@.len());
    }
    let mut loaded: Vec<POIType> = Vec::new();
    let mut i: usize = 0;
    assert(all.take(0) =~= Seq::<Seq<char>>::empty());
    assert(poi_type_views(loaded@) =~= Seq::<PoiTypeView>::empty());
    while i < bounds.len()
        invariant
            i <= bounds@.len(),
            chars@ == text@,
            all == lines(text@),
            all == slices(chars@, bounds@),
            all.len() == bounds@.len(),
            bounds_within(bounds@, 0, chars@.len() as int),
            poi_types_of_lines(all.take(i as int)) == Ok::<Seq<PoiTypeView>, CatalogError>(
                poi_type_views(loaded@),
            ),
        decreases bounds@.len() - i,
    {
        let (from, to) = bounds[i];
        let ghost line = all[i as int];
        assert(line == chars@.subrange(from as int, to as int));
        assert(all.take(i + 1).drop_last() =~= all.take(i as int));
        assert(all.take(i + 1).last() == line);
        let comment = from < to && chars[from] == '#';
        assert(comment == is_comment(line));
        if !comment {
            match read_poi_type(text, &chars, from, to) {
                Some(poi_type) => {
                    let ghost before = poi_type_views(loaded@);
                    loaded.push(poi_type);
                    assert(poi_type_views(loaded@) =~= before.push(poi_type@));
                },
                None => {
                    proof {
                        lemma_poi_types_error_stays(all, i + 1);
                    }
                    return Err(CatalogError::MalformedRecord { line: i + 1 });
                },
            }
        }
        i = i + 1;
    }
    assert(all.take(all.len() as int) =~= all);
    Ok(loaded)
}

/// An error in a prefix of the lines is the error of the whole.
proof fn lemma_poi_types_error_stays(lines: Seq<Seq<char>>, n: int)
    requires
        0 <= n <= lines.len(),
        poi_types_of_lines(lines.take(n)) is Err,
    ensures
        poi_types_of_lines(lines) == poi_types_of_lines(lines.take(n)),
    decreases lines.len() - n,
{
    if n == lines.len() {
        assert(lines.take(n) =~= lines);
    } else {
        assert(lines.take(n + 1).drop_last() =~= lines.take(n));
        lemma_poi_types_error_stays(lines, n + 1);
    }
}

} // verus!
