//! Tradable items and the catalog that lists them.
//!
//! An item catalog is a text with one record per line:
//!
//! ```text
//! ID NAME LOW HIGH CATEGORY ILLEGAL DESCRIPTION_KEY
//! ```
//!
//! Fields are separated by white space. A line that starts with `#` is a
//! comment. Every other line has to hold all seven fields, with numbers
//! for the id and the two prices, the low price no higher than the high
//! one, `true` or `false` for the flag, and an id that no earlier record
//! has. A catalog with a line that is not in order is not loaded.

use crate::components::error::CatalogError;
use crate::util::text::{
    bounds_within, cut, field_bounds, fields, flag_of, is_comment, line_bounds, lines, number_of,
    read_flag, read_number, slices, to_chars,
};
use std::collections::HashMap;
use vstd::prelude::*;

verus! {

broadcast use vstd::std_specs::hash::group_hash_axioms;

/// A tradable good.
#[derive(Debug)]
pub struct Item {
    pub id: i32,
    pub name: String,
    pub description: String,
    pub category: String,
    /// Lowest price this item can be
    pub low_price: i32,
    /// Highest price this item can be
    pub high_price: i32,
    pub illegal: bool,
}

/// An item as a mathematical value.
pub struct ItemView {
    pub id: int,
    pub name: Seq<char>,
    pub description: Seq<char>,
    pub category: Seq<char>,
    pub low_price: int,
    pub high_price: int,
    pub illegal: bool,
}

impl View for Item {
    type V = ItemView;

    open spec fn view(&self) -> ItemView {
        ItemView {
            id: self.id as int,
            name: self.name@,
            description: self.description@,
            category: self.category@,
            low_price: self.low_price as int,
            high_price: self.high_price as int,
            illegal: self.illegal,
        }
    }
}

/// The key under which markets and the catalog index file an item id: the
/// id itself, or for a negative id the id plus 2^32.
pub open spec fn item_key(id: int) -> u32 {
    if id >= 0 {
        id as u32
    } else {
        (id + 0x1_0000_0000) as u32
    }
}

impl ItemView {
    /// The price bounds are in order.
    pub open spec fn wf(self) -> bool {
        self.low_price <= self.high_price
    }

    /// The key of this item in markets and in the catalog index.
    pub open spec fn key(self) -> u32 {
        item_key(self.id)
    }
}

impl Item {
    /// The price bounds are in order.
    pub open spec fn wf(&self) -> bool {
        self@.wf()
    }

    /// The key of this item in markets and in the catalog index.
    pub fn key(&self) -> (key: u32)
        ensures
            key == self@.key(),
    {
        key_of_id(self.id)
    }
}

/// The key under which an item id is filed.
pub fn key_of_id(id: i32) -> (key: u32)
    ensures
        key == item_key(id as int),
{
    if id >= 0 {
        id as u32
    } else {
        (id as i64 + 0x1_0000_0000) as u32
    }
}

impl Clone for Item {
    fn clone(&self) -> (copy: Self)
        ensures
            copy == *self,
    {
        Item {
            id: self.id,
            name: self.name.clone(),
            description: self.description.clone(),
            category: self.category.clone(),
            low_price: self.low_price,
            high_price: self.high_price,
            illegal: self.illegal,
        }
    }
}

/// The items of a list as mathematical values.
pub open spec fn item_views(items: Seq<Item>) -> Seq<ItemView> {
    Seq::new(items.len(), |i: int| items[i]@)
}

/// The index that a list of items fills: each item under its key, a later
/// item taking the place of an earlier one with the same key.
pub open spec fn index_of(items: Seq<Item>) -> Map<u32, Item>
    decreases items.len(),
{
    if items.len() == 0 {
        Map::empty()
    } else {
        index_of(items.drop_last()).insert(items.last()@.key(), items.last())
    }
}

/// An index files every item under its own key, and every item in it has
/// its price bounds in order.
pub open spec fn index_wf(index: Map<u32, Item>) -> bool {
    forall|key: u32| #[trigger]
        index.contains_key(key) ==> index[key]@.key() == key && index[key].wf()
}

/// The index of items that have their price bounds in order is
/// well-formed.
pub proof fn lemma_index_wf(items: Seq<Item>)
    requires
        forall|i: int| 0 <= i < items.len() ==> (#[trigger] items[i]).wf(),
    ensures
        index_wf(index_of(items)),
    decreases items.len(),
{
    if items.len() > 0 {
        assert forall|i: int| 0 <= i < items.drop_last().len() implies (
        #[trigger] items.drop_last()[i]).wf() by {
            assert(items.drop_last()[i] == items[i]);
        }
        lemma_index_wf(items.drop_last());
        assert(items.last().wf());
    }
}

/// Builds the catalog index of a list of items.
pub fn index_items(items: &Vec<Item>) -> (index: HashMap<u32, Item>)
    ensures
        index@ == index_of(items@),
        (forall|i: int| 0 <= i < items@.len() ==> (#[trigger] items@[i]).wf()) ==> index_wf(
            index@,
        ),
{
    proof {
        if forall|i: int| 0 <= i < items@.len() ==> (#[trigger] items@[i]).wf() {
            lemma_index_wf(items@);
        }
    }
    let mut index: HashMap<u32, Item> = HashMap::new();
    let mut i: usize = 0;
    assert(items@.take(0) =~= Seq::<Item>::empty());
    while i < items.len()
        invariant
            i <= items@.len(),
            index@ == index_of(items@.take(i as int)),
        decreases items@.len() - i,
    {
        let item = items[i].clone();
        assert(items@.take(i + 1).drop_last() =~= items@.take(i as int));
        index.insert(item.key(), item);
        i = i + 1;
    }
    assert(items@.take(items@.len() as int) =~= items@);
    index
}

/// Looks an item up in the catalog index.
pub fn get_item_by_id(index: &HashMap<u32, Item>, id: i32) -> (found: Option<Item>)
    ensures
        found == (if index@.contains_key(item_key(id as int)) {
            Some(index@[item_key(id as int)])
        } else {
            None
        }),
{
    let key = key_of_id(id);
    match index.get(&key) {
        Some(item) => Some(item.clone()),
        None => None,
    }
}

/// The position of the first item of `items` whose key is `key`.
pub open spec fn first_with_key(items: Seq<Item>, key: u32) -> Option<int>
    decreases items.len(),
{
    if items.len() == 0 {
        None
    } else {
        match first_with_key(items.drop_last(), key) {
            Some(i) => Some(i),
            None => if items.last()@.key() == key {
                Some(items.len() - 1)
            } else {
                None
            },
        }
    }
}

/// What `first_with_key` finds is a position of the list whose item has
/// the key, with no such item before it; it finds nothing only where no
/// item has the key.
pub proof fn lemma_first_with_key(items: Seq<Item>, key: u32)
    ensures
        match first_with_key(items, key) {
            Some(i) => {
                &&& 0 <= i < items.len()
                &&& items[i]@.key() == key
                &&& forall|j: int| 0 <= j < i ==> (#[trigger] items[j])@.key() != key
            },
            None => forall|j: int| 0 <= j < items.len() ==> (#[trigger] items[j])@.key() != key,
        },
    decreases items.len(),
{
    if items.len() > 0 {
        let rest = items.drop_last();
        lemma_first_with_key(rest, key);
        assert forall|j: int| 0 <= j < rest.len() implies rest[j] == items[j] by {}
        match first_with_key(rest, key) {
            Some(i) => {
                assert forall|j: int| 0 <= j < i implies (#[trigger] items[j])@.key() != key by {
                    assert(rest[j]@.key() != key);
                }
            },
            None => {
                assert forall|j: int| 0 <= j < rest.len() implies (#[trigger] items[j])@.key()
                    != key by {
                    assert(rest[j]@.key() != key);
                }
            },
        }
    }
}

/// Finds the first item of `items` whose key is `key`.
pub fn position_of(items: &Vec<Item>, key: u32) -> (found: Option<usize>)
    ensures
        match found {
            Some(i) => first_with_key(items@, key) == Some(i as int) && i < items@.len()
                && items@[i as int]@.key() == key,
            None => first_with_key(items@, key) is None,
        },
{
    let mut i: usize = 0;
    assert(items@.take(0) =~= Seq::<Item>::empty());
    while i < items.len()
        invariant
            i <= items@.len(),
            first_with_key(items@.take(i as int), key) is None,
        decreases items@.len() - i,
    {
        assert(items@.take(i + 1).drop_last() =~= items@.take(i as int));
        if items[i].key() == key {
            proof {
                lemma_first_with_key_stays(items@, key, i + 1);
            }
            return Some(i);
        }
        i = i + 1;
    }
    assert(items@.take(items@.len() as int) =~= items@);
    None
}

/// Once a prefix of a list holds the key, the first position that holds it
/// is the same in every longer prefix.
proof fn lemma_first_with_key_stays(items: Seq<Item>, key: u32, n: int)
    requires
        0 <= n <= items.len(),
        first_with_key(items.take(n), key) is Some,
    ensures
        first_with_key(items, key) == first_with_key(items.take(n), key),
    decreases items.len() - n,
{
    if n == items.len() {
        assert(items.take(n) =~= items);
    } else {
        assert(items.take(n + 1).drop_last() =~= items.take(n));
        lemma_first_with_key_stays(items, key, n + 1);
    }
}

/// The number of fields of a record: id, name, low price, high price,
/// category, legality flag and description key.
pub const ITEM_FIELDS: usize = 7;

/// The item that a record line describes, `None` where the line is
/// malformed: it has fewer than the seven fields of a record, the id, a
/// price or the legality flag cannot be read, or the low price is above the
/// high price. What follows the seventh field is passed over.
pub open spec fn item_of_line(line: Seq<char>) -> Option<ItemView> {
    let record = fields(line);
    if record.len() < ITEM_FIELDS {
        None
    } else {
        let id = number_of(record[0]);
        let low = number_of(record[2]);
        let high = number_of(record[3]);
        let illegal = flag_of(record[5]);
        if id is Some && low is Some && high is Some && illegal is Some && low->0 <= high->0 {
            Some(
                ItemView {
                    id: id->0 as int,
                    name: record[1],
                    description: record[6],
                    category: record[4],
                    low_price: low->0 as int,
                    high_price: high->0 as int,
                    illegal: illegal->0,
                },
            )
        } else {
            None
        }
    }
}

/// Whether one of the items is filed under the key.
pub open spec fn holds_key(items: Seq<ItemView>, key: u32) -> bool {
    exists|i: int| 0 <= i < items.len() && (#[trigger] items[i]).key() == key
}

/// No two of the items have the same key, and so none the same id.
pub open spec fn distinct_keys(items: Seq<ItemView>) -> bool {
    forall|a: int, b: int|
        #![trigger items[a], items[b]]
        0 <= a < b < items.len() ==> items[a].key() != items[b].key()
}

/// The items that a sequence of lines lists, in order. A line that starts
/// with `#` is a comment and is passed over. Every other line has to be a
/// well-formed record with an id that no record before it has: a blank
/// line is malformed like any other line without fields. The first line
/// that is not in order stops the reading, and the error names it.
pub open spec fn items_of_lines(lines: Seq<Seq<char>>) -> Result<Seq<ItemView>, CatalogError>
    decreases lines.len(),
{
    if lines.len() == 0 {
        Ok(Seq::empty())
    } else {
        match items_of_lines(lines.drop_last()) {
            Err(e) => Err(e),
            Ok(items) => if is_comment(lines.last()) {
                Ok(items)
            } else {
                match item_of_line(lines.last()) {
                    Some(item) => if holds_key(items, item.key()) {
                        Err(CatalogError::MalformedRecord { line: lines.len() as usize })
                    } else {
                        Ok(items.push(item))
                    },
                    None => Err(CatalogError::MalformedRecord { line: lines.len() as usize }),
                }
            },
        }
    }
}

/// The items that a catalog text lists.
pub open spec fn catalog_of(text: Seq<char>) -> Result<Seq<ItemView>, CatalogError> {
    items_of_lines(lines(text))
}

/// Reads the record in the characters `from..to` of `text`.
fn read_item(text: &str, chars: &Vec<char>, from: usize, to: usize) -> (item: Option<Item>)
    requires
        chars@ == text@,
        from <= to <= chars@.len(),
    ensures
        match item_of_line(text@.subrange(from as int, to as int)) {
            Some(view) => item is Some && item->0@ == view,
            None => item is None,
        },
{
    let record = field_bounds(chars, from, to);
    let ghost parts = fields(text@.subrange(from as int, to as int));
    assert(parts.len() == record@.len()) by {
        assert(slices(chars@, record@).len() == record@.len());
    }
    assert forall|i: int| 0 <= i < record@.len() implies parts[i] == text@.subrange(
        record@[i].0 as int,
        record@[i].1 as int,
    ) by {
        assert(slices(chars@, record@)[i] == chars@.subrange(
            record@[i].0 as int,
            record@[i].1 as int,
        ));
    }
    if record.len() < ITEM_FIELDS {
        return None;
    }
    let id = read_number(chars, record[0].0, record[0].1);
    let low = read_number(chars, record[2].0, record[2].1);
    let high = read_number(chars, record[3].0, record[3].1);
    let illegal = read_flag(chars, record[5].0, record[5].1);
    match (id, low, high, illegal) {
        (Some(id), Some(low_price), Some(high_price), Some(illegal)) => {
            if low_price > high_price {
                return None;
            }
            let name = cut(text, record[1].0, record[1].1);
            let category = cut(text, record[4].0, record[4].1);
            let description = cut(text, record[6].0, record[6].1);
            Some(Item { id, name, description, category, low_price, high_price, illegal })
        },
        _ => None,
    }
}

/// Reads an item catalog.
///
/// Returns the items in the order of their lines, or the first line that
/// is not in order: a record that is malformed, or one whose id an earlier
/// record has. Every item returned has its price bounds in order, and no
/// two have the same id.
pub fn get_all_items(text: &str) -> (loaded: Result<Vec<Item>, CatalogError>)
    ensures
        match catalog_of(text@) {
            Ok(views) => loaded is Ok && item_views(loaded->Ok_0@) == views,
            Err(e) => loaded == Err::<Vec<Item>, CatalogError>(e),
        },
        loaded is Ok ==> forall|i: int|
            0 <= i < loaded->Ok_0@.len() ==> (#[trigger] loaded->Ok_0@[i]).wf(),
        loaded is Ok ==> distinct_keys(item_views(loaded->Ok_0@)),
        loaded is Ok ==> forall|a: int, b: int|
            #![trigger loaded->Ok_0@[a], loaded->Ok_0@[b]]
            0 <= a < b < loaded->Ok_0@.len() ==> loaded->Ok_0@[a].id != loaded->Ok_0@[b].id,
{
    let chars = to_chars(text);
    let bounds = line_bounds(&chars);
    let ghost all = lines(text@);
    assert(all.len() == bounds@.len()) by {
        assert(slices(chars@, bounds@).len() == bounds@.len());
    }
    let mut items: Vec<Item> = Vec::new();
    let mut i: usize = 0;
    assert(all.take(0) =~= Seq::<Seq<char>>::empty());
    assert(item_views(items@) =~= Seq::<ItemView>::empty());
    while i < bounds.len()
        invariant
            i <= bounds@.len(),
            chars@ == text@,
            all == lines(text@),
            all == slices(chars@, bounds@),
            all.len() == bounds@.len(),
            bounds_within(bounds@, 0, chars@.len() as int),
            items_of_lines(all.take(i as int)) == Ok::<Seq<ItemView>, CatalogError>(
                item_views(items@),
            ),
            forall|j: int| 0 <= j < items@.len() ==> (#[trigger] items@[j]).wf(),
            distinct_keys(item_views(items@)),
        decreases bounds@.len() - i,
    {
        let (from, to) = bounds[i];
        let ghost line = all[i as int];
        assert(line == chars@.subrange(from as int, to as int));
        assert(all.take(i + 1).drop_last() =~= all.take(i as int));
        assert(all.take(i + 1).last() == line);
        let comment = from < to && chars[from] == '#';
        assert(comment == is_comment(line));
        if !comment {
            match read_item(text, &chars, from, to) {
                Some(item) => {
                    let ghost before = item_views(items@);
                    let earlier = position_of(&items, item.key());
                    proof {
                        lemma_first_with_key(items@, item@.key());
                        if earlier is Some {
                            assert(before[earlier->0 as int].key() == item@.key());
                        } else {
                            assert forall|j: int| 0 <= j < before.len() implies (
                            #[trigger] before[j]).key() != item@.key() by {
                                assert(items@[j]@.key() != item@.key());
                            }
                        }
                    }
                    if earlier.is_some() {
                        proof {
                            lemma_items_error_stays(all, i + 1);
                        }
                        return Err(CatalogError::MalformedRecord { line: i + 1 });
                    }
                    items.push(item);
                    assert(item_views(items@) =~= before.push(item@));
                },
                None => {
                    proof {
                        lemma_items_error_stays(all, i + 1);
                    }
                    return Err(CatalogError::MalformedRecord { line: i + 1 });
                },
            }
        }
        i = i + 1;
    }
    assert(all.take(all.len() as int) =~= all);
    assert forall|a: int, b: int|
        #![trigger items@[a], items@[b]]
        0 <= a < b < items@.len() implies items@[a].id != items@[b].id by {
        assert(item_views(items@)[a].key() != item_views(items@)[b].key());
    }
    Ok(items)
}

/// An error in a prefix of the lines is the error of the whole.
proof fn lemma_items_error_stays(lines: Seq<Seq<char>>, n: int)
    requires
        0 <= n <= lines.len(),
        items_of_lines(lines.take(n)) is Err,
    ensures
        items_of_lines(lines) == items_of_lines(lines.take(n)),
    decreases lines.len() - n,
{
    if n == lines.len() {
        assert(lines.take(n) =~= lines);
    } else {
        assert(lines.take(n + 1).drop_last() =~= lines.take(n));
        lemma_items_error_stays(lines, n + 1);
    }
}

} // verus!
