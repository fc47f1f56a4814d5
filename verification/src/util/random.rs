//! Chance: coin flips and random picks.
//!
//! The random numbers come from the `rand` crate. Its calls are wrapped
//! here; their contracts are believed, not proved. Everything that is
//! computed from a number once it is drawn stands in a function that takes
//! the number as an argument and is proved for every value of it.

use rand::Rng;
use vstd::prelude::*;

verus! {

/// A random number from `low` up to but not including `high`.
///
/// Wraps `rand::thread_rng` and `rand::Rng::gen_range` on a half-open range
/// of `i64`. The contract claims that the number lies in the range; the
/// range must not be empty, for which `gen_range` panics.
#[verifier::external_body]
pub(crate) fn random_in_range(low: i64, high: i64) -> (drawn: i64)
    requires
        low < high,
    ensures
        low <= drawn < high,
{
    rand::thread_rng().gen_range(low..high)
}

/// A random 32-bit signed number.
///
/// Wraps `rand::random::<i32>`. Nothing is claimed of the number.
#[verifier::external_body]
pub(crate) fn random_i32() -> i32 {
    rand::random::<i32>()
}

/// A random index-sized number.
///
/// Wraps `rand::random::<usize>`. Nothing is claimed of the number.
#[verifier::external_body]
pub(crate) fn random_usize() -> usize {
    rand::random::<usize>()
}

/// A random 32-bit number from `low` up to but not including `high`.
///
/// The range is handed on as it is; which number of the range comes back
/// is chance.
pub fn random_between(low: i32, high: i32) -> (drawn: i32)
    requires
        low < high,
    ensures
        low <= drawn < high,
{
    random_in_range(low as i64, high as i64) as i32
}

/// The distance of `n` from zero.
pub open spec fn magnitude(n: int) -> int {
    if n < 0 {
        -n
    } else {
        n
    }
}

/// Whether `drawn` is a multiple of `chance`.
pub open spec fn divides(chance: int, drawn: int) -> bool {
    magnitude(drawn) % magnitude(chance) == 0
}

/// Whether `drawn` is a multiple of `chance`.
pub fn is_multiple(drawn: i32, chance: i32) -> (multiple: bool)
    requires
        chance != 0,
    ensures
        multiple == divides(chance as int, drawn as int),
{
    let wide_drawn: i64 = drawn as i64;
    let wide_chance: i64 = chance as i64;
    let size: i64 = if wide_drawn < 0 { -wide_drawn } else { wide_drawn };
    let step: i64 = if wide_chance < 0 { -wide_chance } else { wide_chance };
    size % step == 0
}

/// A coin flip: whether a random number is even.
///
/// Either side may come up; `is_multiple` says which one a drawn number
/// gives.
pub fn maybe() -> bool {
    is_multiple(random_i32(), 2)
}

/// True once in `chance` times: whenever a random number is a multiple of
/// `chance`.
///
/// Every number is a multiple of 1 and of -1, so the answer is certain for
/// these two. For every other `chance` either answer may come: 0 is a
/// multiple of it and 1 is not. `is_multiple` says which answer a drawn
/// number gives.
pub fn maybe_chance(chance: i32) -> (yes: bool)
    requires
        chance != 0,
    ensures
        chance == 1 || chance == -1 ==> yes,
{
    is_multiple(random_i32(), chance)
}

/// The position that a drawn number picks among `len` positions.
pub fn pick_index(drawn: usize, len: usize) -> (index: usize)
    requires
        len > 0,
    ensures
        index == drawn as int % len as int,
        index < len,
{
    drawn % len
}

/// A copy of a random element of `vec`.
pub fn pick_one<T>(vec: &Vec<T>) -> (picked: T) where T: Clone
    requires
        vec@.len() > 0,
    ensures
        exists|i: int| 0 <= i < vec@.len() && cloned(#[trigger] vec@[i], picked),
{
    let index = pick_index(random_usize(), vec.len());
    vec[index].clone()
}

/// `picked` is made of elements of `pool` at different positions.
pub open spec fn is_selection<T>(pool: Seq<T>, picked: Seq<T>) -> bool {
    exists|from: Seq<int>| selects(pool, picked, from)
}

/// `picked[i]` is `pool[from[i]]` for every `i`, and no position of `pool`
/// is used twice.
pub open spec fn selects<T>(pool: Seq<T>, picked: Seq<T>, from: Seq<int>) -> bool {
    &&& from.len() == picked.len()
    &&& from.no_duplicates()
    &&& forall|i: int|
        0 <= i < from.len() ==> 0 <= #[trigger] from[i] < pool.len() && picked[i] == pool[from[i]]
}

/// Picks `x` elements of `vec` at random, none of them twice.
///
/// Where fewer than `x` elements are on offer and `can_repeat` is off, or
/// `x` is negative and `can_repeat` is off, the whole of `vec` comes back
/// unchanged. An element is never picked twice, whatever `can_repeat` says;
/// with `can_repeat` on, `vec` has to offer at least `x` elements.
pub fn pick_x<T>(vec: Vec<T>, can_repeat: bool, x: i32) -> (picked: Vec<T>) where T: Clone
    requires
        can_repeat ==> x <= vec@.len(),
    ensures
        !can_repeat && (x < 0 || vec@.len() < x) ==> picked@ == vec@,
        can_repeat || 0 <= x <= vec@.len() ==> picked@.len() == (if x < 0 {
            0
        } else {
            x as int
        }) && is_selection(vec@, picked@),
{
    let mut rest = vec;
    if !can_repeat && (x < 0 || rest.len() < x as usize) {
        return rest;
    }
    let mut picked: Vec<T> = Vec::new();
    let ghost pool = rest@;
    let ghost mut from: Seq<int> = Seq::empty();
    let ghost mut left: Seq<int> = Seq::new(pool.len(), |i: int| i);
    let mut n: i32 = 0;
    while n < x
        invariant
            x <= pool.len(),
            0 <= n,
            n <= x || (x < 0 && n == 0),
            pool == vec@,
            picked@.len() == n,
            rest@.len() == pool.len() - n,
            selects(pool, picked@, from),
            left.len() == rest@.len(),
            left.no_duplicates(),
            forall|j: int|
                0 <= j < left.len() ==> 0 <= #[trigger] left[j] < pool.len() && rest@[j]
                    == pool[left[j]],
            forall|i: int, j: int|
                0 <= i < from.len() && 0 <= j < left.len() ==> #[trigger] from[i]
                    != #[trigger] left[j],
        decreases x - n,
    {
        let index = pick_index(random_usize(), rest.len());
        let element = rest.remove(index);
        picked.push(element);
        proof {
            let chosen = left[index as int];
            from = from.push(chosen);
            left = left.remove(index as int);
        }
        n = n + 1;
    }
    assert(selects(pool, picked@, from));
    picked
}

} // verus!
