//! Inventory rules: expiry warnings, deduction after cooking, and rating
//! averages.
use vstd::prelude::*;
use crate::fixed_point::{round_div, round_div_i128};

verus! {

/// What the inventory holds of one ingredient.
#[derive(Debug, Clone, Copy, PartialEq, Eq)]
pub struct InventoryEntry {
    pub ingredient_id: i64,
    /// Quantity on hand, in milligrams.
    pub quantity_mg: u64,
    /// Expiry date as a day number, when known.
    pub expiry_day: Option<i64>,
}

/// Days before expiry from which an item is flagged.
pub const EXPIRY_WARNING_DAYS: i64 = 5;

/// Days until an item expires (negative once expired), when its expiry
/// day is known, and whether it is flagged (five days or fewer).
pub fn expiry_status(expiry_day: Option<i64>, today: i64) -> (r: (Option<i64>, bool))
    requires
        expiry_day.is_some() ==> i64::MIN <= expiry_day.unwrap() - today <= i64::MAX,
    ensures
        r.0 == match expiry_day {
            Some(d) => Some((d - today) as i64),
            None => None,
        },
        r.1 == match expiry_day {
            Some(d) => d - today <= 5,
            None => false,
        },
{
    match expiry_day {
        Some(d) => {
            let days = d - today;
            (Some(days), days <= EXPIRY_WARNING_DAYS)
        },
        None => (None, false),
    }
}

/// What a cooked recipe takes of an ingredient, in milligrams: the
/// recipe's quantity scaled by `servings_made / recipe_servings` (at least
/// one serving), rounded to the nearest milligram.
pub open spec fn deducted(per_recipe_mg: int, servings_made: int, recipe_servings: int) -> int {
    round_div(
        per_recipe_mg * servings_made,
        if recipe_servings < 1 {
            1
        } else {
            recipe_servings
        },
    )
}

/// The quantity left after cooking, never below zero; the item is removed
/// when nothing is left.
pub fn remaining_after_cooking(
    have_mg: u64,
    per_recipe_mg: u64,
    servings_made: u32,
    recipe_servings: u32,
) -> (r: u64)
    ensures
        r == if have_mg >= deducted(per_recipe_mg as int, servings_made as int, recipe_servings as int) {
            have_mg - deducted(per_recipe_mg as int, servings_made as int, recipe_servings as int)
        } else {
            0
        },
{
    let s: i128 = if recipe_servings < 1 {
        1
    } else {
        recipe_servings as i128
    };
    assert((per_recipe_mg as int) * (servings_made as int) <= 0xffff_ffff_ffff_ffff * 0xffff_ffff)
        by (nonlinear_arith)
        requires
            per_recipe_mg <= 0xffff_ffff_ffff_ffff,
            servings_made <= 0xffff_ffff,
    ;
    let need = round_div_i128((per_recipe_mg as i128) * (servings_made as i128), s);
    if (have_mg as i128) >= need {
        (have_mg as i128 - need) as u64
    } else {
        0
    }
}

/// The sum of the ratings.
pub open spec fn rating_sum(r: Seq<i16>) -> int
    decreases r.len(),
{
    if r.len() == 0 {
        0
    } else {
        rating_sum(r.drop_last()) + r.last()
    }
}

/// The average of a recipe's ratings in thousandths of a star, rounded to
/// the nearest; none without ratings.
pub fn average_rating(ratings: &Vec<i16>) -> (r: Option<i64>)
    ensures
        r.is_none() == (ratings@.len() == 0),
        r.is_some() ==> r.unwrap() == round_div(rating_sum(ratings@) * 1000, ratings@.len() as int),
{
    if ratings.len() == 0 {
        return None;
    }
    let mut sum: i128 = 0;
    let mut i: usize = 0;
    while i < ratings.len()
        invariant
            i <= ratings@.len(),
            sum == rating_sum(ratings@.take(i as int)),
            -32768 * i <= sum <= 32767 * i,
        decreases ratings@.len() - i,
    {
        assert(ratings@.take(i + 1).drop_last() =~= ratings@.take(i as int));
        assert(ratings@.take(i + 1).last() == ratings@[i as int]);
        sum = sum + ratings[i] as i128;
        i = i + 1;
    }
    assert(ratings@.take(ratings@.len() as int) =~= ratings@);
    let n = ratings.len() as i128;
    let avg = round_div_i128(sum * 1000, n);
    proof {
        assert(-32_768_000 * n <= sum * 1000 <= 32_768_000 * n) by (nonlinear_arith)
            requires
                -32768 * n <= sum <= 32767 * n,
                n >= 1,
        ;
        crate::fixed_point::lemma_round_div_bounded(sum * 1000, n as int, 32_768_000);
    }
    Some(avg as i64)
}

} // verus!
