//! The read-only projection of a recipe that scoring and learning use.
use vstd::prelude::*;

verus! {

/// Nutrition per serving. Calories are in thousandths of a kilocalorie,
/// the macronutrients in milligrams; an absent value is 0.
#[derive(Debug, Clone, Copy, PartialEq, Eq)]
pub struct Nutrition {
    pub calories_milli: u64,
    pub protein_mg: u64,
    pub carbs_mg: u64,
    pub fat_mg: u64,
    pub fiber_mg: u64,
}

/// One ingredient line of a recipe.
#[derive(Debug, Clone)]
pub struct RecipeIngredient {
    pub ingredient_id: i64,
    /// The ingredient's name, which keys its learned weight.
    pub name: String,
    /// Quantity in milligrams as written in the recipe, when known.
    pub quantity_mg: Option<u64>,
}

/// A recipe as a candidate for scoring and as the subject of an interaction.
#[derive(Debug, Clone)]
pub struct RecipeCandidate {
    pub id: i64,
    pub cuisine: Option<String>,
    pub category: Option<String>,
    pub difficulty: Option<String>,
    pub servings: u32,
    pub total_time_min: Option<u32>,
    pub ingredients: Vec<RecipeIngredient>,
    pub nutrition: Option<Nutrition>,
}

/// The ingredient ids of some lines, in order.
pub open spec fn line_ids(s: Seq<RecipeIngredient>) -> Seq<i64> {
    s.map_values(|i: RecipeIngredient| i.ingredient_id)
}

/// The names of some lines, in order.
pub open spec fn line_names(s: Seq<RecipeIngredient>) -> Seq<Seq<char>> {
    s.map_values(|i: RecipeIngredient| i.name@)
}

/// The lines that are the first for their ingredient id, in order: the
/// recipe's ingredients as a set.
pub open spec fn first_lines(s: Seq<RecipeIngredient>) -> Seq<RecipeIngredient>
    decreases s.len(),
{
    if s.len() == 0 {
        Seq::empty()
    } else if line_ids(s.drop_last()).contains(s.last().ingredient_id) {
        first_lines(s.drop_last())
    } else {
        first_lines(s.drop_last()).push(s.last())
    }
}

/// The names of a recipe's distinct ingredients (each ingredient id once,
/// named by its first line), in order.
pub open spec fn ingredient_names(r: RecipeCandidate) -> Seq<Seq<char>> {
    line_names(first_lines(r.ingredients@))
}

/// How the distinct ingredients of the first `i + 1` lines follow from
/// those of the first `i`.
pub proof fn lemma_first_lines_step(s: Seq<RecipeIngredient>, i: int)
    requires
        0 <= i < s.len(),
    ensures
        line_names(first_lines(s.take(i + 1))) == if line_ids(s.take(i)).contains(
            s[i].ingredient_id,
        ) {
            line_names(first_lines(s.take(i)))
        } else {
            line_names(first_lines(s.take(i))).push(s[i].name@)
        },
{
    assert(s.take(i + 1).drop_last() =~= s.take(i));
    assert(s.take(i + 1).last() == s[i]);
    let fl = first_lines(s.take(i));
    assert(line_names(fl.push(s[i])) =~= line_names(fl).push(s[i].name@));
}

/// Whether a line before line `i` names the same ingredient id.
pub fn repeats_earlier(ings: &Vec<RecipeIngredient>, i: usize) -> (r: bool)
    requires
        i < ings@.len(),
    ensures
        r == line_ids(ings@.take(i as int)).contains(ings@[i as int].ingredient_id),
{
    let id = ings[i].ingredient_id;
    let mut j: usize = 0;
    while j < i
        invariant
            i < ings@.len(),
            j <= i,
            id == ings@[i as int].ingredient_id,
            forall|k: int| 0 <= k < j ==> ings@[k].ingredient_id != id,
        decreases i - j,
    {
        if ings[j].ingredient_id == id {
            assert(line_ids(ings@.take(i as int))[j as int] == id);
            return true;
        }
        j = j + 1;
    }
    assert forall|k: int| 0 <= k < i implies line_ids(ings@.take(i as int))[k] != id by {
        assert(line_ids(ings@.take(i as int))[k] == ings@[k].ingredient_id);
    }
    false
}

/// The ids of a recipe's ingredients, in order.
pub open spec fn ingredient_ids(r: RecipeCandidate) -> Seq<i64> {
    r.ingredients@.map_values(|i: RecipeIngredient| i.ingredient_id)
}

/// A copy of an optional string.
pub fn clone_opt_string(s: &Option<String>) -> (r: Option<String>)
    ensures
        r == *s,
{
    match s {
        Some(t) => Some(t.clone()),
        None => None,
    }
}

} // verus!
