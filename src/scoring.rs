//! The scoring engine: a composite desirability score for each candidate
//! recipe, and the ranking of candidates by that score.
use vstd::prelude::*;
use crate::preference::{preference_score, score_recipe_for_user, PreferenceVector};
use crate::inventory::InventoryEntry;
use crate::recipe::{clone_opt_string, ingredient_ids, RecipeCandidate, RecipeIngredient};

verus! {

/// Weekly calorie target, in kilocalories (2000 a day for seven days).
pub const WEEKLY_CALORIES_KCAL: u64 = 14_000;

/// Weekly protein target, in grams (50 a day for seven days).
pub const WEEKLY_PROTEIN_G: u64 = 350;

/// What scoring knows of the user at planning time.
#[derive(Debug, Clone)]
pub struct ScoringContext {
    /// Ingredients in the user's inventory.
    pub inventory_ids: Vec<i64>,
    /// Inventory ingredients that expire within seven days.
    pub expiring_ids: Vec<i64>,
    /// Recipes cooked within the last fourteen days.
    pub recent_recipe_ids: Vec<i64>,
    /// The user's favourite recipes.
    pub favourite_ids: Vec<i64>,
    pub household_size: u32,
}

/// A record of the user cooking a recipe.
#[derive(Debug, Clone, Copy, PartialEq, Eq)]
pub struct CookedEntry {
    pub recipe_id: i64,
    /// When it was cooked, in seconds since the epoch.
    pub cooked_at_secs: i64,
}

/// Days ahead within which an ingredient counts as expiring soon.
pub const EXPIRY_WINDOW_DAYS: i64 = 7;

/// Seconds back within which a cooked recipe counts as recent (fourteen days).
pub const RECENT_WINDOW_SECS: i64 = 14 * 86_400;

/// The ids of all inventory records, in order.
pub open spec fn inventory_ids_of(inv: Seq<InventoryEntry>) -> Seq<i64>
    decreases inv.len(),
{
    if inv.len() == 0 {
        Seq::empty()
    } else {
        inventory_ids_of(inv.drop_last()).push(inv.last().ingredient_id)
    }
}

/// The ids of the records that expire on or before `today + 7`, in order.
pub open spec fn expiring_ids_of(inv: Seq<InventoryEntry>, today: int) -> Seq<i64>
    decreases inv.len(),
{
    if inv.len() == 0 {
        Seq::empty()
    } else {
        let rest = expiring_ids_of(inv.drop_last(), today);
        match inv.last().expiry_day {
            Some(d) => if d <= today + 7 {
                rest.push(inv.last().ingredient_id)
            } else {
                rest
            },
            None => rest,
        }
    }
}

/// The recipes cooked at or after `now - 14 days`, in order.
pub open spec fn recent_ids_of(hist: Seq<CookedEntry>, now: int) -> Seq<i64>
    decreases hist.len(),
{
    if hist.len() == 0 {
        Seq::empty()
    } else {
        let rest = recent_ids_of(hist.drop_last(), now);
        if hist.last().cooked_at_secs >= now - 14 * 86_400 {
            rest.push(hist.last().recipe_id)
        } else {
            rest
        }
    }
}

impl ScoringContext {
    /// The context of a planning run: the inventory's ingredients, those
    /// expiring within seven days of `today` (a day number), the recipes
    /// cooked within fourteen days before `now` (seconds), the favourites
    /// and the household size.
    pub fn from_snapshot(
        inventory: &Vec<InventoryEntry>,
        history: &Vec<CookedEntry>,
        favourite_ids: Vec<i64>,
        today: i64,
        now_secs: i64,
        household_size: u32,
    ) -> (r: Self)
        ensures
            r.inventory_ids@ == inventory_ids_of(inventory@),
            r.expiring_ids@ == expiring_ids_of(inventory@, today as int),
            r.recent_recipe_ids@ == recent_ids_of(history@, now_secs as int),
            r.favourite_ids == favourite_ids,
            r.household_size == household_size,
    {
        let mut inventory_ids: Vec<i64> = Vec::new();
        let mut expiring_ids: Vec<i64> = Vec::new();
        let threshold: i128 = today as i128 + EXPIRY_WINDOW_DAYS as i128;
        let mut i: usize = 0;
        while i < inventory.len()
            invariant
                i <= inventory@.len(),
                threshold == today + 7,
                inventory_ids@ == inventory_ids_of(inventory@.take(i as int)),
                expiring_ids@ == expiring_ids_of(inventory@.take(i as int), today as int),
            decreases inventory@.len() - i,
        {
            assert(inventory@.take(i + 1).drop_last() =~= inventory@.take(i as int));
            assert(inventory@.take(i + 1).last() == inventory@[i as int]);
            let e = inventory[i];
            inventory_ids.push(e.ingredient_id);
            if let Some(d) = e.expiry_day {
                if d as i128 <= threshold {
                    expiring_ids.push(e.ingredient_id);
                }
            }
            i = i + 1;
        }
        assert(inventory@.take(inventory@.len() as int) =~= inventory@);
        let mut recent_recipe_ids: Vec<i64> = Vec::new();
        let since: i128 = now_secs as i128 - RECENT_WINDOW_SECS as i128;
        let mut j: usize = 0;
        while j < history.len()
            invariant
                j <= history@.len(),
                since == now_secs - 14 * 86_400,
                recent_recipe_ids@ == recent_ids_of(history@.take(j as int), now_secs as int),
            decreases history@.len() - j,
        {
            assert(history@.take(j + 1).drop_last() =~= history@.take(j as int));
            assert(history@.take(j + 1).last() == history@[j as int]);
            let h = history[j];
            if h.cooked_at_secs as i128 >= since {
                recent_recipe_ids.push(h.recipe_id);
            }
            j = j + 1;
        }
        assert(history@.take(history@.len() as int) =~= history@);
        ScoringContext {
            inventory_ids,
            expiring_ids,
            recent_recipe_ids,
            favourite_ids,
            household_size,
        }
    }
}

/// A candidate with its total score and what slot fitting reads.
#[derive(Debug, Clone)]
pub struct ScoredRecipe {
    pub recipe_id: i64,
    /// Weighted sum of the components, in hundred-millionths.
    pub total_score: i64,
    pub cuisine: Option<String>,
    pub category: Option<String>,
    pub total_time_min: Option<u32>,
    /// The candidate's index in the input, which breaks ties.
    pub position: usize,
}

/// How many of `ids` occur in `set` (each occurrence counts).
pub open spec fn count_in(ids: Seq<i64>, set: Seq<i64>) -> int
    decreases ids.len(),
{
    if ids.len() == 0 {
        0
    } else {
        count_in(ids.drop_last(), set) + if set.contains(ids.last()) {
            1int
        } else {
            0int
        }
    }
}

/// `x`, at least 1.
pub open spec fn max1(x: int) -> int {
    if x < 1 {
        1
    } else {
        x
    }
}

/// `x`, at most one whole unit (millionths).
pub open spec fn min_one(x: int) -> int {
    if x > 1_000_000 {
        1_000_000
    } else {
        x
    }
}

/// Share of the recipe's ingredients already in the inventory, in millionths.
pub open spec fn coverage(r: RecipeCandidate, ctx: ScoringContext) -> int {
    count_in(ingredient_ids(r), ctx.inventory_ids@) * 1_000_000 / max1(r.ingredients@.len() as int)
}

/// Share of the recipe's ingredients that expire soon, in millionths, at most one.
pub open spec fn expiry_urgency(r: RecipeCandidate, ctx: ScoringContext) -> int {
    min_one(
        count_in(ingredient_ids(r), ctx.expiring_ids@) * 1_000_000 / max1(
            r.ingredients@.len() as int,
        ),
    )
}

/// How much of a weekly target (`target` whole units) an amount in
/// thousandths, scaled by `household / servings`, covers: in millionths, at
/// most one.
pub open spec fn target_share(amount_milli: int, household: int, servings: int, target: int) -> int {
    min_one(amount_milli * household * 1_000_000 / (max1(servings) * target * 1000))
}

/// The nutrition balance, in millionths: the mean of the calorie and protein
/// shares of the weekly targets; one half without nutrition data.
pub open spec fn nutrition_balance(r: RecipeCandidate, household: int) -> int {
    match r.nutrition {
        Some(n) => (target_share(n.calories_milli as int, household, r.servings as int, 14_000)
            + target_share(n.protein_mg as int, household, r.servings as int, 350)) / 2,
        None => 500_000,
    }
}

/// The variety bonus, in millionths: -0.3 when recently cooked, 0.1 for a
/// favourite, 0 otherwise.
pub open spec fn variety_bonus(r: RecipeCandidate, ctx: ScoringContext) -> int {
    if ctx.recent_recipe_ids@.contains(r.id) {
        -300_000
    } else if ctx.favourite_ids@.contains(r.id) {
        100_000
    } else {
        0
    }
}

/// The preference component for a user who may have no record.
pub open spec fn ml_preference(prefs: Option<&PreferenceVector>, r: RecipeCandidate) -> int {
    match prefs {
        Some(p) => preference_score(*p, r),
        None => 500_000,
    }
}

/// `0.30 coverage + 0.25 urgency + 0.25 preference + 0.12 nutrition +
/// 0.08 variety`, in hundred-millionths.
pub open spec fn total_score(
    r: RecipeCandidate,
    ctx: ScoringContext,
    prefs: Option<&PreferenceVector>,
) -> int {
    30 * coverage(r, ctx) + 25 * expiry_urgency(r, ctx) + 25 * ml_preference(prefs, r) + 12
        * nutrition_balance(r, ctx.household_size as int) + 8 * variety_bonus(r, ctx)
}

/// The scored entry of the candidate at `position`.
pub open spec fn scored_entry(
    r: RecipeCandidate,
    position: int,
    ctx: ScoringContext,
    prefs: Option<&PreferenceVector>,
) -> ScoredRecipe {
    ScoredRecipe {
        recipe_id: r.id,
        total_score: total_score(r, ctx, prefs) as i64,
        cuisine: r.cuisine,
        category: r.category,
        total_time_min: r.total_time_min,
        position: position as usize,
    }
}

/// `a` comes before `b`: a higher score, or an equal score and an earlier
/// position.
pub open spec fn ranks_before(a: ScoredRecipe, b: ScoredRecipe) -> bool {
    a.total_score > b.total_score || (a.total_score == b.total_score && a.position < b.position)
}

/// How many of the first `n` candidates were not cooked recently.
pub open spec fn kept_count(cands: Seq<RecipeCandidate>, recent: Seq<i64>, n: int) -> int
    decreases n,
{
    if n <= 0 {
        0
    } else {
        kept_count(cands, recent, n - 1) + if recent.contains(cands[n - 1].id) {
            0int
        } else {
            1int
        }
    }
}

/// `ranked` is the ranking of `cands`: one scored entry for each candidate
/// not cooked recently, highest score first, equal scores in input order.
pub open spec fn is_ranking(
    ranked: Seq<ScoredRecipe>,
    cands: Seq<RecipeCandidate>,
    ctx: ScoringContext,
    prefs: Option<&PreferenceVector>,
) -> bool {
    &&& ranked.len() == kept_count(cands, ctx.recent_recipe_ids@, cands.len() as int)
    &&& forall|k: int|
        0 <= k < ranked.len() ==> {
            let p = #[trigger] ranked[k].position as int;
            &&& 0 <= p < cands.len()
            &&& !ctx.recent_recipe_ids@.contains(cands[p].id)
            &&& ranked[k] == scored_entry(cands[p], p, ctx, prefs)
        }
    &&& forall|a: int, b: int| 0 <= a < b < ranked.len() ==> ranks_before(ranked[a], ranked[b])
}

/// Whether `x` occurs in `v`.
pub fn contains_id(v: &Vec<i64>, x: i64) -> (r: bool)
    ensures
        r == v@.contains(x),
{
    let mut i: usize = 0;
    while i < v.len()
        invariant
            i <= v@.len(),
            forall|j: int| 0 <= j < i ==> v@[j] != x,
        decreases v@.len() - i,
    {
        if v[i] == x {
            return true;
        }
        i = i + 1;
    }
    false
}

fn count_members(ings: &Vec<RecipeIngredient>, set: &Vec<i64>) -> (r: u64)
    ensures
        r == count_in(ings@.map_values(|i: RecipeIngredient| i.ingredient_id), set@),
        r <= ings@.len(),
{
    let ghost ids = ings@.map_values(|i: RecipeIngredient| i.ingredient_id);
    let mut n: u64 = 0;
    let mut i: usize = 0;
    while i < ings.len()
        invariant
            i <= ings@.len(),
            ids == ings@.map_values(|i: RecipeIngredient| i.ingredient_id),
            n == count_in(ids.take(i as int), set@),
            n <= i,
        decreases ings@.len() - i,
    {
        assert(ids.take(i + 1).drop_last() =~= ids.take(i as int));
        assert(ids.take(i + 1).last() == ings@[i as int].ingredient_id);
        if contains_id(set, ings[i].ingredient_id) {
            n = n + 1;
        }
        i = i + 1;
    }
    assert(ids.take(ings@.len() as int) =~= ids);
    n
}

fn share(amount_milli: u64, household: u32, servings: u32, target: u64) -> (r: i64)
    requires
        1 <= target <= 14_000,
    ensures
        r == target_share(amount_milli as int, household as int, servings as int, target as int),
        0 <= r <= 1_000_000,
{
    let s: u128 = if servings < 1 {
        1
    } else {
        servings as u128
    };
    assert((amount_milli as int) * (household as int) <= 0xffff_ffff_ffff_ffff * 0xffff_ffff)
        by (nonlinear_arith)
        requires
            amount_milli <= 0xffff_ffff_ffff_ffff,
            household <= 0xffff_ffff,
    ;
    let num: u128 = (amount_milli as u128) * (household as u128) * 1_000_000;
    assert(s * (target as int) <= 0xffff_ffff * 14_000) by (nonlinear_arith)
        requires
            s <= 0xffff_ffff,
            target <= 14_000,
    ;
    assert(s * (target as int) >= 1) by (nonlinear_arith)
        requires
            s >= 1,
            target >= 1,
    ;
    let den: u128 = s * (target as u128) * 1000;
    let q = num / den;
    if q > 1_000_000 {
        1_000_000
    } else {
        q as i64
    }
}

fn nutrition_score(r: &RecipeCandidate, household: u32) -> (b: i64)
    ensures
        b == nutrition_balance(*r, household as int),
        0 <= b <= 1_000_000,
{
    match &r.nutrition {
        Some(n) => {
            let c = share(n.calories_milli, household, r.servings, WEEKLY_CALORIES_KCAL);
            let p = share(n.protein_mg, household, r.servings, WEEKLY_PROTEIN_G);
            (c + p) / 2
        },
        None => 500_000,
    }
}

/// The total score of one candidate, in hundred-millionths.
pub fn score_candidate(
    r: &RecipeCandidate,
    ctx: &ScoringContext,
    prefs: Option<&PreferenceVector>,
) -> (s: i64)
    requires
        prefs.is_some() ==> prefs.unwrap().wf(),
    ensures
        s == total_score(*r, *ctx, prefs),
{
    let total: u64 = if r.ingredients.len() < 1 {
        1
    } else {
        r.ingredients.len() as u64
    };
    let owned = count_members(&r.ingredients, &ctx.inventory_ids);
    let expiring = count_members(&r.ingredients, &ctx.expiring_ids);
    let cov: i64 = ((owned as u128 * 1_000_000) / total as u128) as i64;
    proof {
        assert((owned as int) * 1_000_000 / (total as int) <= 1_000_000) by (nonlinear_arith)
            requires
                owned <= total,
                total >= 1,
        ;
    }
    let urg_raw: u128 = (expiring as u128 * 1_000_000) / total as u128;
    proof {
        assert((expiring as int) * 1_000_000 / (total as int) <= 1_000_000) by (nonlinear_arith)
            requires
                expiring <= total,
                total >= 1,
        ;
    }
    let urg: i64 = if urg_raw > 1_000_000 {
        1_000_000
    } else {
        urg_raw as i64
    };
    let ml = score_recipe_for_user(prefs, r) as i64;
    let nb = nutrition_score(r, ctx.household_size);
    let variety: i64 = if contains_id(&ctx.recent_recipe_ids, r.id) {
        -300_000
    } else if contains_id(&ctx.favourite_ids, r.id) {
        100_000
    } else {
        0
    };
    30 * cov + 25 * urg + 25 * ml + 12 * nb + 8 * variety
}

/// Scores every candidate not cooked recently and ranks them: highest
/// score first, equal scores in input order.
pub fn score_all(
    candidates: &Vec<RecipeCandidate>,
    ctx: &ScoringContext,
    prefs: Option<&PreferenceVector>,
) -> (r: Vec<ScoredRecipe>)
    requires
        prefs.is_some() ==> prefs.unwrap().wf(),
    ensures
        r@.len() == kept_count(candidates@, ctx.recent_recipe_ids@, candidates@.len() as int),
        forall|k: int|
            0 <= k < r@.len() ==> {
                let p = #[trigger] r@[k].position as int;
                &&& 0 <= p < candidates@.len()
                &&& !ctx.recent_recipe_ids@.contains(candidates@[p].id)
                &&& r@[k] == scored_entry(candidates@[p], p, *ctx, prefs)
            },
        forall|a: int, b: int| 0 <= a < b < r@.len() ==> ranks_before(r@[a], r@[b]),
        is_ranking(r@, candidates@, *ctx, prefs),
{
    let mut ranked: Vec<ScoredRecipe> = Vec::new();
    let mut i: usize = 0;
    while i < candidates.len()
        invariant
            i <= candidates@.len(),
            prefs.is_some() ==> prefs.unwrap().wf(),
            ranked@.len() == kept_count(candidates@, ctx.recent_recipe_ids@, i as int),
            ranked@.len() <= i,
            forall|k: int|
                0 <= k < ranked@.len() ==> {
                    let p = #[trigger] ranked@[k].position as int;
                    &&& 0 <= p < i
                    &&& !ctx.recent_recipe_ids@.contains(candidates@[p].id)
                    &&& ranked@[k] == scored_entry(candidates@[p], p, *ctx, prefs)
                },
            forall|a: int, b: int| 0 <= a < b < ranked@.len() ==> ranks_before(ranked@[a], ranked@[b]),
        decreases candidates@.len() - i,
    {
        let c = &candidates[i];
        if !contains_id(&ctx.recent_recipe_ids, c.id) {
            let score = score_candidate(c, ctx, prefs);
            let entry = ScoredRecipe {
                recipe_id: c.id,
                total_score: score,
                cuisine: clone_opt_string(&c.cuisine),
                category: clone_opt_string(&c.category),
                total_time_min: c.total_time_min,
                position: i,
            };
            let mut j: usize = 0;
            while j < ranked.len() && ranked[j].total_score >= score
                invariant
                    j <= ranked@.len(),
                    forall|k: int| 0 <= k < j ==> ranked@[k].total_score >= score,
                decreases ranked@.len() - j,
            {
                j = j + 1;
            }
            let ghost before = ranked@;
            let ghost e = entry;
            ranked.insert(j, entry);
            assert(ranked@ == before.insert(j as int, e));
            assert forall|a: int, b: int| 0 <= a < b < ranked@.len() implies ranks_before(
                ranked@[a],
                ranked@[b],
            ) by {
                if b < j {
                    assert(ranks_before(before[a], before[b]));
                } else if b == j {
                    assert(before[a].position < i);
                } else if a == j {
                    assert(before[j as int].total_score < score);
                    if b - 1 > j {
                        assert(ranks_before(before[j as int], before[b - 1]));
                    }
                } else if a < j {
                    assert(ranks_before(before[a], before[b - 1]));
                } else {
                    assert(ranks_before(before[a - 1], before[b - 1]));
                }
            }
            assert forall|k: int| 0 <= k < ranked@.len() implies {
                let p = #[trigger] ranked@[k].position as int;
                &&& 0 <= p < i + 1
                &&& !ctx.recent_recipe_ids@.contains(candidates@[p].id)
                &&& ranked@[k] == scored_entry(candidates@[p], p, *ctx, prefs)
            } by {
                if k < j {
                    assert(ranked@[k] == before[k]);
                } else if k > j {
                    assert(ranked@[k] == before[k - 1]);
                }
            }
        }
        i = i + 1;
    }
    ranked
}

} // verus!
