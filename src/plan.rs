//! The plan selector: greedy assignment of ranked recipes to a week of
//! lunch and dinner slots, with a forward-only cursor over the ranking.
use vstd::prelude::*;
use crate::preference::PreferenceVector;
use crate::recipe::RecipeCandidate;
use crate::scoring::{is_ranking, score_all, ScoredRecipe, ScoringContext};

verus! {

/// The number of days in a plan.
pub const DAYS_PER_WEEK: u8 = 7;

/// A meal of the day.
#[derive(Debug, Clone, Copy, PartialEq, Eq)]
pub enum MealType {
    Breakfast,
    Lunch,
    Dinner,
    Snack,
}

/// One filled cell of a weekly plan.
#[derive(Debug, Clone, Copy, PartialEq, Eq)]
pub struct PlannedSlot {
    pub recipe_id: i64,
    /// Day of the week, 0 to 6.
    pub day_of_week: u8,
    pub meal_type: MealType,
}

/// Which meal types a recipe of the given category fits: a breakfast recipe
/// fits breakfast alone, a dessert fits no meal, any other recipe (also one
/// without a category) fits every meal.
pub open spec fn fits(category: Option<String>, meal: MealType) -> bool {
    match category {
        Some(c) => if c@ == "breakfast"@ {
            meal == MealType::Breakfast
        } else if c@ == "dessert"@ {
            false
        } else {
            true
        },
        None => true,
    }
}

/// Two optional cuisines are the same (two absent cuisines are the same).
pub open spec fn same_cuisine(a: Option<String>, b: Option<String>) -> bool {
    match (a, b) {
        (Some(x), Some(y)) => x@ == y@,
        (None, None) => true,
        _ => false,
    }
}

/// The recipe may be lunch: unused and fitting.
pub open spec fn lunch_ok(r: ScoredRecipe, used: Seq<i64>) -> bool {
    !used.contains(r.recipe_id) && fits(r.category, MealType::Lunch)
}

/// The recipe may be dinner: unused, fitting, and of another cuisine
/// than the day's lunch.
pub open spec fn dinner_ok(r: ScoredRecipe, used: Seq<i64>, lunch_cuisine: Option<String>) -> bool {
    !used.contains(r.recipe_id) && fits(r.category, MealType::Dinner) && !same_cuisine(
        r.cuisine,
        lunch_cuisine,
    )
}

/// The first index from `from` on whose recipe may be lunch, or the length.
pub open spec fn first_lunch(ranked: Seq<ScoredRecipe>, from: int, used: Seq<i64>) -> int
    decreases ranked.len() - from,
{
    if from < 0 || from >= ranked.len() {
        ranked.len() as int
    } else if lunch_ok(ranked[from], used) {
        from
    } else {
        first_lunch(ranked, from + 1, used)
    }
}

/// The first index from `from` on whose recipe may be dinner after a lunch
/// of cuisine `lc`, or the length.
pub open spec fn first_dinner(
    ranked: Seq<ScoredRecipe>,
    from: int,
    used: Seq<i64>,
    lc: Option<String>,
) -> int
    decreases ranked.len() - from,
{
    if from < 0 || from >= ranked.len() {
        ranked.len() as int
    } else if dinner_ok(ranked[from], used, lc) {
        from
    } else {
        first_dinner(ranked, from + 1, used, lc)
    }
}

/// The slots of days `day` to 6, scanning the ranking forward from `cursor`
/// with the recipes in `used` already taken. Each day takes the first
/// fitting unused recipe as lunch, then the next fitting unused recipe of
/// another cuisine as dinner; a failed search leaves the slot empty and
/// exhausts the ranking.
pub open spec fn week_from(ranked: Seq<ScoredRecipe>, day: int, cursor: int, used: Seq<i64>) -> Seq<
    PlannedSlot,
>
    decreases 7 - day,
{
    if day >= 7 {
        Seq::empty()
    } else {
        let n = ranked.len() as int;
        let li = first_lunch(ranked, cursor, used);
        let lunch_found = li < n;
        let used1 = if lunch_found {
            used.push(ranked[li].recipe_id)
        } else {
            used
        };
        let lc = if lunch_found {
            ranked[li].cuisine
        } else {
            None
        };
        let c1 = if lunch_found {
            li + 1
        } else {
            n
        };
        let di = first_dinner(ranked, c1, used1, lc);
        let dinner_found = di < n;
        let used2 = if dinner_found {
            used1.push(ranked[di].recipe_id)
        } else {
            used1
        };
        let c2 = if dinner_found {
            di + 1
        } else {
            n
        };
        let lunch = if lunch_found {
            seq![
                PlannedSlot {
                    recipe_id: ranked[li].recipe_id,
                    day_of_week: day as u8,
                    meal_type: MealType::Lunch,
                },
            ]
        } else {
            Seq::empty()
        };
        let dinner = if dinner_found {
            seq![
                PlannedSlot {
                    recipe_id: ranked[di].recipe_id,
                    day_of_week: day as u8,
                    meal_type: MealType::Dinner,
                },
            ]
        } else {
            Seq::empty()
        };
        lunch + dinner + week_from(ranked, day + 1, c2, used2)
    }
}

/// The plan that the selector builds from a ranking.
pub open spec fn week_plan(ranked: Seq<ScoredRecipe>) -> Seq<PlannedSlot> {
    week_from(ranked, 0, 0, Seq::empty())
}

/// The position of a meal within a day.
pub open spec fn meal_index(m: MealType) -> int {
    match m {
        MealType::Breakfast => 0,
        MealType::Lunch => 1,
        MealType::Dinner => 2,
        MealType::Snack => 3,
    }
}

/// The (day, meal) cell of a slot as one number.
pub open spec fn slot_key(s: PlannedSlot) -> int {
    s.day_of_week as int * 4 + meal_index(s.meal_type)
}

/// Some ranked recipe with this id fits this meal.
pub open spec fn drawn_from(ranked: Seq<ScoredRecipe>, s: PlannedSlot) -> bool {
    exists|k: int|
        0 <= k < ranked.len() && (#[trigger] ranked[k]).recipe_id == s.recipe_id && fits(
            ranked[k].category,
            s.meal_type,
        )
}

proof fn lemma_first_lunch(ranked: Seq<ScoredRecipe>, from: int, used: Seq<i64>)
    requires
        0 <= from,
    ensures
        from <= first_lunch(ranked, from, used) <= ranked.len() || first_lunch(ranked, from, used)
            == ranked.len(),
        first_lunch(ranked, from, used) < ranked.len() ==> lunch_ok(
            ranked[first_lunch(ranked, from, used)],
            used,
        ),
    decreases ranked.len() - from,
{
    if from < ranked.len() && !lunch_ok(ranked[from], used) {
        lemma_first_lunch(ranked, from + 1, used);
    }
}

proof fn lemma_first_dinner(ranked: Seq<ScoredRecipe>, from: int, used: Seq<i64>, lc: Option<String>)
    requires
        0 <= from,
    ensures
        from <= first_dinner(ranked, from, used, lc) <= ranked.len() || first_dinner(
            ranked,
            from,
            used,
            lc,
        ) == ranked.len(),
        first_dinner(ranked, from, used, lc) < ranked.len() ==> dinner_ok(
            ranked[first_dinner(ranked, from, used, lc)],
            used,
            lc,
        ),
    decreases ranked.len() - from,
{
    if from < ranked.len() && !dinner_ok(ranked[from], used, lc) {
        lemma_first_dinner(ranked, from + 1, used, lc);
    }
}

/// What the selector produces from day `day` on: the cells lie on days
/// `day` to 6 in strictly increasing (day, meal) order, each recipe fits
/// its meal and is none of `used`, and no recipe occurs twice.
pub proof fn lemma_week_from(ranked: Seq<ScoredRecipe>, day: int, cursor: int, used: Seq<i64>)
    requires
        0 <= day,
        0 <= cursor,
    ensures
        ({
            let w = week_from(ranked, day, cursor, used);
            &&& forall|a: int| 0 <= a < w.len() ==> day <= #[trigger] w[a].day_of_week < 7
            &&& forall|a: int| 0 <= a < w.len() ==> slot_key(#[trigger] w[a]) >= day * 4
            &&& forall|a: int, b: int| 0 <= a < b < w.len() ==> slot_key(w[a]) < slot_key(w[b])
            &&& forall|a: int| 0 <= a < w.len() ==> drawn_from(ranked, #[trigger] w[a])
            &&& forall|a: int| 0 <= a < w.len() ==> !used.contains(#[trigger] w[a].recipe_id)
            &&& forall|a: int, b: int|
                0 <= a < b < w.len() ==> w[a].recipe_id != w[b].recipe_id
        }),
    decreases 7 - day,
{
    if day < 7 {
        let n = ranked.len() as int;
        let li = first_lunch(ranked, cursor, used);
        lemma_first_lunch(ranked, cursor, used);
        let lunch_found = li < n;
        let used1 = if lunch_found {
            used.push(ranked[li].recipe_id)
        } else {
            used
        };
        let lc = if lunch_found {
            ranked[li].cuisine
        } else {
            None
        };
        let c1 = if lunch_found {
            li + 1
        } else {
            n
        };
        let di = first_dinner(ranked, c1, used1, lc);
        lemma_first_dinner(ranked, c1, used1, lc);
        let dinner_found = di < n;
        let used2 = if dinner_found {
            used1.push(ranked[di].recipe_id)
        } else {
            used1
        };
        let c2 = if dinner_found {
            di + 1
        } else {
            n
        };
        lemma_week_from(ranked, day + 1, c2, used2);
        let rest = week_from(ranked, day + 1, c2, used2);
        let w = week_from(ranked, day, cursor, used);
        let head = w.len() - rest.len();
        assert forall|a: int| head <= a < w.len() implies w[a] == rest[a - head] by {}
        assert forall|a: int| 0 <= a < w.len() implies drawn_from(ranked, #[trigger] w[a]) by {
            if a < head {
                if lunch_found && a == 0 {
                    assert(ranked[li].recipe_id == w[a].recipe_id);
                } else {
                    assert(ranked[di].recipe_id == w[a].recipe_id);
                }
            } else {
                assert(w[a] == rest[a - head]);
            }
        }
        assert forall|a: int| 0 <= a < w.len() implies !used.contains(#[trigger] w[a].recipe_id) by {
            if a >= head {
                assert(w[a] == rest[a - head]);
                assert(!used2.contains(rest[a - head].recipe_id));
                if used.contains(w[a].recipe_id) {
                    let k = choose|k: int| 0 <= k < used.len() && used[k] == w[a].recipe_id;
                    assert(used2[k] == used[k]);
                }
            } else if dinner_found && !(lunch_found && a == 0) {
                if used.contains(w[a].recipe_id) {
                    let k = choose|k: int| 0 <= k < used.len() && used[k] == w[a].recipe_id;
                    assert(used1[k] == used[k]);
                }
            }
        }
        assert forall|a: int, b: int| 0 <= a < b < w.len() implies w[a].recipe_id
            != w[b].recipe_id by {
            if b >= head {
                assert(w[b] == rest[b - head]);
                assert(!used2.contains(rest[b - head].recipe_id));
                if a < head {
                    if lunch_found && a == 0 {
                        assert(used2[used.len() as int] == w[a].recipe_id);
                    } else {
                        assert(used2[used1.len() as int] == w[a].recipe_id);
                    }
                } else {
                    assert(w[a] == rest[a - head]);
                }
            } else {
                assert(used1[used.len() as int] == w[a].recipe_id);
            }
        }
        assert forall|a: int, b: int| 0 <= a < b < w.len() implies slot_key(w[a]) < slot_key(
            w[b],
        ) by {
            if b >= head {
                assert(w[b] == rest[b - head]);
                if a >= head {
                    assert(w[a] == rest[a - head]);
                }
            }
        }
        assert forall|a: int| 0 <= a < w.len() implies day <= #[trigger] w[a].day_of_week < 7
            && slot_key(w[a]) >= day * 4 by {
            if a >= head {
                assert(w[a] == rest[a - head]);
            }
        }
    }
}

/// Whether a recipe of `category` fits `meal`.
pub fn fits_meal_type(category: &Option<String>, meal: MealType) -> (r: bool)
    ensures
        r == fits(*category, meal),
{
    match category {
        Some(c) => {
            if *c == String::from_str("breakfast") {
                matches!(meal, MealType::Breakfast)
            } else if *c == String::from_str("dessert") {
                false
            } else {
                true
            }
        },
        None => true,
    }
}

fn cuisine_matches(a: &Option<String>, b: &Option<String>) -> (r: bool)
    ensures
        r == same_cuisine(*a, *b),
{
    match (a, b) {
        (Some(x), Some(y)) => *x == *y,
        (None, None) => true,
        _ => false,
    }
}

fn used_contains(used: &Vec<i64>, id: i64) -> (r: bool)
    ensures
        r == used@.contains(id),
{
    let mut i: usize = 0;
    while i < used.len()
        invariant
            i <= used@.len(),
            forall|j: int| 0 <= j < i ==> used@[j] != id,
        decreases used@.len() - i,
    {
        if used[i] == id {
            return true;
        }
        i = i + 1;
    }
    false
}

fn find_lunch(ranked: &Vec<ScoredRecipe>, from: usize, used: &Vec<i64>) -> (r: usize)
    requires
        from <= ranked@.len(),
    ensures
        r == first_lunch(ranked@, from as int, used@),
{
    let mut j = from;
    while j < ranked.len()
        invariant
            from <= j <= ranked@.len(),
            first_lunch(ranked@, from as int, used@) == first_lunch(ranked@, j as int, used@),
        decreases ranked@.len() - j,
    {
        if !used_contains(used, ranked[j].recipe_id) && fits_meal_type(
            &ranked[j].category,
            MealType::Lunch,
        ) {
            return j;
        }
        j = j + 1;
    }
    j
}

fn find_dinner(
    ranked: &Vec<ScoredRecipe>,
    from: usize,
    used: &Vec<i64>,
    lc: &Option<String>,
) -> (r: usize)
    requires
        from <= ranked@.len(),
    ensures
        r == first_dinner(ranked@, from as int, used@, *lc),
{
    let mut j = from;
    while j < ranked.len()
        invariant
            from <= j <= ranked@.len(),
            first_dinner(ranked@, from as int, used@, *lc) == first_dinner(
                ranked@,
                j as int,
                used@,
                *lc,
            ),
        decreases ranked@.len() - j,
    {
        if !used_contains(used, ranked[j].recipe_id) && fits_meal_type(
            &ranked[j].category,
            MealType::Dinner,
        ) && !cuisine_matches(&ranked[j].cuisine, lc) {
            return j;
        }
        j = j + 1;
    }
    j
}

/// Assigns ranked recipes to the lunch and dinner slots of days 0 to 6.
/// No (day, meal) cell is filled twice, no recipe is used twice, and each
/// recipe fits its meal.
pub fn select_week(ranked: &Vec<ScoredRecipe>) -> (r: Vec<PlannedSlot>)
    ensures
        r@ == week_plan(ranked@),
        forall|a: int, b: int| 0 <= a < b < r@.len() ==> slot_key(r@[a]) < slot_key(r@[b]),
        forall|a: int, b: int| 0 <= a < b < r@.len() ==> r@[a].recipe_id != r@[b].recipe_id,
        forall|a: int| 0 <= a < r@.len() ==> #[trigger] r@[a].day_of_week < 7,
        forall|a: int| 0 <= a < r@.len() ==> drawn_from(ranked@, #[trigger] r@[a]),
{
    let mut out: Vec<PlannedSlot> = Vec::new();
    let mut used: Vec<i64> = Vec::new();
    let mut cursor: usize = 0;
    let n = ranked.len();
    let mut day: u8 = 0;
    while day < DAYS_PER_WEEK
        invariant
            day <= 7,
            cursor <= n,
            n == ranked@.len(),
            out@ + week_from(ranked@, day as int, cursor as int, used@) == week_plan(ranked@),
        decreases 7 - day,
    {
        let ghost before = out@;
        let ghost cur0 = cursor as int;
        let ghost used0 = used@;
        let li = find_lunch(ranked, cursor, &used);
        let mut lc: Option<String> = None;
        let mut c1 = n;
        if li < n {
            out.push(PlannedSlot { recipe_id: ranked[li].recipe_id, day_of_week: day, meal_type: MealType::Lunch });
            used.push(ranked[li].recipe_id);
            lc = crate::recipe::clone_opt_string(&ranked[li].cuisine);
            c1 = li + 1;
        }
        let di = find_dinner(ranked, c1, &used, &lc);
        let mut c2 = n;
        if di < n {
            out.push(PlannedSlot { recipe_id: ranked[di].recipe_id, day_of_week: day, meal_type: MealType::Dinner });
            used.push(ranked[di].recipe_id);
            c2 = di + 1;
        }
        cursor = c2;
        day = day + 1;
        assert(out@ + week_from(ranked@, day as int, cursor as int, used@) =~= before + week_from(
            ranked@,
            day - 1,
            cur0,
            used0,
        ));
    }
    proof {
        lemma_week_from(ranked@, 0, 0, Seq::empty());
        assert(week_from(ranked@, 7, cursor as int, used@) =~= Seq::<PlannedSlot>::empty());
        assert(out@ =~= week_plan(ranked@));
    }
    out
}

/// Some candidate with this id fits this meal.
pub open spec fn placed_from(cands: Seq<RecipeCandidate>, s: PlannedSlot) -> bool {
    exists|p: int|
        0 <= p < cands.len() && (#[trigger] cands[p]).id == s.recipe_id && fits(
            cands[p].category,
            s.meal_type,
        )
}

/// Plans a week: ranks the candidates and assigns them to slots. No cell
/// is filled twice, no recipe is used twice, no recipe cooked recently is
/// placed, and each placed recipe fits its meal.
pub fn generate_week_plan(
    candidates: &Vec<RecipeCandidate>,
    ctx: &ScoringContext,
    prefs: Option<&PreferenceVector>,
) -> (r: Vec<PlannedSlot>)
    requires
        prefs.is_some() ==> prefs.unwrap().wf(),
    ensures
        exists|ranked: Seq<ScoredRecipe>|
            is_ranking(ranked, candidates@, *ctx, prefs) && r@ == week_plan(ranked),
        forall|a: int, b: int| 0 <= a < b < r@.len() ==> slot_key(r@[a]) < slot_key(r@[b]),
        forall|a: int, b: int| 0 <= a < b < r@.len() ==> r@[a].recipe_id != r@[b].recipe_id,
        forall|a: int| 0 <= a < r@.len() ==> #[trigger] r@[a].day_of_week < 7,
        forall|a: int|
            0 <= a < r@.len() ==> !ctx.recent_recipe_ids@.contains(#[trigger] r@[a].recipe_id),
        forall|a: int| 0 <= a < r@.len() ==> placed_from(candidates@, #[trigger] r@[a]),
{
    let ranked = score_all(candidates, ctx, prefs);
    let r = select_week(&ranked);
    assert forall|a: int| 0 <= a < r@.len() implies !ctx.recent_recipe_ids@.contains(
        #[trigger] r@[a].recipe_id,
    ) && placed_from(candidates@, r@[a]) by {
        assert(drawn_from(ranked@, r@[a]));
        let k = choose|k: int|
            0 <= k < ranked@.len() && (#[trigger] ranked@[k]).recipe_id == r@[a].recipe_id && fits(
                ranked@[k].category,
                r@[a].meal_type,
            );
        let p = ranked@[k].position as int;
        assert(candidates@[p].id == r@[a].recipe_id);
    }
    r
}

/// The Monday that starts the week of day number `today` (day 0, the
/// first of January 1970, was a Thursday).
pub open spec fn week_start(today: int) -> int {
    today - (today + 3) % 7
}

/// The day number of the Monday that starts the week of `today`.
pub fn week_start_day(today: i64) -> (r: i64)
    requires
        today >= i64::MIN + 6,
    ensures
        r == week_start(today as int),
        today - 6 <= r <= today,
        (r + 3) % 7 == 0,
{
    // shifted by a multiple of 7 so that the remainder is taken of a
    // non-negative number
    let shift: i128 = 7 * 0x2000_0000_0000_0000;
    let t: i128 = today as i128 + 3 + shift;
    let m: i128 = t % 7;
    proof {
        vstd::arithmetic::div_mod::lemma_mod_multiples_vanish(
            0x2000_0000_0000_0000,
            today + 3,
            7,
        );
        vstd::arithmetic::div_mod::lemma_mod_bound(today + 3, 7);
        vstd::arithmetic::div_mod::lemma_fundamental_div_mod(today + 3, 7);
        let r = today - (today + 3) % 7;
        vstd::arithmetic::div_mod::lemma_mod_multiples_vanish((today + 3) / 7, 0, 7);
        assert(r + 3 == 7 * ((today + 3) / 7));
    }
    (today as i128 - m) as i64
}

} // verus!
