//! The per-user preference model: learned weights over cuisines,
//! ingredients, difficulties and macronutrient ratios, a preferred cooking
//! time, and the rules that update and apply them.
use vstd::prelude::*;
use vstd::arithmetic::div_mod::{lemma_div_is_ordered, lemma_div_multiples_vanish};
use crate::fixed_point::{clamp, lemma_round_div_bounded, round_div, round_div_i128};
use crate::recipe::{
    first_lines, ingredient_names, lemma_first_lines_step, line_names, repeats_earlier, Nutrition,
    RecipeCandidate,
};
use crate::signal::{signal_value, PreferenceSignal};
use crate::weights::{
    learn_all, learn_one, map_bounded, step, step_weight, WeightTable,
};

verus! {

/// The neutral score returned when nothing is known.
pub const NEUTRAL_SCORE: u64 = 500_000;

/// Learned bias toward each macronutrient's share of calories, in thousandths.
#[derive(Debug, Clone, Copy, PartialEq, Eq)]
pub struct MacroBias {
    pub protein: i64,
    pub carbs: i64,
    pub fat: i64,
}

/// One user's learned preferences.
#[derive(Debug, Clone)]
pub struct PreferenceVector {
    pub cuisine_weights: WeightTable,
    pub ingredient_weights: WeightTable,
    pub difficulty_weights: WeightTable,
    pub macro_bias: MacroBias,
    pub preferred_time_min: u32,
    pub interaction_count: u64,
}

/// The bias lies in `[-1.0, 1.0]` on each macronutrient.
pub open spec fn macro_bounded(b: MacroBias) -> bool {
    &&& -1000 <= b.protein <= 1000
    &&& -1000 <= b.carbs <= 1000
    &&& -1000 <= b.fat <= 1000
}

/// One step on an optional key; nothing changes without a key.
pub open spec fn learn_opt(m: Map<Seq<char>, int>, k: Option<String>, num: int, den: int) -> Map<
    Seq<char>,
    int,
> {
    match k {
        Some(s) => learn_one(m, s@, num, den),
        None => m,
    }
}

/// The macronutrient bias after a signal of value `v` on a recipe with
/// nutrition `n`: each macro's calorie share (protein and carbohydrate at 4
/// kcal per gram, fat at 9), sign-flipped for a negative signal and scaled
/// by the signal's magnitude (that is, times the signal), is the target of
/// one step. Nothing changes without nutrition or with zero calories.
pub open spec fn macro_after(b: MacroBias, n: Option<Nutrition>, v: int) -> MacroBias {
    match n {
        Some(n) => if n.calories_milli > 0 {
            MacroBias {
                protein: step(b.protein as int, 4 * n.protein_mg * v, n.calories_milli as int) as i64,
                carbs: step(b.carbs as int, 4 * n.carbs_mg * v, n.calories_milli as int) as i64,
                fat: step(b.fat as int, 9 * n.fat_mg * v, n.calories_milli as int) as i64,
            }
        } else {
            b
        },
        None => b,
    }
}

/// The preferred cooking time after a signal of value `v`: on a positive
/// signal, the running mean over `count` earlier interactions moves toward
/// the recipe's time; otherwise it stays.
pub open spec fn time_after(old: int, count: int, t: Option<u32>, v: int) -> int {
    match t {
        Some(t) => if v > 0 {
            (old * count + t) / (count + 1)
        } else {
            old
        },
        None => old,
    }
}

/// How many of the names have a weight.
pub open spec fn known_count(m: Map<Seq<char>, int>, ks: Seq<Seq<char>>) -> int
    decreases ks.len(),
{
    if ks.len() == 0 {
        0
    } else {
        known_count(m, ks.drop_last()) + if m.contains_key(ks.last()) {
            1int
        } else {
            0int
        }
    }
}

/// The sum of the weights that the names have.
pub open spec fn known_sum(m: Map<Seq<char>, int>, ks: Seq<Seq<char>>) -> int
    decreases ks.len(),
{
    if ks.len() == 0 {
        0
    } else {
        known_sum(m, ks.drop_last()) + if m.contains_key(ks.last()) {
            m[ks.last()]
        } else {
            0int
        }
    }
}

/// How well a recipe's time fits the preferred time, in millionths:
/// `1 - min(1, |difference| / 60)`.
pub open spec fn time_fit(t: int, preferred: int) -> int {
    let diff = if t >= preferred {
        t - preferred
    } else {
        preferred - t
    };
    if diff >= 60 {
        0
    } else {
        (60 - diff) * 1_000_000 / 60
    }
}

/// The weight of an optional key in millionths, when the key has one.
pub open spec fn key_component(m: Map<Seq<char>, int>, k: Option<String>) -> Option<int> {
    match k {
        Some(s) => if m.contains_key(s@) {
            Some(m[s@] * 1000)
        } else {
            None
        },
        None => None,
    }
}

/// The time-fit component, when the recipe has a time.
pub open spec fn time_component(p: PreferenceVector, r: RecipeCandidate) -> Option<int> {
    match r.total_time_min {
        Some(t) => Some(time_fit(t as int, p.preferred_time_min as int)),
        None => None,
    }
}

/// The mean of the known weights of the recipe's distinct ingredients, in
/// millionths, when at least one of them has a weight.
pub open spec fn ingredient_component(p: PreferenceVector, r: RecipeCandidate) -> Option<int> {
    let names = ingredient_names(r);
    let c = known_count(p.ingredient_weights@, names);
    if c > 0 {
        Some(round_div(known_sum(p.ingredient_weights@, names) * 1000, c))
    } else {
        None
    }
}

/// 1 for a component with data, 0 otherwise.
pub open spec fn present(o: Option<int>) -> int {
    if o.is_some() {
        1
    } else {
        0
    }
}

/// A component's value, 0 without data.
pub open spec fn value_or_zero(o: Option<int>) -> int {
    match o {
        Some(v) => v,
        None => 0,
    }
}

/// The preference score of a recipe, in millionths: the mean of the
/// components that have data (cuisine weight, difficulty weight, time fit,
/// mean known ingredient weight), clamped to `[0, 1]`; one half when no
/// component has data.
pub open spec fn preference_score(p: PreferenceVector, r: RecipeCandidate) -> int {
    let c = key_component(p.cuisine_weights@, r.cuisine);
    let d = key_component(p.difficulty_weights@, r.difficulty);
    let t = time_component(p, r);
    let i = ingredient_component(p, r);
    let n = present(c) + present(d) + present(t) + present(i);
    let total = value_or_zero(c) + value_or_zero(d) + value_or_zero(t) + value_or_zero(i);
    if n == 0 {
        500_000
    } else {
        clamp(total / n, 0, 1_000_000)
    }
}

/// The preference score for a user who may have no preference record yet.
pub open spec fn preference_score_opt(p: Option<PreferenceVector>, r: RecipeCandidate) -> int {
    match p {
        Some(p) => preference_score(p, r),
        None => 500_000,
    }
}

impl PreferenceVector {
    /// Each table is well formed and every weight lies in `[-1.0, 1.0]`.
    pub open spec fn wf(&self) -> bool {
        &&& self.cuisine_weights.wf()
        &&& self.ingredient_weights.wf()
        &&& self.difficulty_weights.wf()
        &&& macro_bounded(self.macro_bias)
    }

    /// The neutral record of a user's first interaction: no cuisine or
    /// ingredient weights, zero weights for the difficulties "easy",
    /// "medium" and "hard", zero macro bias, 30 minutes preferred, no
    /// interactions.
    pub fn new() -> (r: Self)
        ensures
            r.wf(),
            r.cuisine_weights@ == Map::<Seq<char>, int>::empty(),
            r.ingredient_weights@ == Map::<Seq<char>, int>::empty(),
            r.difficulty_weights@ == Map::<Seq<char>, int>::empty().insert("easy"@, 0).insert(
                "medium"@,
                0,
            ).insert("hard"@, 0),
            r.macro_bias == (MacroBias { protein: 0, carbs: 0, fat: 0 }),
            r.preferred_time_min == 30,
            r.interaction_count == 0,
    {
        let mut difficulty_weights = WeightTable::new();
        difficulty_weights.set(&String::from_str("easy"), 0);
        difficulty_weights.set(&String::from_str("medium"), 0);
        difficulty_weights.set(&String::from_str("hard"), 0);
        PreferenceVector {
            cuisine_weights: WeightTable::new(),
            ingredient_weights: WeightTable::new(),
            difficulty_weights,
            macro_bias: MacroBias { protein: 0, carbs: 0, fat: 0 },
            preferred_time_min: 30,
            interaction_count: 0,
        }
    }

    /// Learns from one interaction with `recipe`: the cuisine and difficulty
    /// weights step toward the signal, the weight of each distinct
    /// ingredient (each ingredient id once, however many lines name it)
    /// toward half the signal, the macro bias toward the recipe's calorie shares times the
    /// signal, the preferred time toward the recipe's time on a positive
    /// signal; the interaction count grows by one.
    pub fn record_interaction(&mut self, recipe: &RecipeCandidate, signal: PreferenceSignal)
        requires
            old(self).wf(),
            old(self).interaction_count < u64::MAX,
        ensures
            final(self).wf(),
            final(self).cuisine_weights@ == learn_opt(
                old(self).cuisine_weights@,
                recipe.cuisine,
                signal_value(signal),
                1,
            ),
            final(self).difficulty_weights@ == learn_opt(
                old(self).difficulty_weights@,
                recipe.difficulty,
                signal_value(signal),
                1,
            ),
            final(self).ingredient_weights@ == learn_all(
                old(self).ingredient_weights@,
                ingredient_names(*recipe),
                signal_value(signal),
                2,
            ),
            final(self).macro_bias == macro_after(
                old(self).macro_bias,
                recipe.nutrition,
                signal_value(signal),
            ),
            final(self).preferred_time_min == time_after(
                old(self).preferred_time_min as int,
                old(self).interaction_count as int,
                recipe.total_time_min,
                signal_value(signal),
            ),
            final(self).interaction_count == old(self).interaction_count + 1,
            map_bounded(final(self).cuisine_weights@),
            map_bounded(final(self).ingredient_weights@),
            map_bounded(final(self).difficulty_weights@),
            macro_bounded(final(self).macro_bias),
    {
        let v = signal.value();
        let mut i: usize = 0;
        while i < recipe.ingredients.len()
            invariant
                i <= recipe.ingredients@.len(),
                v == signal_value(signal),
                -600 <= v <= 1000,
                self.ingredient_weights.wf(),
                self.ingredient_weights@ == learn_all(
                    old(self).ingredient_weights@,
                    line_names(first_lines(recipe.ingredients@.take(i as int))),
                    v as int,
                    2,
                ),
                self.cuisine_weights == old(self).cuisine_weights,
                self.difficulty_weights == old(self).difficulty_weights,
                self.macro_bias == old(self).macro_bias,
                self.preferred_time_min == old(self).preferred_time_min,
                self.interaction_count == old(self).interaction_count,
            decreases recipe.ingredients@.len() - i,
        {
            proof {
                lemma_first_lines_step(recipe.ingredients@, i as int);
            }
            if !repeats_earlier(&recipe.ingredients, i) {
                let ghost names = line_names(first_lines(recipe.ingredients@.take(i as int)));
                assert(names.push(recipe.ingredients@[i as int].name@).drop_last() =~= names);
                self.ingredient_weights.learn(&recipe.ingredients[i].name, v as i128, 2);
            }
            i = i + 1;
        }
        assert(recipe.ingredients@.take(recipe.ingredients@.len() as int) =~= recipe.ingredients@);
        if let Some(c) = &recipe.cuisine {
            self.cuisine_weights.learn(c, v as i128, 1);
        }
        if let Some(d) = &recipe.difficulty {
            self.difficulty_weights.learn(d, v as i128, 1);
        }
        if let Some(n) = &recipe.nutrition {
            if n.calories_milli > 0 {
                let cal = n.calories_milli as i128;
                let vv = v as i128;
                assert(-600 * 0x1_0000_0000_0000_0000 <= (n.protein_mg as int) * v <= 1000
                    * 0x1_0000_0000_0000_0000) by (nonlinear_arith)
                    requires
                        -600 <= v <= 1000,
                        0 <= n.protein_mg < 0x1_0000_0000_0000_0000,
                ;
                assert(-600 * 0x1_0000_0000_0000_0000 <= (n.carbs_mg as int) * v <= 1000
                    * 0x1_0000_0000_0000_0000) by (nonlinear_arith)
                    requires
                        -600 <= v <= 1000,
                        0 <= n.carbs_mg < 0x1_0000_0000_0000_0000,
                ;
                assert(-600 * 0x1_0000_0000_0000_0000 <= (n.fat_mg as int) * v <= 1000
                    * 0x1_0000_0000_0000_0000) by (nonlinear_arith)
                    requires
                        -600 <= v <= 1000,
                        0 <= n.fat_mg < 0x1_0000_0000_0000_0000,
                ;
                let pn: i128 = 4 * ((n.protein_mg as i128) * vv);
                let cn: i128 = 4 * ((n.carbs_mg as i128) * vv);
                let fnum: i128 = 9 * ((n.fat_mg as i128) * vv);
                assert(4 * n.protein_mg * v == 4 * ((n.protein_mg as int) * v)) by (nonlinear_arith);
                assert(4 * n.carbs_mg * v == 4 * ((n.carbs_mg as int) * v)) by (nonlinear_arith);
                assert(9 * n.fat_mg * v == 9 * ((n.fat_mg as int) * v)) by (nonlinear_arith);
                let b = self.macro_bias;
                self.macro_bias = MacroBias {
                    protein: step_weight(b.protein, pn, cal),
                    carbs: step_weight(b.carbs, cn, cal),
                    fat: step_weight(b.fat, fnum, cal),
                };
            }
        }
        if let Some(t) = recipe.total_time_min {
            if v > 0 {
                let count = self.interaction_count as u128;
                let old_t = self.preferred_time_min as u128;
                proof {
                    let m = if old_t >= t {
                        old_t as int
                    } else {
                        t as int
                    };
                    assert((old_t as int) * (count as int) <= m * (count as int)) by (nonlinear_arith)
                        requires
                            old_t <= m,
                            count >= 0,
                    ;
                    assert(m * (count as int) + m == (count + 1) * m) by (nonlinear_arith);
                    lemma_div_is_ordered(
                        (old_t as int) * (count as int) + t,
                        (count + 1) * m,
                        count + 1,
                    );
                    lemma_div_multiples_vanish(m, count + 1);
                    assert((old_t as int) * (count as int) <= 0xffff_ffff * 0xffff_ffff_ffff_ffff)
                        by (nonlinear_arith)
                        requires
                            old_t <= 0xffff_ffff,
                            count <= 0xffff_ffff_ffff_ffff,
                    ;
                }
                let mean = (old_t * count + t as u128) / (count + 1);
                self.preferred_time_min = mean as u32;
            }
        }
        self.interaction_count = self.interaction_count + 1;
        proof {
            self.cuisine_weights.lemma_bounded();
            self.ingredient_weights.lemma_bounded();
            self.difficulty_weights.lemma_bounded();
        }
    }
}

/// The preference score of `recipe` for a user whose preference record is
/// `prefs`, in millionths; one half for a user without a record.
pub fn score_recipe_for_user(prefs: Option<&PreferenceVector>, recipe: &RecipeCandidate) -> (r: u64)
    requires
        prefs.is_some() ==> prefs.unwrap().wf(),
    ensures
        r == match prefs {
            Some(p) => preference_score(*p, *recipe),
            None => 500_000,
        },
        r <= 1_000_000,
{
    match prefs {
        Some(p) => p.score(recipe),
        None => NEUTRAL_SCORE,
    }
}

impl PreferenceVector {
    fn key_score(table: &WeightTable, key: &Option<String>) -> (r: Option<i64>)
        requires
            table.wf(),
        ensures
            r.is_some() == key_component(table@, *key).is_some(),
            r.is_some() ==> r.unwrap() == key_component(table@, *key).unwrap(),
            r.is_some() ==> -1_000_000 <= r.unwrap() <= 1_000_000,
    {
        proof {
            table.lemma_bounded();
        }
        match key {
            Some(k) => match table.get(k) {
                Some(w) => Some(w * 1000),
                None => None,
            },
            None => None,
        }
    }

    fn ingredient_score(&self, recipe: &RecipeCandidate) -> (r: Option<i64>)
        requires
            self.wf(),
        ensures
            r.is_some() == ingredient_component(*self, *recipe).is_some(),
            r.is_some() ==> r.unwrap() == ingredient_component(*self, *recipe).unwrap(),
            r.is_some() ==> -1_000_000 <= r.unwrap() <= 1_000_000,
    {
        let ghost m = self.ingredient_weights@;
        proof {
            self.ingredient_weights.lemma_bounded();
        }
        let mut count: i128 = 0;
        let mut sum: i128 = 0;
        let mut i: usize = 0;
        while i < recipe.ingredients.len()
            invariant
                i <= recipe.ingredients@.len(),
                self.wf(),
                m == self.ingredient_weights@,
                map_bounded(m),
                count == known_count(m, line_names(first_lines(recipe.ingredients@.take(i as int)))),
                sum == known_sum(m, line_names(first_lines(recipe.ingredients@.take(i as int)))),
                0 <= count <= i,
                -1000 * count <= sum <= 1000 * count,
            decreases recipe.ingredients@.len() - i,
        {
            proof {
                lemma_first_lines_step(recipe.ingredients@, i as int);
            }
            if !repeats_earlier(&recipe.ingredients, i) {
                let ghost names = line_names(first_lines(recipe.ingredients@.take(i as int)));
                assert(names.push(recipe.ingredients@[i as int].name@).drop_last() =~= names);
                match self.ingredient_weights.get(&recipe.ingredients[i].name) {
                    Some(w) => {
                        count = count + 1;
                        sum = sum + w as i128;
                    },
                    None => {},
                }
            }
            i = i + 1;
        }
        assert(recipe.ingredients@.take(recipe.ingredients@.len() as int) =~= recipe.ingredients@);
        if count > 0 {
            let q = round_div_i128(sum * 1000, count);
            proof {
                assert(-1_000_000 * count <= sum * 1000 <= 1_000_000 * count) by (nonlinear_arith)
                    requires
                        -1000 * count <= sum <= 1000 * count,
                ;
                lemma_round_div_bounded(sum * 1000, count as int, 1_000_000);
            }
            Some(q as i64)
        } else {
            None
        }
    }

    /// The preference score of `recipe` against these preferences, in
    /// millionths.
    pub fn score(&self, recipe: &RecipeCandidate) -> (r: u64)
        requires
            self.wf(),
        ensures
            r == preference_score(*self, *recipe),
            r <= 1_000_000,
    {
        let mut n: i64 = 0;
        let mut total: i64 = 0;
        let c = Self::key_score(&self.cuisine_weights, &recipe.cuisine);
        if let Some(w) = c {
            n = n + 1;
            total = total + w;
        }
        let d = Self::key_score(&self.difficulty_weights, &recipe.difficulty);
        if let Some(w) = d {
            n = n + 1;
            total = total + w;
        }
        if let Some(t) = recipe.total_time_min {
            let pt = self.preferred_time_min;
            let diff: u32 = if t >= pt {
                t - pt
            } else {
                pt - t
            };
            n = n + 1;
            if diff < 60 {
                total = total + ((60 - diff as i64) * 1_000_000) / 60;
            }
        }
        let g = self.ingredient_score(recipe);
        if let Some(w) = g {
            n = n + 1;
            total = total + w;
        }
        if n == 0 {
            NEUTRAL_SCORE
        } else if total <= 0 {
            proof {
                lemma_div_is_ordered(total as int, 0, n as int);
            }
            0
        } else {
            let q = total / n;
            if q > 1_000_000 {
                1_000_000
            } else {
                q as u64
            }
        }
    }
}

proof fn lemma_nothing_known(ks: Seq<Seq<char>>)
    ensures
        known_count(Map::<Seq<char>, int>::empty(), ks) == 0,
    decreases ks.len(),
{
    if ks.len() > 0 {
        lemma_nothing_known(ks.drop_last());
    }
}

/// With no recorded weights (no cuisine, ingredient or difficulty weight)
/// a recipe without a cooking time scores exactly one half; so does every
/// recipe for a user without a preference record.
pub proof fn lemma_no_weights_scores_neutral(p: PreferenceVector, r: RecipeCandidate)
    requires
        p.cuisine_weights@ == Map::<Seq<char>, int>::empty(),
        p.ingredient_weights@ == Map::<Seq<char>, int>::empty(),
        p.difficulty_weights@ == Map::<Seq<char>, int>::empty(),
        r.total_time_min.is_none(),
    ensures
        preference_score(p, r) == 500_000,
        preference_score_opt(None, r) == 500_000,
{
    lemma_nothing_known(ingredient_names(r));
}

} // verus!
