use meal_core::plan::{
    fits_meal_type, generate_week_plan, select_week, week_start_day, MealType, PlannedSlot,
};
use meal_core::preference::{score_recipe_for_user, PreferenceVector};
use meal_core::recipe::{Nutrition, RecipeCandidate, RecipeIngredient};
use meal_core::scoring::{
    score_all, score_candidate, CookedEntry, ScoredRecipe, ScoringContext,
};
use meal_core::inventory::InventoryEntry;
use meal_core::shopping::{get_shopping_list, IngredientName, PlanSlotRecord, RecipeLine};
use meal_core::signal::PreferenceSignal;
use meal_core::weights::{step_weight, WeightTable};

fn s(x: &str) -> String {
    x.to_string()
}

fn ingredient(id: i64, name: &str, grams: Option<u64>) -> RecipeIngredient {
    RecipeIngredient { ingredient_id: id, name: s(name), quantity_mg: grams.map(|g| g * 1000) }
}

fn recipe(id: i64, cuisine: Option<&str>, category: Option<&str>) -> RecipeCandidate {
    RecipeCandidate {
        id,
        cuisine: cuisine.map(s),
        category: category.map(s),
        difficulty: None,
        servings: 2,
        total_time_min: None,
        ingredients: vec![],
        nutrition: None,
    }
}

fn empty_context() -> ScoringContext {
    ScoringContext {
        inventory_ids: vec![],
        expiring_ids: vec![],
        recent_recipe_ids: vec![],
        favourite_ids: vec![],
        household_size: 2,
    }
}

fn pasta() -> RecipeCandidate {
    RecipeCandidate {
        id: 7,
        cuisine: Some(s("italian")),
        category: Some(s("main")),
        difficulty: Some(s("easy")),
        servings: 2,
        total_time_min: Some(40),
        ingredients: vec![ingredient(1, "tomato", Some(200))],
        nutrition: Some(Nutrition {
            calories_milli: 500_000,
            protein_mg: 25_000,
            carbs_mg: 50_000,
            fat_mg: 10_000,
            fiber_mg: 0,
        }),
    }
}

#[test]
fn signal_magnitudes() {
    assert_eq!(PreferenceSignal::Rated(5).value(), 1000);
    assert_eq!(PreferenceSignal::Rated(4).value(), 600);
    assert_eq!(PreferenceSignal::Rated(3).value(), 200);
    assert_eq!(PreferenceSignal::Rated(2).value(), -200);
    assert_eq!(PreferenceSignal::Rated(1).value(), -600);
    assert_eq!(PreferenceSignal::Rated(9).value(), 0);
    assert_eq!(PreferenceSignal::Cooked.value(), 500);
    assert_eq!(PreferenceSignal::Favourited.value(), 800);
    assert_eq!(PreferenceSignal::Skipped.value(), -300);
}

#[test]
fn three_five_star_ratings_follow_the_recurrence() {
    let mut p = PreferenceVector::new();
    let r = pasta();
    let mut seen = vec![];
    for _ in 0..3 {
        p.record_interaction(&r, PreferenceSignal::Rated(5));
        seen.push(p.cuisine_weights.get(&s("italian")).unwrap());
    }
    assert_eq!(seen, vec![100, 190, 271]);
    assert_eq!(p.difficulty_weights.get(&s("easy")), Some(271));
    assert_eq!(p.difficulty_weights.get(&s("hard")), Some(0));
    // ingredients learn toward half the signal: 0.05, 0.095, 0.1355 rounded
    assert_eq!(p.ingredient_weights.get(&s("tomato")), Some(136));
    assert_eq!(p.interaction_count, 3);
    assert_eq!(p.preferred_time_min, 40);
}

#[test]
fn macro_bias_follows_calorie_shares() {
    let mut p = PreferenceVector::new();
    p.record_interaction(&pasta(), PreferenceSignal::Rated(5));
    // protein 25 g * 4 / 500 kcal = 0.2, one tenth of it
    assert_eq!(p.macro_bias.protein, 20);
    // carbs 50 g * 4 / 500 kcal = 0.4
    assert_eq!(p.macro_bias.carbs, 40);
    // fat 10 g * 9 / 500 kcal = 0.18
    assert_eq!(p.macro_bias.fat, 18);
    let mut q = PreferenceVector::new();
    q.record_interaction(&pasta(), PreferenceSignal::Rated(1));
    // negative signal: target is -0.2 * 0.6
    assert_eq!(q.macro_bias.protein, -12);
}

#[test]
fn negative_signal_keeps_preferred_time() {
    let mut p = PreferenceVector::new();
    p.record_interaction(&pasta(), PreferenceSignal::Skipped);
    assert_eq!(p.preferred_time_min, 30);
    assert_eq!(p.interaction_count, 1);
    assert_eq!(p.cuisine_weights.get(&s("italian")), Some(-30));
    p.record_interaction(&pasta(), PreferenceSignal::Cooked);
    // running mean over one earlier interaction: (30 * 1 + 40) / 2
    assert_eq!(p.preferred_time_min, 35);
}

#[test]
fn weights_stay_within_unit_range() {
    let mut p = PreferenceVector::new();
    let mut r = pasta();
    r.nutrition = Some(Nutrition {
        calories_milli: 1,
        protein_mg: u64::MAX,
        carbs_mg: u64::MAX,
        fat_mg: u64::MAX,
        fiber_mg: 0,
    });
    for _ in 0..200 {
        p.record_interaction(&r, PreferenceSignal::Rated(5));
    }
    assert_eq!(p.macro_bias.protein, 1000);
    assert_eq!(p.macro_bias.fat, 1000);
    let w = p.cuisine_weights.get(&s("italian")).unwrap();
    assert!(w <= 1000 && w >= 995);
    for _ in 0..200 {
        p.record_interaction(&r, PreferenceSignal::Rated(1));
    }
    assert_eq!(p.macro_bias.carbs, -1000);
    let w = p.cuisine_weights.get(&s("italian")).unwrap();
    assert!(w >= -1000 && w <= -595);
}

#[test]
fn zero_signal_decays_toward_zero() {
    let mut w: i64 = 500;
    let mut trail = vec![];
    for _ in 0..3 {
        w = step_weight(w, 0, 1);
        trail.push(w);
    }
    assert_eq!(trail, vec![450, 405, 365]);
    assert_eq!(step_weight(-500, 0, 1), -450);
    assert_eq!(step_weight(5, 0, 1), 5);
    let mut p = PreferenceVector::new();
    p.cuisine_weights.set(&s("italian"), 800);
    p.record_interaction(&pasta(), PreferenceSignal::Rated(0));
    assert_eq!(p.cuisine_weights.get(&s("italian")), Some(720));
}

#[test]
fn score_without_record_is_neutral() {
    assert_eq!(score_recipe_for_user(None, &pasta()), 500_000);
    let mut p = PreferenceVector::new();
    p.difficulty_weights = WeightTable::new();
    let mut r = pasta();
    r.total_time_min = None;
    assert_eq!(score_recipe_for_user(Some(&p), &r), 500_000);
}

#[test]
fn score_averages_known_components() {
    let mut p = PreferenceVector::new();
    let r = pasta();
    for _ in 0..3 {
        p.record_interaction(&r, PreferenceSignal::Rated(5));
    }
    // (0.271 + 0.271 + 1.0 + 0.136) / 4
    assert_eq!(p.score(&r), 419_500);
    let mut far = r.clone();
    far.total_time_min = Some(70);
    // time fit 1 - 30/60 = 0.5
    assert_eq!(p.score(&far), 294_500);
    let mut disliked = PreferenceVector::new();
    disliked.cuisine_weights.set(&s("italian"), -900);
    let mut r2 = recipe(1, Some("italian"), None);
    r2.difficulty = Some(s("unknown"));
    assert_eq!(disliked.score(&r2), 0);
}

#[test]
fn candidate_score_formula() {
    let mut r = pasta();
    r.ingredients = vec![ingredient(1, "tomato", Some(200)), ingredient(2, "basil", Some(5))];
    let mut ctx = empty_context();
    ctx.inventory_ids = vec![1];
    ctx.expiring_ids = vec![1, 2];
    ctx.favourite_ids = vec![7];
    // coverage 0.5, urgency 1.0, preference 0.5, nutrition:
    // calories 500 kcal / 14000 = 35714 ppm, protein 25 g / 350 = 71428 ppm -> 53571
    // total = 30*500000 + 25*1000000 + 25*500000 + 12*53571 + 8*100000
    assert_eq!(score_candidate(&r, &ctx, None), 15_000_000 + 25_000_000 + 12_500_000 + 642_852 + 800_000);
}

#[test]
fn ranking_orders_by_score_then_input() {
    let cands = vec![recipe(1, None, None), recipe(2, None, None), recipe(3, None, None)];
    let mut ctx = empty_context();
    ctx.favourite_ids = vec![3];
    let ranked = score_all(&cands, &ctx, None);
    let ids: Vec<i64> = ranked.iter().map(|r| r.recipe_id).collect();
    assert_eq!(ids, vec![3, 1, 2]);
    assert_eq!(ranked[0].total_score, 18_500_000 + 800_000);
    assert_eq!(ranked[1].position, 0);
    ctx.recent_recipe_ids = vec![1];
    let ranked = score_all(&cands, &ctx, None);
    let ids: Vec<i64> = ranked.iter().map(|r| r.recipe_id).collect();
    assert_eq!(ids, vec![3, 2]);
}

#[test]
fn meal_type_fit_rules() {
    assert!(fits_meal_type(&Some(s("breakfast")), MealType::Breakfast));
    assert!(!fits_meal_type(&Some(s("breakfast")), MealType::Lunch));
    assert!(!fits_meal_type(&Some(s("breakfast")), MealType::Dinner));
    assert!(!fits_meal_type(&Some(s("dessert")), MealType::Lunch));
    assert!(!fits_meal_type(&Some(s("dessert")), MealType::Breakfast));
    assert!(fits_meal_type(&Some(s("main")), MealType::Dinner));
    assert!(fits_meal_type(&None, MealType::Lunch));
}

#[test]
fn small_catalog_fills_two_slots() {
    let cands = vec![
        recipe(1, Some("american"), Some("breakfast")),
        recipe(2, Some("italian"), Some("main")),
        recipe(3, Some("mexican"), None),
    ];
    let plan = generate_week_plan(&cands, &empty_context(), None);
    assert_eq!(
        plan,
        vec![
            PlannedSlot { recipe_id: 2, day_of_week: 0, meal_type: MealType::Lunch },
            PlannedSlot { recipe_id: 3, day_of_week: 0, meal_type: MealType::Dinner },
        ]
    );
    assert!(plan.iter().all(|p| p.recipe_id != 1));
}

#[test]
fn same_cuisine_dinner_stays_empty() {
    let cands = vec![
        recipe(1, Some("italian"), None),
        recipe(2, Some("italian"), None),
        recipe(3, Some("thai"), None),
    ];
    let plan = generate_week_plan(&cands, &empty_context(), None);
    // dinner of day 0 finds thai after skipping the second italian; the
    // cursor never returns to it
    assert_eq!(
        plan,
        vec![
            PlannedSlot { recipe_id: 1, day_of_week: 0, meal_type: MealType::Lunch },
            PlannedSlot { recipe_id: 3, day_of_week: 0, meal_type: MealType::Dinner },
        ]
    );
    let cands = vec![recipe(1, Some("italian"), None), recipe(2, Some("italian"), None)];
    let plan = generate_week_plan(&cands, &empty_context(), None);
    assert_eq!(plan, vec![PlannedSlot { recipe_id: 1, day_of_week: 0, meal_type: MealType::Lunch }]);
}

#[test]
fn full_week_uses_fourteen_distinct_recipes() {
    let cuisines = ["a", "b"];
    let cands: Vec<RecipeCandidate> =
        (0..20).map(|i| recipe(i, Some(cuisines[(i % 2) as usize]), None)).collect();
    let mut ctx = empty_context();
    ctx.recent_recipe_ids = vec![4, 5];
    let plan = generate_week_plan(&cands, &ctx, None);
    assert_eq!(plan.len(), 14);
    for (i, a) in plan.iter().enumerate() {
        assert!(a.recipe_id != 4 && a.recipe_id != 5);
        for b in plan.iter().skip(i + 1) {
            assert!(a.recipe_id != b.recipe_id);
            assert!((a.day_of_week, a.meal_type) != (b.day_of_week, b.meal_type));
        }
    }
    assert_eq!(plan[13], PlannedSlot { recipe_id: 15, day_of_week: 6, meal_type: MealType::Dinner });
}

#[test]
fn selector_on_given_ranking() {
    let entry = |id: i64, cuisine: Option<&str>, category: Option<&str>, position: usize| ScoredRecipe {
        recipe_id: id,
        total_score: 0,
        cuisine: cuisine.map(s),
        category: category.map(s),
        total_time_min: None,
        position,
    };
    let ranked = vec![
        entry(1, None, Some("dessert"), 0),
        entry(2, None, None, 1),
        entry(3, None, None, 2),
        entry(4, Some("x"), None, 3),
    ];
    // a lunch without cuisine rules out a dinner without cuisine
    assert_eq!(
        select_week(&ranked),
        vec![
            PlannedSlot { recipe_id: 2, day_of_week: 0, meal_type: MealType::Lunch },
            PlannedSlot { recipe_id: 4, day_of_week: 0, meal_type: MealType::Dinner },
        ]
    );
    assert_eq!(select_week(&vec![]), vec![]);
}

#[test]
fn context_from_snapshot_windows() {
    let inv = vec![
        InventoryEntry { ingredient_id: 1, quantity_mg: 1, expiry_day: Some(107) },
        InventoryEntry { ingredient_id: 2, quantity_mg: 1, expiry_day: Some(108) },
        InventoryEntry { ingredient_id: 3, quantity_mg: 1, expiry_day: None },
    ];
    let now = 1_000 * 86_400;
    let hist = vec![
        CookedEntry { recipe_id: 10, cooked_at_secs: now - 14 * 86_400 },
        CookedEntry { recipe_id: 11, cooked_at_secs: now - 14 * 86_400 - 1 },
    ];
    let ctx = ScoringContext::from_snapshot(&inv, &hist, vec![5], 100, now, 3);
    assert_eq!(ctx.inventory_ids, vec![1, 2, 3]);
    assert_eq!(ctx.expiring_ids, vec![1]);
    assert_eq!(ctx.recent_recipe_ids, vec![10]);
    assert_eq!(ctx.favourite_ids, vec![5]);
    assert_eq!(ctx.household_size, 3);
}

fn names() -> Vec<IngredientName> {
    vec![
        IngredientName { ingredient_id: 1, name: s("flour") },
        IngredientName { ingredient_id: 2, name: s("eggs") },
        IngredientName { ingredient_id: 3, name: s("butter") },
    ]
}

#[test]
fn covered_ingredient_is_absent_and_partial_one_is_listed() {
    let slots = vec![PlanSlotRecord { recipe_id: 10, is_completed: false }];
    let lines = vec![
        RecipeLine { recipe_id: 10, ingredient_id: 1, quantity_mg: Some(100_000) },
        RecipeLine { recipe_id: 10, ingredient_id: 2, quantity_mg: Some(100_000) },
    ];
    let stock = vec![
        InventoryEntry { ingredient_id: 1, quantity_mg: 150_000, expiry_day: None },
        InventoryEntry { ingredient_id: 2, quantity_mg: 40_000, expiry_day: None },
    ];
    let list = get_shopping_list(&slots, &lines, &stock, &names());
    assert_eq!(list.len(), 1);
    assert_eq!(list[0].ingredient_id, 2);
    assert_eq!(list[0].name, "eggs");
    assert_eq!(list[0].needed_mg, 100_000);
    assert_eq!(list[0].have_mg, 40_000);
    assert_eq!(list[0].to_buy_mg, 60_000);
    assert!(list[0].in_inventory);
}

#[test]
fn shopping_list_sums_sorts_and_skips_completed() {
    let slots = vec![
        PlanSlotRecord { recipe_id: 10, is_completed: false },
        PlanSlotRecord { recipe_id: 11, is_completed: false },
        PlanSlotRecord { recipe_id: 12, is_completed: true },
    ];
    let lines = vec![
        RecipeLine { recipe_id: 10, ingredient_id: 1, quantity_mg: Some(100_000) },
        RecipeLine { recipe_id: 11, ingredient_id: 1, quantity_mg: Some(50_000) },
        RecipeLine { recipe_id: 11, ingredient_id: 3, quantity_mg: Some(20_000) },
        RecipeLine { recipe_id: 11, ingredient_id: 2, quantity_mg: None },
        RecipeLine { recipe_id: 12, ingredient_id: 2, quantity_mg: Some(500_000) },
    ];
    let list = get_shopping_list(&slots, &lines, &vec![], &names());
    let got: Vec<(String, u128, bool)> =
        list.iter().map(|e| (e.name.clone(), e.to_buy_mg, e.in_inventory)).collect();
    assert_eq!(got, vec![(s("butter"), 20_000, false), (s("flour"), 150_000, false)]);
    let done = vec![PlanSlotRecord { recipe_id: 10, is_completed: true }];
    assert!(get_shopping_list(&done, &lines, &vec![], &names()).is_empty());
    assert!(get_shopping_list(&vec![], &lines, &vec![], &names()).is_empty());
}

#[test]
fn week_starts_on_monday() {
    // 2026-10-19 is a Monday, day 20745 after 1970-01-01
    assert_eq!(week_start_day(20745), 20745);
    assert_eq!(week_start_day(20748), 20745);
    assert_eq!(week_start_day(20751), 20745);
    assert_eq!(week_start_day(20752), 20752);
    // 1970-01-01 was a Thursday
    assert_eq!(week_start_day(0), -3);
    assert_eq!(week_start_day(-4), -10);
}

#[test]
fn repeated_ingredient_lines_count_once() {
    let mut r = pasta();
    r.ingredients = vec![
        ingredient(1, "tomato", Some(200)),
        ingredient(1, "tomatoes", Some(50)),
        ingredient(2, "basil", Some(5)),
        ingredient(1, "tomato", Some(10)),
    ];
    let mut p = PreferenceVector::new();
    p.record_interaction(&r, PreferenceSignal::Rated(5));
    assert_eq!(p.ingredient_weights.get(&s("tomato")), Some(50));
    assert_eq!(p.ingredient_weights.get(&s("basil")), Some(50));
    assert_eq!(p.ingredient_weights.get(&s("tomatoes")), None);

    let mut q = PreferenceVector::new();
    q.difficulty_weights = WeightTable::new();
    q.ingredient_weights.set(&s("tomato"), 200);
    q.ingredient_weights.set(&s("basil"), -100);
    let mut plain = recipe(3, None, None);
    plain.ingredients = r.ingredients.clone();
    // mean over the ingredient set: (0.2 - 0.1) / 2
    assert_eq!(q.score(&plain), 50_000);
}
