//! The shopping-list aggregator: what the incomplete slots of a plan need,
//! less what the inventory holds.
use vstd::prelude::*;
use crate::inventory::InventoryEntry;
use crate::text::{lemma_text_total, lemma_text_trans, text_before, text_less};

verus! {

/// A slot of the current plan, as the aggregator reads it.
#[derive(Debug, Clone, Copy, PartialEq, Eq)]
pub struct PlanSlotRecord {
    pub recipe_id: i64,
    pub is_completed: bool,
}

/// One ingredient line of a recipe.
#[derive(Debug, Clone, Copy, PartialEq, Eq)]
pub struct RecipeLine {
    pub recipe_id: i64,
    pub ingredient_id: i64,
    /// Quantity in milligrams as written in the recipe, when known.
    pub quantity_mg: Option<u64>,
}

/// The display name of an ingredient.
#[derive(Debug, Clone)]
pub struct IngredientName {
    pub ingredient_id: i64,
    pub name: String,
}

/// One ingredient to buy.
#[derive(Debug, Clone)]
pub struct ShoppingListEntry {
    pub ingredient_id: i64,
    pub name: String,
    pub needed_mg: u128,
    pub have_mg: u64,
    pub to_buy_mg: u128,
    pub in_inventory: bool,
}

/// Some incomplete slot holds the recipe.
pub open spec fn referenced(slots: Seq<PlanSlotRecord>, recipe_id: i64) -> bool {
    exists|i: int| 0 <= i < slots.len() && !(#[trigger] slots[i]).is_completed && slots[i].recipe_id == recipe_id
}

/// The line counts toward the list: its recipe is in an incomplete slot and
/// its quantity is known.
pub open spec fn counts(l: RecipeLine, slots: Seq<PlanSlotRecord>) -> bool {
    referenced(slots, l.recipe_id) && l.quantity_mg.is_some()
}

/// The total quantity of `id` that the counting lines ask for, in milligrams.
pub open spec fn needed_of(lines: Seq<RecipeLine>, slots: Seq<PlanSlotRecord>, id: i64) -> int
    decreases lines.len(),
{
    if lines.len() == 0 {
        0
    } else {
        let l = lines.last();
        needed_of(lines.drop_last(), slots, id) + if l.ingredient_id == id && counts(l, slots) {
            l.quantity_mg.unwrap() as int
        } else {
            0int
        }
    }
}

/// What the inventory holds of `id` (the last record for it), or 0.
pub open spec fn have_of(inventory: Seq<InventoryEntry>, id: i64) -> int
    decreases inventory.len(),
{
    if inventory.len() == 0 {
        0
    } else if inventory.last().ingredient_id == id {
        inventory.last().quantity_mg as int
    } else {
        have_of(inventory.drop_last(), id)
    }
}

/// The name of `id` (the last record for it), or the empty text.
pub open spec fn name_of(names: Seq<IngredientName>, id: i64) -> Seq<char>
    decreases names.len(),
{
    if names.len() == 0 {
        Seq::empty()
    } else if names.last().ingredient_id == id {
        names.last().name@
    } else {
        name_of(names.drop_last(), id)
    }
}

/// `a` is listed before `b`: by name, then by ingredient id.
pub open spec fn listed_before(a: ShoppingListEntry, b: ShoppingListEntry) -> bool {
    text_less(a.name@, b.name@) || (a.name@ == b.name@ && a.ingredient_id < b.ingredient_id)
}

/// The entry for `id`.
pub open spec fn entry_ok(
    e: ShoppingListEntry,
    lines: Seq<RecipeLine>,
    slots: Seq<PlanSlotRecord>,
    inventory: Seq<InventoryEntry>,
    names: Seq<IngredientName>,
) -> bool {
    let id = e.ingredient_id;
    &&& e.needed_mg == needed_of(lines, slots, id)
    &&& e.have_mg == have_of(inventory, id)
    &&& e.needed_mg > e.have_mg
    &&& e.to_buy_mg == e.needed_mg - e.have_mg
    &&& e.name@ == name_of(names, id)
    &&& e.in_inventory == (e.have_mg > 0)
}

proof fn lemma_needed_positive(lines: Seq<RecipeLine>, slots: Seq<PlanSlotRecord>, id: i64)
    ensures
        needed_of(lines, slots, id) >= 0,
        needed_of(lines, slots, id) <= lines.len() * 0xffff_ffff_ffff_ffff,
        needed_of(lines, slots, id) > 0 ==> exists|j: int|
            0 <= j < lines.len() && (#[trigger] lines[j]).ingredient_id == id && counts(
                lines[j],
                slots,
            ),
    decreases lines.len(),
{
    if lines.len() > 0 {
        let t = lines.drop_last();
        lemma_needed_positive(t, slots, id);
        if needed_of(t, slots, id) > 0 {
            let j = choose|j: int|
                0 <= j < t.len() && (#[trigger] t[j]).ingredient_id == id && counts(t[j], slots);
            assert(lines[j] == t[j]);
        } else if needed_of(lines, slots, id) > 0 {
            assert(lines[lines.len() - 1].ingredient_id == id);
        }
    }
}

/// An ingredient that the incomplete slots do not need is not listed:
/// with every slot completed, nothing is needed at all.
pub proof fn lemma_completed_plan_needs_nothing(
    lines: Seq<RecipeLine>,
    slots: Seq<PlanSlotRecord>,
    id: i64,
)
    requires
        forall|i: int| 0 <= i < slots.len() ==> (#[trigger] slots[i]).is_completed,
    ensures
        needed_of(lines, slots, id) == 0,
    decreases lines.len(),
{
    if lines.len() > 0 {
        lemma_completed_plan_needs_nothing(lines.drop_last(), slots, id);
        assert(!referenced(slots, lines.last().recipe_id));
    }
}

proof fn lemma_have_nonneg(inventory: Seq<InventoryEntry>, id: i64)
    ensures
        have_of(inventory, id) >= 0,
    decreases inventory.len(),
{
    if inventory.len() > 0 {
        lemma_have_nonneg(inventory.drop_last(), id);
    }
}

fn is_referenced(slots: &Vec<PlanSlotRecord>, recipe_id: i64) -> (r: bool)
    ensures
        r == referenced(slots@, recipe_id),
{
    let mut i: usize = 0;
    while i < slots.len()
        invariant
            i <= slots@.len(),
            forall|j: int| 0 <= j < i ==> !(slots@[j].recipe_id == recipe_id && !slots@[j].is_completed),
        decreases slots@.len() - i,
    {
        if !slots[i].is_completed && slots[i].recipe_id == recipe_id {
            return true;
        }
        i = i + 1;
    }
    false
}

fn line_counts(l: &RecipeLine, slots: &Vec<PlanSlotRecord>) -> (r: bool)
    ensures
        r == counts(*l, slots@),
{
    l.quantity_mg.is_some() && is_referenced(slots, l.recipe_id)
}

fn needed_total(lines: &Vec<RecipeLine>, slots: &Vec<PlanSlotRecord>, id: i64) -> (r: u128)
    ensures
        r == needed_of(lines@, slots@, id),
{
    let mut sum: u128 = 0;
    let mut i: usize = 0;
    while i < lines.len()
        invariant
            i <= lines@.len(),
            sum == needed_of(lines@.take(i as int), slots@, id),
            sum <= i * 0xffff_ffff_ffff_ffff,
        decreases lines@.len() - i,
    {
        assert(lines@.take(i + 1).drop_last() =~= lines@.take(i as int));
        assert(lines@.take(i + 1).last() == lines@[i as int]);
        let l = &lines[i];
        if l.ingredient_id == id && line_counts(l, slots) {
            match l.quantity_mg {
                Some(q) => {
                    sum = sum + q as u128;
                },
                None => {},
            }
        }
        i = i + 1;
    }
    assert(lines@.take(lines@.len() as int) =~= lines@);
    sum
}

fn have_total(inventory: &Vec<InventoryEntry>, id: i64) -> (r: u64)
    ensures
        r == have_of(inventory@, id),
{
    let mut i: usize = inventory.len();
    assert(inventory@.take(inventory@.len() as int) =~= inventory@);
    while i > 0
        invariant
            i <= inventory@.len(),
            have_of(inventory@, id) == have_of(inventory@.take(i as int), id),
        decreases i,
    {
        assert(inventory@.take(i as int).drop_last() =~= inventory@.take(i - 1));
        assert(inventory@.take(i as int).last() == inventory@[i - 1]);
        if inventory[i - 1].ingredient_id == id {
            return inventory[i - 1].quantity_mg;
        }
        i = i - 1;
    }
    0
}

fn name_lookup(names: &Vec<IngredientName>, id: i64) -> (r: String)
    ensures
        r@ == name_of(names@, id),
{
    let mut i: usize = names.len();
    assert(names@.take(names@.len() as int) =~= names@);
    while i > 0
        invariant
            i <= names@.len(),
            name_of(names@, id) == name_of(names@.take(i as int), id),
        decreases i,
    {
        assert(names@.take(i as int).drop_last() =~= names@.take(i - 1));
        assert(names@.take(i as int).last() == names@[i - 1]);
        if names[i - 1].ingredient_id == id {
            return names[i - 1].name.clone();
        }
        i = i - 1;
    }
    String::new()
}

proof fn lemma_listed_total(a: ShoppingListEntry, b: ShoppingListEntry)
    requires
        a.ingredient_id != b.ingredient_id,
    ensures
        listed_before(a, b) || listed_before(b, a),
{
    lemma_text_total(a.name@, b.name@);
}

proof fn lemma_listed_trans(a: ShoppingListEntry, b: ShoppingListEntry, c: ShoppingListEntry)
    requires
        listed_before(a, b),
        listed_before(b, c),
    ensures
        listed_before(a, c),
{
    if text_less(a.name@, b.name@) && text_less(b.name@, c.name@) {
        lemma_text_trans(a.name@, b.name@, c.name@);
    }
}

fn entry_before(a: &ShoppingListEntry, b: &ShoppingListEntry) -> (r: bool)
    ensures
        r == listed_before(*a, *b),
{
    text_before(a.name.as_str(), b.name.as_str()) || (a.name == b.name && a.ingredient_id
        < b.ingredient_id)
}

/// The shopping list: for each ingredient that the incomplete slots need
/// more of than the inventory holds, one entry with the shortfall; sorted
/// by name, then by ingredient id. A quantity line counts once however many
/// incomplete slots hold its recipe.
pub fn get_shopping_list(
    slots: &Vec<PlanSlotRecord>,
    lines: &Vec<RecipeLine>,
    inventory: &Vec<InventoryEntry>,
    names: &Vec<IngredientName>,
) -> (r: Vec<ShoppingListEntry>)
    ensures
        forall|k: int| 0 <= k < r@.len() ==> entry_ok(#[trigger] r@[k], lines@, slots@, inventory@, names@),
        forall|k: int| 0 <= k < r@.len() ==> (#[trigger] r@[k]).to_buy_mg > 0,
        forall|id: i64|
            needed_of(lines@, slots@, id) > have_of(inventory@, id) ==> exists|k: int|
                0 <= k < r@.len() && (#[trigger] r@[k]).ingredient_id == id,
        forall|a: int, b: int| 0 <= a < b < r@.len() ==> listed_before(r@[a], r@[b]),
        (forall|i: int| 0 <= i < slots@.len() ==> (#[trigger] slots@[i]).is_completed) ==> r@.len()
            == 0,
{
    let mut out: Vec<ShoppingListEntry> = Vec::new();
    let mut seen: Vec<i64> = Vec::new();
    let mut i: usize = 0;
    while i < lines.len()
        invariant
            i <= lines@.len(),
            forall|j: int|
                0 <= j < i && counts(#[trigger] lines@[j], slots@) ==> seen@.contains(
                    lines@[j].ingredient_id,
                ),
            forall|k: int|
                0 <= k < out@.len() ==> entry_ok(#[trigger] out@[k], lines@, slots@, inventory@, names@)
                    && seen@.contains(out@[k].ingredient_id),
            forall|id: i64|
                seen@.contains(id) && needed_of(lines@, slots@, id) > have_of(inventory@, id)
                    ==> exists|k: int| 0 <= k < out@.len() && (#[trigger] out@[k]).ingredient_id == id,
            forall|a: int, b: int| 0 <= a < b < out@.len() ==> listed_before(out@[a], out@[b]),
        decreases lines@.len() - i,
    {
        let l = &lines[i];
        let id = l.ingredient_id;
        let ghost seen0 = seen@;
        if line_counts(l, slots) && !crate::scoring::contains_id(&seen, id) {
            let needed = needed_total(lines, slots, id);
            let have = have_total(inventory, id);
            if needed > have as u128 {
                let entry = ShoppingListEntry {
                    ingredient_id: id,
                    name: name_lookup(names, id),
                    needed_mg: needed,
                    have_mg: have,
                    to_buy_mg: needed - have as u128,
                    in_inventory: have > 0,
                };
                let mut j: usize = 0;
                while j < out.len() && entry_before(&out[j], &entry)
                    invariant
                        j <= out@.len(),
                        forall|k: int| 0 <= k < j ==> listed_before(#[trigger] out@[k], entry),
                    decreases out@.len() - j,
                {
                    j = j + 1;
                }
                let ghost before = out@;
                let ghost e = entry;
                if j < out.len() {
                    assert(before[j as int].ingredient_id != id);
                    proof {
                        lemma_listed_total(before[j as int], e);
                    }
                }
                out.insert(j, entry);
                assert(out@ == before.insert(j as int, e));
                assert forall|a: int, b: int| 0 <= a < b < out@.len() implies listed_before(
                    out@[a],
                    out@[b],
                ) by {
                    if b < j {
                        assert(listed_before(before[a], before[b]));
                    } else if b == j {
                    } else if a == j {
                        if b - 1 > j {
                            assert(listed_before(before[j as int], before[b - 1]));
                            lemma_listed_trans(e, before[j as int], before[b - 1]);
                        }
                    } else if a < j {
                        assert(listed_before(before[a], before[b - 1]));
                    } else {
                        assert(listed_before(before[a - 1], before[b - 1]));
                    }
                }
                seen.push(id);
                assert forall|k: int| 0 <= k < out@.len() implies entry_ok(
                    #[trigger] out@[k],
                    lines@,
                    slots@,
                    inventory@,
                    names@,
                ) && seen@.contains(out@[k].ingredient_id) by {
                    if k < j {
                        assert(out@[k] == before[k]);
                    } else if k > j {
                        assert(out@[k] == before[k - 1]);
                    } else {
                        assert(seen@[seen@.len() - 1] == id);
                    }
                    if k != j {
                        let x = out@[k].ingredient_id;
                        let t = choose|t: int| 0 <= t < seen0.len() && seen0[t] == x;
                        assert(seen@[t] == x);
                    }
                }
                assert forall|x: i64|
                    seen@.contains(x) && needed_of(lines@, slots@, x) > have_of(inventory@, x)
                        implies exists|k: int| 0 <= k < out@.len() && (#[trigger] out@[k]).ingredient_id
                        == x by {
                    if x == id {
                        assert(out@[j as int].ingredient_id == x);
                    } else {
                        let t = choose|t: int| 0 <= t < seen@.len() && seen@[t] == x;
                        assert(t < seen@.len() - 1);
                        assert(seen0[t] == x);
                        assert(seen0.contains(x));
                        let k = choose|k: int| 0 <= k < before.len() && (#[trigger] before[k]).ingredient_id == x;
                        if k < j {
                            assert(out@[k] == before[k]);
                        } else {
                            assert(out@[k + 1] == before[k]);
                        }
                    }
                }
            } else {
                seen.push(id);
                assert forall|x: i64|
                    seen@.contains(x) && needed_of(lines@, slots@, x) > have_of(inventory@, x)
                        implies exists|k: int| 0 <= k < out@.len() && (#[trigger] out@[k]).ingredient_id
                        == x by {
                    let t = choose|t: int| 0 <= t < seen@.len() && seen@[t] == x;
                    if x != id {
                        assert(seen0[t] == x);
                        assert(seen0.contains(x));
                    }
                }
                assert forall|k: int| 0 <= k < out@.len() implies seen@.contains(
                    #[trigger] out@[k].ingredient_id,
                ) by {
                    let x = out@[k].ingredient_id;
                    let t = choose|t: int| 0 <= t < seen0.len() && seen0[t] == x;
                    assert(seen@[t] == x);
                }
            }
            assert(seen@[seen@.len() - 1] == id);
        }
        assert forall|j: int|
            0 <= j < i + 1 && counts(#[trigger] lines@[j], slots@) implies seen@.contains(
                lines@[j].ingredient_id,
            ) by {
            if j < i {
                let x = lines@[j].ingredient_id;
                let t = choose|t: int| 0 <= t < seen0.len() && seen0[t] == x;
                assert(seen@[t] == x);
            }
        }
        i = i + 1;
    }
    proof {
        assert forall|x: i64| needed_of(lines@, slots@, x) > have_of(inventory@, x) implies exists|k: int|
            0 <= k < out@.len() && (#[trigger] out@[k]).ingredient_id == x by {
            lemma_needed_positive(lines@, slots@, x);
            lemma_have_nonneg(inventory@, x);
            let j = choose|j: int|
                0 <= j < lines@.len() && (#[trigger] lines@[j]).ingredient_id == x && counts(
                    lines@[j],
                    slots@,
                );
            assert(seen@.contains(x));
        }
        if forall|i: int| 0 <= i < slots@.len() ==> (#[trigger] slots@[i]).is_completed {
            if out@.len() > 0 {
                lemma_completed_plan_needs_nothing(lines@, slots@, out@[0].ingredient_id);
            }
        }
    }
    out
}

} // verus!
