//! Named preference weights: a small associative table from a name
//! (a cuisine, a difficulty, an ingredient) to a weight in thousandths.
use vstd::prelude::*;
use crate::fixed_point::{clamp, lemma_div_between, round_div, round_div_i128, WEIGHT_ONE};

verus! {

/// The learning rate of the incremental rule, in tenths (one tenth).
pub const LEARNING_RATE_TENTHS: i64 = 1;

/// One named weight.
#[derive(Debug, Clone)]
pub struct WeightEntry {
    pub key: String,
    /// Weight in thousandths.
    pub weight: i64,
}

/// A table of named weights; each name occurs at most once.
#[derive(Debug, Clone)]
pub struct WeightTable {
    pub entries: Vec<WeightEntry>,
}

/// The map that a sequence of entries describes (a later entry for a name
/// overrides an earlier one).
pub open spec fn entries_map(s: Seq<WeightEntry>) -> Map<Seq<char>, int>
    decreases s.len(),
{
    if s.len() == 0 {
        Map::empty()
    } else {
        entries_map(s.drop_last()).insert(s.last().key@, s.last().weight as int)
    }
}

/// No name occurs twice.
pub open spec fn keys_distinct(s: Seq<WeightEntry>) -> bool {
    forall|i: int, j: int| 0 <= i < j < s.len() ==> s[i].key@ != s[j].key@
}

/// Every weight lies in `[-1.0, 1.0]`.
pub open spec fn weights_bounded(s: Seq<WeightEntry>) -> bool {
    forall|i: int| 0 <= i < s.len() ==> -WEIGHT_ONE <= #[trigger] s[i].weight <= WEIGHT_ONE
}

/// Every value of the map lies in `[-1.0, 1.0]`.
pub open spec fn map_bounded(m: Map<Seq<char>, int>) -> bool {
    forall|k: Seq<char>| #[trigger] m.contains_key(k) ==> -1000 <= m[k] <= 1000
}

/// The weight stored under `k`, or 0 when there is none.
pub open spec fn weight_or_zero(m: Map<Seq<char>, int>, k: Seq<char>) -> int {
    if m.contains_key(k) {
        m[k]
    } else {
        0
    }
}

/// One step of the incremental rule toward the target `num / den`
/// (thousandths): `old + 0.1 * (target - old)`, clamped to `[-1, 1]` and
/// rounded to three decimals.
pub open spec fn step(old: int, num: int, den: int) -> int {
    clamp(round_div(9 * old * den + num, 10 * den), -1000, 1000)
}

/// The map after one step of the incremental rule on key `k`.
pub open spec fn learn_one(m: Map<Seq<char>, int>, k: Seq<char>, num: int, den: int) -> Map<
    Seq<char>,
    int,
> {
    m.insert(k, step(weight_or_zero(m, k), num, den))
}

/// The map after one step on each key of `ks`, in order.
pub open spec fn learn_all(m: Map<Seq<char>, int>, ks: Seq<Seq<char>>, num: int, den: int) -> Map<
    Seq<char>,
    int,
>
    decreases ks.len(),
{
    if ks.len() == 0 {
        m
    } else {
        learn_one(learn_all(m, ks.drop_last(), num, den), ks.last(), num, den)
    }
}

/// Bound on the numerator of a learning target.
pub open spec fn target_num_ok(num: int) -> bool {
    -0x1_0000_0000_0000_0000_0000_0000 <= num <= 0x1_0000_0000_0000_0000_0000_0000
}

/// Bound on the denominator of a learning target.
pub open spec fn target_den_ok(den: int) -> bool {
    1 <= den <= 0x1_0000_0000_0000_0000
}

proof fn lemma_entries_map(s: Seq<WeightEntry>)
    requires
        keys_distinct(s),
    ensures
        forall|i: int|
            0 <= i < s.len() ==> #[trigger] entries_map(s).contains_key(s[i].key@)
                && entries_map(s)[s[i].key@] == s[i].weight,
        forall|k: Seq<char>|
            #[trigger] entries_map(s).contains_key(k) ==> exists|i: int|
                0 <= i < s.len() && s[i].key@ == k,
    decreases s.len(),
{
    if s.len() > 0 {
        let t = s.drop_last();
        assert(keys_distinct(t));
        lemma_entries_map(t);
        assert forall|i: int| 0 <= i < s.len() implies #[trigger] entries_map(s).contains_key(
            s[i].key@,
        ) && entries_map(s)[s[i].key@] == s[i].weight by {
            assert(entries_map(s) == entries_map(t).insert(s.last().key@, s.last().weight as int));
            if i < s.len() - 1 {
                assert(t[i] == s[i]);
                assert(s[i].key@ != s[s.len() - 1].key@);
                assert(entries_map(t).contains_key(t[i].key@));
            }
        }
        assert forall|k: Seq<char>| #[trigger] entries_map(s).contains_key(k) implies exists|i: int|
            0 <= i < s.len() && s[i].key@ == k by {
            if k != s.last().key@ {
                assert(entries_map(t).contains_key(k));
                let i = choose|i: int| 0 <= i < t.len() && t[i].key@ == k;
                assert(s[i] == t[i]);
            } else {
                assert(s[s.len() - 1].key@ == k);
            }
        }
    }
}

/// One step of the rule keeps every weight in `[-1.0, 1.0]`, whatever the
/// old weight and whatever the target.
pub proof fn lemma_step_bounded(old: int, num: int, den: int)
    ensures
        -1000 <= step(old, num, den) <= 1000,
{
}

/// With a zero signal a weight decays toward 0: it keeps its sign and
/// never grows in magnitude, and it shrinks strictly while its magnitude
/// exceeds 0.005 (below that, rounding to three decimals holds it).
pub proof fn lemma_zero_signal_decays(old: int)
    requires
        -1000 <= old <= 1000,
    ensures
        old >= 0 ==> 0 <= step(old, 0, 1) <= old,
        old <= 0 ==> old <= step(old, 0, 1) <= 0,
        old > 5 ==> step(old, 0, 1) < old,
        old < -5 ==> step(old, 0, 1) > old,
{
    if old >= 0 {
        if old > 5 {
            lemma_div_between(18 * old + 10, 20, 0, old - 1);
        } else {
            lemma_div_between(18 * old + 10, 20, 0, old);
        }
    } else {
        if old < -5 {
            lemma_div_between(-18 * old + 10, 20, 0, -old - 1);
        } else {
            lemma_div_between(-18 * old + 10, 20, 0, -old);
        }
    }
}

/// Any number of steps keeps every weight of a bounded map bounded.
pub proof fn lemma_learn_all_bounded(
    m: Map<Seq<char>, int>,
    ks: Seq<Seq<char>>,
    num: int,
    den: int,
)
    requires
        map_bounded(m),
    ensures
        map_bounded(learn_all(m, ks, num, den)),
    decreases ks.len(),
{
    if ks.len() > 0 {
        lemma_learn_all_bounded(m, ks.drop_last(), num, den);
        let prev = learn_all(m, ks.drop_last(), num, den);
        lemma_step_bounded(weight_or_zero(prev, ks.last()), num, den);
    }
}

/// Under the full positive signal (1.0) a weight never falls and never
/// passes 1.0: repeated five-star ratings rise toward 1.0.
pub proof fn lemma_full_signal_rises(m: Map<Seq<char>, int>, k: Seq<char>)
    requires
        map_bounded(m),
    ensures
        weight_or_zero(m, k) <= learn_one(m, k, 1000, 1)[k] <= 1000,
{
    let w = weight_or_zero(m, k);
    assert(-1000 <= w <= 1000);
    if 9 * w + 1000 >= 0 {
        lemma_div_between(18 * w + 2010, 20, w, 1001);
    } else {
        lemma_div_between(-18 * w - 1990, 20, 0, -w);
    }
}

/// From 0, three steps under the full positive signal give exactly 0.1,
/// 0.19 and 0.271.
pub proof fn lemma_five_star_steps()
    ensures
        step(0, 1000, 1) == 100,
        step(100, 1000, 1) == 190,
        step(190, 1000, 1) == 271,
{
    assert((2 * 1000 + 10) / 20 == 100);
    assert((2 * 1900 + 10) / 20 == 190);
    assert((2 * 2710 + 10) / 20 == 271);
}

impl View for WeightTable {
    type V = Map<Seq<char>, int>;

    open spec fn view(&self) -> Map<Seq<char>, int> {
        entries_map(self.entries@)
    }
}

impl WeightTable {
    /// Names are distinct and weights lie in `[-1.0, 1.0]`.
    pub open spec fn wf(&self) -> bool {
        keys_distinct(self.entries@) && weights_bounded(self.entries@)
    }

    /// An empty table.
    pub fn new() -> (r: Self)
        ensures
            r.wf(),
            r@ == Map::<Seq<char>, int>::empty(),
    {
        WeightTable { entries: Vec::new() }
    }

    /// A table's values lie in `[-1.0, 1.0]`.
    pub proof fn lemma_bounded(&self)
        requires
            self.wf(),
        ensures
            map_bounded(self@),
    {
        lemma_entries_map(self.entries@);
        assert forall|k: Seq<char>| #[trigger] self@.contains_key(k) implies -1000 <= self@[k]
            <= 1000 by {
            let i = choose|i: int|
                0 <= i < self.entries@.len() && self.entries@[i].key@ == k;
            assert(self@[self.entries@[i].key@] == self.entries@[i].weight);
        }
    }

    fn find(&self, key: &String) -> (r: Option<usize>)
        requires
            self.wf(),
        ensures
            r.is_none() ==> !self@.contains_key(key@),
            r.is_some() ==> r.unwrap() < self.entries@.len() && self.entries@[r.unwrap() as int].key@
                == key@,
    {
        proof {
            lemma_entries_map(self.entries@);
        }
        let mut i: usize = 0;
        while i < self.entries.len()
            invariant
                i <= self.entries@.len(),
                forall|j: int| 0 <= j < i ==> self.entries@[j].key@ != key@,
            decreases self.entries@.len() - i,
        {
            if self.entries[i].key == *key {
                return Some(i);
            }
            i = i + 1;
        }
        None
    }

    /// The weight stored under `key`, if any.
    pub fn get(&self, key: &String) -> (r: Option<i64>)
        requires
            self.wf(),
        ensures
            r.is_some() == self@.contains_key(key@),
            r.is_some() ==> r.unwrap() == self@[key@],
    {
        proof {
            lemma_entries_map(self.entries@);
        }
        match self.find(key) {
            Some(i) => {
                assert(self@.contains_key(self.entries@[i as int].key@));
                Some(self.entries[i].weight)
            },
            None => None,
        }
    }

    /// Stores `weight` under `key`, replacing any earlier weight.
    pub fn set(&mut self, key: &String, weight: i64)
        requires
            old(self).wf(),
            -1000 <= weight <= 1000,
        ensures
            final(self).wf(),
            final(self)@ == old(self)@.insert(key@, weight as int),
    {
        proof {
            lemma_entries_map(self.entries@);
        }
        match self.find(key) {
            Some(i) => {
                let ghost before = self.entries@;
                let e = WeightEntry { key: key.clone(), weight };
                let ghost eg = e;
                self.entries[i] = e;
                let ghost after = self.entries@;
                assert(after == before.update(i as int, eg));
                assert(eg.key@ == key@);
                assert(keys_distinct(after)) by {
                    assert forall|a: int, b: int| 0 <= a < b < after.len() implies after[a].key@
                        != after[b].key@ by {
                        if a == i {
                            assert(before[a].key@ == key@);
                        }
                        if b == i {
                            assert(before[b].key@ == key@);
                        }
                    }
                }
                proof {
                    lemma_entries_map(before);
                    lemma_entries_map(after);
                    assert forall|k: Seq<char>| #[trigger] entries_map(after).contains_key(k)
                        == old(self)@.insert(key@, weight as int).contains_key(k) by {
                        if entries_map(after).contains_key(k) {
                            let j = choose|j: int| 0 <= j < after.len() && after[j].key@ == k;
                            if j != i {
                                assert(before[j] == after[j]);
                            }
                        }
                        if old(self)@.contains_key(k) && k != key@ {
                            let j = choose|j: int| 0 <= j < before.len() && before[j].key@ == k;
                            assert(before[j] == after[j]);
                        }
                        if k == key@ {
                            assert(after[i as int].key@ == k);
                        }
                    }
                    assert forall|k: Seq<char>| #[trigger] entries_map(after).contains_key(k)
                        implies entries_map(after)[k] == old(self)@.insert(
                        key@,
                        weight as int,
                    )[k] by {
                        let j = choose|j: int| 0 <= j < after.len() && after[j].key@ == k;
                        if j != i {
                            assert(before[j] == after[j]);
                        }
                    }
                    assert(entries_map(after) =~= old(self)@.insert(key@, weight as int));
                }
            },
            None => {
                let ghost before = self.entries@;
                self.entries.push(WeightEntry { key: key.clone(), weight });
                assert(self.entries@.drop_last() =~= before);
                assert(keys_distinct(self.entries@)) by {
                    lemma_entries_map(before);
                    assert forall|a: int, b: int|
                        0 <= a < b < self.entries@.len() implies self.entries@[a].key@
                        != self.entries@[b].key@ by {
                        if b == before.len() {
                            assert(entries_map(before).contains_key(before[a].key@));
                        } else {
                            assert(before[a] == self.entries@[a]);
                            assert(before[b] == self.entries@[b]);
                        }
                    }
                }
            },
        }
    }

    /// One step of the incremental rule on `key`, toward the target
    /// `num / den` (thousandths); a missing weight counts as 0.
    pub fn learn(&mut self, key: &String, num: i128, den: i128)
        requires
            old(self).wf(),
            target_num_ok(num as int),
            target_den_ok(den as int),
        ensures
            final(self).wf(),
            final(self)@ == learn_one(old(self)@, key@, num as int, den as int),
    {
        let o: i64 = match self.get(key) {
            Some(w) => w,
            None => 0,
        };
        proof {
            self.lemma_bounded();
        }
        let w = step_weight(o, num, den);
        self.set(key, w);
    }
}

/// One step of the incremental rule from `old` toward the target `num / den`
/// (thousandths).
pub fn step_weight(old: i64, num: i128, den: i128) -> (r: i64)
    requires
        -1000 <= old <= 1000,
        target_num_ok(num as int),
        target_den_ok(den as int),
    ensures
        r == step(old as int, num as int, den as int),
{
    assert(-1000 * 0x1_0000_0000_0000_0000 <= (old as int) * (den as int) <= 1000
        * 0x1_0000_0000_0000_0000) by (nonlinear_arith)
        requires
            -1000 <= old <= 1000,
            1 <= den <= 0x1_0000_0000_0000_0000,
    ;
    let p: i128 = (old as i128) * den;
    let a: i128 = 9 * p + num;
    assert(9 * (old as int) * (den as int) == 9 * ((old as int) * (den as int))) by (nonlinear_arith);
    let q: i128 = round_div_i128(a, 10 * den);
    if q < -1000 {
        -1000
    } else if q > 1000 {
        1000
    } else {
        q as i64
    }
}

} // verus!
