//! The ledger engine: the category graph with its validity rules, the
//! balance store, and the deposit / spend operations that compute every
//! mutation as a commit plan before anything is applied.

use vstd::prelude::*;
use vstd::arithmetic::div_mod::{
    lemma_div_is_ordered, lemma_div_multiples_vanish_fancy, lemma_div_pos_is_pos,
};
use vstd::arithmetic::mul::{lemma_mul_nonnegative, lemma_mul_upper_bound};
use crate::models::{Category, CategoryBalance, CategoryName, Fund, LedgerError, Transaction};
use crate::money::{storable, Money, MONEY_MAX};

verus! {

/// Most categories a configuration may hold. The closed set of names has
/// five members; the cap only has to keep sums of balances inside `i64`.
pub const CATEGORY_CAP: usize = 64;

/// The spendable remainder of a balance.
pub open spec fn remaining_of(b: CategoryBalance) -> int {
    b.available@ - b.spent@
}

/// The ranges every stored balance row keeps: all three totals
/// representable, and never more spent than is available.
pub open spec fn balance_ok(b: CategoryBalance) -> bool {
    &&& storable(b.available@)
    &&& storable(b.allocated@)
    &&& storable(b.spent@)
    &&& b.spent@ <= b.available@
}

/// Whether some category of `cats` carries `id`.
pub open spec fn has_id(cats: Seq<Category>, id: i64) -> bool {
    exists|i: int| 0 <= i < cats.len() && cats[i].id == id
}

/// The index of the category that carries `id`; meaningful when ids are
/// distinct and `has_id` holds.
pub open spec fn idx_of_id(cats: Seq<Category>, id: i64) -> int {
    choose|i: int| 0 <= i < cats.len() && cats[i].id == id
}

/// No two categories share an id.
pub open spec fn ids_distinct(cats: Seq<Category>) -> bool {
    forall|i: int, j: int|
        0 <= i < cats.len() && 0 <= j < cats.len() && i != j ==> cats[i].id != cats[j].id
}

/// When ids are distinct, a concrete index with a matching id is the index
/// `idx_of_id` denotes.
pub proof fn lemma_idx_of_id(cats: Seq<Category>, id: i64, i: int)
    requires
        ids_distinct(cats),
        0 <= i < cats.len(),
        cats[i].id == id,
    ensures
        has_id(cats, id),
        idx_of_id(cats, id) == i,
{
    assert(has_id(cats, id));
    let j = idx_of_id(cats, id);
    assert(0 <= j < cats.len() && cats[j].id == id);
}

/// Whether index `i` is a sink: a category with no overflow successor.
pub open spec fn sink_at(cats: Seq<Category>, i: int) -> bool {
    0 <= i < cats.len() && cats[i].overflow_to_id is None
}

/// Exactly one category has no overflow successor.
pub open spec fn unique_sink(cats: Seq<Category>) -> bool {
    &&& exists|i: int| sink_at(cats, i)
    &&& forall|i: int, j: int| sink_at(cats, i) && sink_at(cats, j) ==> i == j
}

/// The index of the sink; meaningful when `unique_sink` holds.
pub open spec fn sink_idx(cats: Seq<Category>) -> int {
    choose|i: int| sink_at(cats, i)
}

/// Following overflow successors from index `i` reaches a sink within
/// `fuel` hops, every link on the way naming an existing category.
pub open spec fn chain_terminates(cats: Seq<Category>, i: int, fuel: nat) -> bool
    decreases fuel,
{
    &&& 0 <= i < cats.len()
    &&& match cats[i].overflow_to_id {
        None => true,
        Some(id) => {
            &&& fuel > 0
            &&& has_id(cats, id)
            &&& chain_terminates(cats, idx_of_id(cats, id), (fuel - 1) as nat)
        },
    }
}

/// Every percentage lies between 0 and 100.
pub open spec fn pcts_in_range(cats: Seq<Category>) -> bool {
    forall|i: int| 0 <= i < cats.len() ==> 0 <= (#[trigger] cats[i]).limit_percentage@ <= 100
}

/// A category configuration the engine accepts: a bounded number of
/// categories with distinct ids, percentages in range, every overflow chain
/// terminating, and exactly one sink.
pub open spec fn valid_config(cats: Seq<Category>) -> bool {
    &&& cats.len() <= CATEGORY_CAP
    &&& ids_distinct(cats)
    &&& pcts_in_range(cats)
    &&& forall|i: int| 0 <= i < cats.len() ==> chain_terminates(cats, i, cats.len() as nat)
    &&& unique_sink(cats)
}

/// Whether balance row `b` is the row of category `c` and keeps its ranges.
pub open spec fn matches_cat(c: Category, b: CategoryBalance) -> bool {
    &&& b.category_id == c.id
    &&& b.category_name == c.name
    &&& balance_ok(b)
}

/// Whether `out[i]` is a row of `bals` that belongs to category `cats[i]`.
pub open spec fn aligned_entry_ok(
    cats: Seq<Category>,
    bals: Seq<CategoryBalance>,
    out: Seq<CategoryBalance>,
    i: int,
) -> bool {
    exists|j: int|
        0 <= j < bals.len() && matches_cat(cats[i], #[trigger] bals[j]) && out[i] == bals[j]
}

/// Whether `bals` holds one well-ranged row for every category of `cats`.
pub open spec fn alignable(cats: Seq<Category>, bals: Seq<CategoryBalance>) -> bool {
    &&& bals.len() == cats.len()
    &&& forall|i: int|
        0 <= i < cats.len() ==> exists|j: int|
            0 <= j < bals.len() && matches_cat(#[trigger] cats[i], #[trigger] bals[j])
}

/// The sum of percentages over `cats[..n]`.
pub open spec fn pct_sum_upto(cats: Seq<Category>, n: int) -> int
    decreases n,
{
    if n <= 0 {
        0
    } else {
        pct_sum_upto(cats, n - 1) + cats[n - 1].limit_percentage@
    }
}

/// The sum of all percentages.
pub open spec fn pct_sum(cats: Seq<Category>) -> int {
    pct_sum_upto(cats, cats.len() as int)
}

/// The share of `amount` that a percentage allots, rounded half-up at
/// scale 0.
pub open spec fn portion_of(amount: int, pct: int) -> int {
    (amount * pct + 50) / 100
}

/// The total positive spendable remainder over the non-sink categories of
/// `cats[..n]`: what a deposit sweeps into the sink.
pub open spec fn rollover_upto(cats: Seq<Category>, bals: Seq<CategoryBalance>, n: int) -> int
    decreases n,
{
    if n <= 0 {
        0
    } else {
        rollover_upto(cats, bals, n - 1) + if cats[n - 1].overflow_to_id is Some && remaining_of(
            bals[n - 1],
        ) > 0 {
            remaining_of(bals[n - 1])
        } else {
            0
        }
    }
}

/// The rollover over all categories.
pub open spec fn rollover_total(cats: Seq<Category>, bals: Seq<CategoryBalance>) -> int {
    rollover_upto(cats, bals, cats.len() as int)
}

/// The sum of the rounded portions of the non-sink categories of
/// `cats[..n]`.
pub open spec fn nonsink_portions_upto(cats: Seq<Category>, amount: int, n: int) -> int
    decreases n,
{
    if n <= 0 {
        0
    } else {
        nonsink_portions_upto(cats, amount, n - 1) + if cats[n - 1].overflow_to_id is Some {
            portion_of(amount, cats[n - 1].limit_percentage@)
        } else {
            0
        }
    }
}

/// The sum of the rounded portions of all non-sink categories.
pub open spec fn nonsink_portions(cats: Seq<Category>, amount: int) -> int {
    nonsink_portions_upto(cats, amount, cats.len() as int)
}

/// The sink's new `allocated` on a deposit: the deposit minus every
/// non-sink portion — so that allocation is conserved exactly, the sink
/// absorbing the rounding remainder — plus the rollover.
pub open spec fn sink_alloc_of(cats: Seq<Category>, bals: Seq<CategoryBalance>, amount: int) -> int {
    amount - nonsink_portions(cats, amount) + rollover_total(cats, bals)
}

/// The sink's new `available` on a deposit: its own unspent carry-forward
/// plus its new allocation.
pub open spec fn sink_avail_of(cats: Seq<Category>, bals: Seq<CategoryBalance>, amount: int) -> int {
    remaining_of(bals[sink_idx(cats)]) + sink_alloc_of(cats, bals, amount)
}

/// Whether a deposit of `amount` stays within the representable range: the
/// sink's new allocation is not negative and its new balance fits.
pub open spec fn deposit_fits(cats: Seq<Category>, bals: Seq<CategoryBalance>, amount: int) -> bool {
    &&& sink_alloc_of(cats, bals, amount) >= 0
    &&& sink_avail_of(cats, bals, amount) <= MONEY_MAX
}

/// Balance row `i` after a deposit of `amount`: non-sink categories start
/// the period fresh with their portion, the sink keeps its remainder and
/// absorbs the rollover; everyone's `spent` resets to zero.
pub open spec fn deposit_row(
    cats: Seq<Category>,
    bals: Seq<CategoryBalance>,
    amount: int,
    now: i64,
    i: int,
) -> CategoryBalance {
    if i == sink_idx(cats) {
        CategoryBalance {
            category_id: cats[i].id,
            category_name: cats[i].name,
            available: Money { minor: sink_avail_of(cats, bals, amount) as i64 },
            allocated: Money { minor: sink_alloc_of(cats, bals, amount) as i64 },
            spent: Money { minor: 0 },
            last_updated: now,
        }
    } else {
        CategoryBalance {
            category_id: cats[i].id,
            category_name: cats[i].name,
            available: Money { minor: portion_of(amount, cats[i].limit_percentage@) as i64 },
            allocated: Money { minor: portion_of(amount, cats[i].limit_percentage@) as i64 },
            spent: Money { minor: 0 },
            last_updated: now,
        }
    }
}

/// Category `c` with its percentage replaced.
pub open spec fn pct_set(c: Category, p: Money) -> Category {
    Category { limit_percentage: p, ..c }
}

/// The zeroed balance row of a freshly created category.
pub open spec fn zero_balance(c: Category, now: i64) -> CategoryBalance {
    CategoryBalance {
        category_id: c.id,
        category_name: c.name,
        available: Money { minor: 0 },
        allocated: Money { minor: 0 },
        spent: Money { minor: 0 },
        last_updated: now,
    }
}

/// Ids and successor links alone decide `chain_terminates`: a change that
/// only touches percentages cannot break a chain.
proof fn lemma_chain_same_links(cats1: Seq<Category>, cats2: Seq<Category>, i: int, fuel: nat)
    requires
        cats1.len() == cats2.len(),
        ids_distinct(cats1),
        forall|j: int|
            0 <= j < cats1.len() ==> (#[trigger] cats2[j]).id == cats1[j].id
                && cats2[j].overflow_to_id == cats1[j].overflow_to_id,
        chain_terminates(cats1, i, fuel),
    ensures
        chain_terminates(cats2, i, fuel),
    decreases fuel,
{
    match cats1[i].overflow_to_id {
        None => {},
        Some(id) => {
            let k = idx_of_id(cats1, id);
            assert(0 <= k < cats1.len() && cats1[k].id == id);
            assert(cats2[k].id == id);
            assert(ids_distinct(cats2)) by {
                assert forall|p: int, q: int|
                    0 <= p < cats2.len() && 0 <= q < cats2.len() && p != q implies cats2[p].id
                    != cats2[q].id by {
                    assert(cats2[p].id == cats1[p].id);
                    assert(cats2[q].id == cats1[q].id);
                }
            }
            lemma_idx_of_id(cats2, id, k);
            lemma_chain_same_links(cats1, cats2, k, (fuel - 1) as nat);
        },
    }
}

/// Balance row `b` with a deduction of `d` marked against it.
pub open spec fn spend_mark(b: CategoryBalance, d: int) -> CategoryBalance {
    CategoryBalance { spent: Money { minor: (b.spent@ + d) as i64 }, ..b }
}

/// The balance rows after debiting `need` starting at category `i`,
/// cascading along overflow successors: a category covers what its
/// remainder allows and hands the rest to its successor; a category with
/// nothing left is passed over without a mark. `None` when the chain ends
/// with unmet need — the debit is refused as a whole.
pub open spec fn cascade_bals(
    cats: Seq<Category>,
    bals: Seq<CategoryBalance>,
    i: int,
    need: int,
    fuel: nat,
) -> Option<Seq<CategoryBalance>>
    decreases fuel,
{
    if !(0 <= i < cats.len() && bals.len() == cats.len()) {
        None
    } else {
        let rem = remaining_of(bals[i]);
        if rem >= need {
            Some(bals.update(i, spend_mark(bals[i], need)))
        } else {
            let bals2 = if rem > 0 {
                bals.update(i, spend_mark(bals[i], rem))
            } else {
                bals
            };
            let need2 = if rem > 0 {
                need - rem
            } else {
                need
            };
            match cats[i].overflow_to_id {
                None => None,
                Some(id) => if fuel == 0 || !has_id(cats, id) {
                    None
                } else {
                    cascade_bals(cats, bals2, idx_of_id(cats, id), need2, (fuel - 1) as nat)
                },
            }
        }
    }
}

/// The sum of `spent` over `bals[..n]`.
pub open spec fn spent_sum_upto(bals: Seq<CategoryBalance>, n: int) -> int
    decreases n,
{
    if n <= 0 {
        0
    } else {
        spent_sum_upto(bals, n - 1) + bals[n - 1].spent@
    }
}

/// The sum of `spent` over all balance rows.
pub open spec fn spent_sum(bals: Seq<CategoryBalance>) -> int {
    spent_sum_upto(bals, bals.len() as int)
}

/// `spent_sum_upto` reads only the first `n` rows.
proof fn lemma_spent_sum_prefix(s1: Seq<CategoryBalance>, s2: Seq<CategoryBalance>, n: int)
    requires
        n <= s1.len(),
        n <= s2.len(),
        forall|i: int| 0 <= i < n ==> s1[i] == s2[i],
    ensures
        spent_sum_upto(s1, n) == spent_sum_upto(s2, n),
    decreases n,
{
    if n > 0 {
        lemma_spent_sum_prefix(s1, s2, n - 1);
    }
}

/// Replacing one row moves the total spent by that row's difference.
proof fn lemma_spent_sum_update(bals: Seq<CategoryBalance>, i: int, b2: CategoryBalance, n: int)
    requires
        0 <= i < n <= bals.len(),
    ensures
        spent_sum_upto(bals.update(i, b2), n) == spent_sum_upto(bals, n) - bals[i].spent@
            + b2.spent@,
    decreases n,
{
    let u = bals.update(i, b2);
    if n - 1 == i {
        lemma_spent_sum_prefix(bals, u, n - 1);
    } else {
        lemma_spent_sum_update(bals, i, b2, n - 1);
    }
}

/// A successful cascade debits exactly the requested amount in total: the
/// sum of `spent` over all rows grows by the amount, however many
/// categories the chain touched.
pub proof fn lemma_cascade_deducts_exactly(
    cats: Seq<Category>,
    bals: Seq<CategoryBalance>,
    i: int,
    need: int,
    fuel: nat,
    out: Seq<CategoryBalance>,
)
    requires
        bals.len() == cats.len(),
        forall|j: int| 0 <= j < bals.len() ==> balance_ok(#[trigger] bals[j]),
        0 < need,
        cascade_bals(cats, bals, i, need, fuel) == Some(out),
    ensures
        out.len() == bals.len(),
        spent_sum(out) == spent_sum(bals) + need,
    decreases fuel,
{
    let rem = remaining_of(bals[i]);
    if rem >= need {
        let b2 = spend_mark(bals[i], need);
        assert(b2.spent@ == bals[i].spent@ + need);
        lemma_spent_sum_update(bals, i, b2, bals.len() as int);
        assert(spent_sum_upto(out, out.len() as int) == spent_sum_upto(
            bals.update(i, b2),
            bals.len() as int,
        ));
    } else {
        let need2 = if rem > 0 {
            need - rem
        } else {
            need
        };
        match cats[i].overflow_to_id {
            None => {
                assert(false);
            },
            Some(id) => {
                if rem > 0 {
                    let b2 = spend_mark(bals[i], rem);
                    let bals2 = bals.update(i, b2);
                    assert(b2.spent@ == bals[i].spent@ + rem);
                    assert(balance_ok(b2));
                    assert forall|j: int|
                        0 <= j < bals2.len() implies balance_ok(#[trigger] bals2[j]) by {
                        if j != i {
                            assert(bals2[j] == bals[j]);
                        }
                    }
                    lemma_spent_sum_update(bals, i, b2, bals.len() as int);
                    lemma_cascade_deducts_exactly(
                        cats,
                        bals2,
                        idx_of_id(cats, id),
                        need2,
                        (fuel - 1) as nat,
                        out,
                    );
                } else {
                    lemma_cascade_deducts_exactly(
                        cats,
                        bals,
                        idx_of_id(cats, id),
                        need2,
                        (fuel - 1) as nat,
                        out,
                    );
                }
            },
        }
    }
}

/// The sum of `allocated` over `bals[..n]`.
pub open spec fn alloc_sum_upto(bals: Seq<CategoryBalance>, n: int) -> int
    decreases n,
{
    if n <= 0 {
        0
    } else {
        alloc_sum_upto(bals, n - 1) + bals[n - 1].allocated@
    }
}

/// The sum of `allocated` over all balance rows.
pub open spec fn alloc_sum(bals: Seq<CategoryBalance>) -> int {
    alloc_sum_upto(bals, bals.len() as int)
}

/// `alloc_sum_upto` reads only the first `n` rows.
proof fn lemma_alloc_sum_prefix(s1: Seq<CategoryBalance>, s2: Seq<CategoryBalance>, n: int)
    requires
        n <= s1.len(),
        n <= s2.len(),
        forall|i: int| 0 <= i < n ==> s1[i] == s2[i],
    ensures
        alloc_sum_upto(s1, n) == alloc_sum_upto(s2, n),
    decreases n,
{
    if n > 0 {
        lemma_alloc_sum_prefix(s1, s2, n - 1);
    }
}

/// The plan a ledger operation hands to the persistence gateway: the new
/// balance rows, and at most one new fund or transaction record, all to be
/// committed as a single atomic unit.
#[derive(Clone, Debug, PartialEq, Eq)]
pub struct CommitPlan {
    pub balances: Vec<CategoryBalance>,
    pub fund: Option<Fund>,
    pub transaction: Option<Transaction>,
}

fn portion_exec(amount: i64, pct: i64) -> (r: i64)
    requires
        0 < amount <= MONEY_MAX,
        0 <= pct <= 100,
    ensures
        r == portion_of(amount as int, pct as int),
        0 <= r <= amount,
{
    proof {
        lemma_mul_nonnegative(amount as int, pct as int);
        lemma_mul_upper_bound(amount as int, MONEY_MAX as int, pct as int, 100);
        lemma_mul_upper_bound(pct as int, 100, amount as int, amount as int);
        lemma_div_pos_is_pos(amount * pct + 50, 100);
        lemma_div_is_ordered(amount * pct + 50, 100 * (amount as int) + 50, 100);
        lemma_div_multiples_vanish_fancy(amount as int, 50, 100);
    }
    (amount * pct + 50) / 100
}

fn copy_balances(v: &Vec<CategoryBalance>) -> (r: Vec<CategoryBalance>)
    ensures
        r@ == v@,
{
    let n: usize = v.len();
    let mut out: Vec<CategoryBalance> = Vec::new();
    let mut i: usize = 0;
    while i < n
        invariant
            n == v@.len(),
            i <= n,
            out@.len() == i,
            forall|j: int| 0 <= j < i ==> out@[j] == v@[j],
        decreases n - i,
    {
        out.push(v[i]);
        i = i + 1;
    }
    proof {
        assert(out@ =~= v@);
    }
    out
}

/// The envelope-budgeting ledger: the category configuration and the
/// per-category balance store, kept well formed by construction.
#[derive(Clone, Debug)]
pub struct Ledger {
    categories: Vec<Category>,
    balances: Vec<CategoryBalance>,
}

impl Ledger {
    /// The category configuration, as a mathematical sequence.
    pub closed spec fn cats(self) -> Seq<Category> {
        self.categories@
    }

    /// The balance store, as a mathematical sequence, aligned with `cats`:
    /// row `i` belongs to category `i`.
    pub closed spec fn bals(self) -> Seq<CategoryBalance> {
        self.balances@
    }

    /// The ledger's invariant: a valid configuration, and one well-ranged
    /// balance row per category, in the same order.
    pub open spec fn wf(self) -> bool {
        &&& valid_config(self.cats())
        &&& self.bals().len() == self.cats().len()
        &&& forall|i: int|
            0 <= i < self.cats().len() ==> matches_cat(self.cats()[i], #[trigger] self.bals()[i])
    }
}

fn find_index(cats: &Vec<Category>, id: i64) -> (r: Option<usize>)
    ensures
        (match r {
            Some(i) => i < cats@.len() && cats@[i as int].id == id,
            None => !has_id(cats@, id),
        }),
{
    let n: usize = cats.len();
    let mut i: usize = 0;
    while i < n
        invariant
            n == cats@.len(),
            i <= n,
            forall|j: int| 0 <= j < i ==> cats@[j].id != id,
        decreases n - i,
    {
        if cats[i].id == id {
            return Some(i);
        }
        i = i + 1;
    }
    None
}

fn find_sink(cats: &Vec<Category>) -> (r: usize)
    requires
        unique_sink(cats@),
    ensures
        sink_at(cats@, r as int),
        r as int == sink_idx(cats@),
{
    let n: usize = cats.len();
    let mut i: usize = 0;
    while i < n
        invariant
            n == cats@.len(),
            i <= n,
            unique_sink(cats@),
            forall|j: int| 0 <= j < i ==> !sink_at(cats@, j),
        decreases n - i,
    {
        if cats[i].overflow_to_id.is_none() {
            proof {
                assert(sink_at(cats@, i as int));
                let s = sink_idx(cats@);
                assert(sink_at(cats@, s));
                assert(s == i as int);
            }
            return i;
        }
        i = i + 1;
    }
    proof {
        let s = choose|j: int| sink_at(cats@, j);
        assert(sink_at(cats@, s));
        assert(false);
    }
    0
}

fn check_ids_distinct(cats: &Vec<Category>) -> (r: bool)
    ensures
        r == ids_distinct(cats@),
{
    let n: usize = cats.len();
    let mut i: usize = 0;
    while i < n
        invariant
            n == cats@.len(),
            i <= n,
            forall|p: int, q: int| 0 <= p < i && 0 <= q < n && p != q ==> cats@[p].id != cats@[q].id,
        decreases n - i,
    {
        let mut j: usize = 0;
        while j < n
            invariant
                n == cats@.len(),
                i < n,
                j <= n,
                forall|p: int, q: int|
                    0 <= p < i && 0 <= q < n && p != q ==> cats@[p].id != cats@[q].id,
                forall|q: int| 0 <= q < j && q != i ==> cats@[i as int].id != cats@[q].id,
            decreases n - j,
        {
            if j != i && cats[j].id == cats[i].id {
                return false;
            }
            j = j + 1;
        }
        i = i + 1;
    }
    true
}

fn check_chain(cats: &Vec<Category>, start: usize, fuel: usize) -> (r: bool)
    requires
        ids_distinct(cats@),
        start < cats@.len(),
    ensures
        r == chain_terminates(cats@, start as int, fuel as nat),
    decreases fuel,
{
    match cats[start].overflow_to_id {
        None => true,
        Some(id) => {
            if fuel == 0 {
                return false;
            }
            match find_index(cats, id) {
                None => false,
                Some(j) => {
                    proof {
                        lemma_idx_of_id(cats@, id, j as int);
                    }
                    check_chain(cats, j, fuel - 1)
                },
            }
        },
    }
}

fn check_unique_sink(cats: &Vec<Category>) -> (r: bool)
    ensures
        r == unique_sink(cats@),
{
    let n: usize = cats.len();
    let mut sink: Option<usize> = None;
    let mut i: usize = 0;
    while i < n
        invariant
            n == cats@.len(),
            i <= n,
            (match sink {
                None => forall|j: int| 0 <= j < i ==> !sink_at(cats@, j),
                Some(s) => (s as int) < i && sink_at(cats@, s as int) && forall|j: int|
                    0 <= j < i && j != s as int ==> !sink_at(cats@, j),
            }),
        decreases n - i,
    {
        if cats[i].overflow_to_id.is_none() {
            match sink {
                None => {
                    sink = Some(i);
                },
                Some(s) => {
                    proof {
                        assert(sink_at(cats@, s as int));
                        assert(sink_at(cats@, i as int));
                        assert(s as int != i as int);
                    }
                    return false;
                },
            }
        }
        i = i + 1;
    }
    match sink {
        None => {
            proof {
                if unique_sink(cats@) {
                    let s = choose|j: int| sink_at(cats@, j);
                    assert(sink_at(cats@, s));
                }
            }
            false
        },
        Some(_) => true,
    }
}

fn find_matching_balance(balances: &Vec<CategoryBalance>, c: &Category) -> (r: Option<usize>)
    ensures
        (match r {
            Some(j) => (j as int) < balances@.len() && matches_cat(*c, balances@[j as int]),
            None => forall|q: int|
                0 <= q < balances@.len() ==> !matches_cat(*c, #[trigger] balances@[q]),
        }),
{
    let n: usize = balances.len();
    let mut j: usize = 0;
    while j < n
        invariant
            n == balances@.len(),
            j <= n,
            forall|q: int| 0 <= q < j ==> !matches_cat(*c, #[trigger] balances@[q]),
        decreases n - j,
    {
        let b = &balances[j];
        if b.category_id == c.id && b.category_name == c.name && b.available.minor >= 0
            && b.available.minor <= MONEY_MAX && b.allocated.minor >= 0 && b.allocated.minor
            <= MONEY_MAX && b.spent.minor >= 0 && b.spent.minor <= MONEY_MAX && b.spent.minor
            <= b.available.minor {
            return Some(j);
        }
        j = j + 1;
    }
    None
}

impl Ledger {
    /// Builds a ledger from a category configuration and its balance rows,
    /// validating the configuration (distinct ids, percentages in range,
    /// terminating overflow chains, exactly one sink) and matching one
    /// well-ranged balance row to each category, in category order.
    pub fn new(categories: Vec<Category>, balances: Vec<CategoryBalance>) -> (r: Result<
        Ledger,
        LedgerError,
    >)
        ensures
            r is Ok <==> valid_config(categories@) && alignable(categories@, balances@),
            (match r {
                Ok(l) => {
                    &&& l.wf()
                    &&& l.cats() == categories@
                    &&& l.bals().len() == categories@.len()
                    &&& forall|i: int|
                        0 <= i < categories@.len() ==> #[trigger] aligned_entry_ok(
                            categories@,
                            balances@,
                            l.bals(),
                            i,
                        )
                },
                Err(e) => e == LedgerError::ValidationError,
            }),
    {
        let n: usize = categories.len();
        if n > CATEGORY_CAP {
            return Err(LedgerError::ValidationError);
        }
        if !check_ids_distinct(&categories) {
            return Err(LedgerError::ValidationError);
        }
        // percentages in range
        let mut i: usize = 0;
        while i < n
            invariant
                n == categories@.len(),
                i <= n,
                forall|j: int| 0 <= j < i ==> 0 <= (#[trigger] categories@[j]).limit_percentage@ <= 100,
            decreases n - i,
        {
            let p: i64 = categories[i].limit_percentage.minor;
            if p < 0 || p > 100 {
                return Err(LedgerError::ValidationError);
            }
            i = i + 1;
        }
        // terminating chains
        let mut i2: usize = 0;
        while i2 < n
            invariant
                n == categories@.len(),
                ids_distinct(categories@),
                i2 <= n,
                forall|j: int| 0 <= j < i2 ==> chain_terminates(categories@, j, n as nat),
            decreases n - i2,
        {
            if !check_chain(&categories, i2, n) {
                return Err(LedgerError::ValidationError);
            }
            i2 = i2 + 1;
        }
        if !check_unique_sink(&categories) {
            return Err(LedgerError::ValidationError);
        }
        // one balance row per category, in category order
        if balances.len() != n {
            return Err(LedgerError::ValidationError);
        }
        let mut aligned: Vec<CategoryBalance> = Vec::new();
        let mut i3: usize = 0;
        while i3 < n
            invariant
                n == categories@.len(),
                n == balances@.len(),
                i3 <= n,
                aligned@.len() == i3,
                forall|i: int|
                    0 <= i < i3 ==> #[trigger] aligned_entry_ok(categories@, balances@, aligned@, i),
            decreases n - i3,
        {
            match find_matching_balance(&balances, &categories[i3]) {
                None => {
                    proof {
                        if alignable(categories@, balances@) {
                            let j = choose|j: int|
                                0 <= j < balances@.len() && matches_cat(
                                    categories@[i3 as int],
                                    balances@[j],
                                );
                            assert(matches_cat(categories@[i3 as int], balances@[j]));
                        }
                    }
                    return Err(LedgerError::ValidationError);
                },
                Some(fj) => {
                    let ghost pre = aligned@;
                    aligned.push(balances[fj]);
                    proof {
                        assert forall|i: int|
                            0 <= i < i3 + 1 implies #[trigger] aligned_entry_ok(
                            categories@,
                            balances@,
                            aligned@,
                            i,
                        ) by {
                            if i < i3 {
                                assert(aligned_entry_ok(categories@, balances@, pre, i));
                                let j = choose|j: int|
                                    0 <= j < balances@.len() && matches_cat(
                                        categories@[i],
                                        balances@[j],
                                    ) && pre[i] == balances@[j];
                                assert(aligned@[i] == pre[i]);
                                assert(0 <= j < balances@.len() && matches_cat(
                                    categories@[i],
                                    balances@[j],
                                ) && aligned@[i] == balances@[j]);
                            } else {
                                assert(0 <= fj < balances@.len() && matches_cat(
                                    categories@[i],
                                    balances@[fj as int],
                                ) && aligned@[i] == balances@[fj as int]);
                            }
                        }
                    }
                },
            }
            i3 = i3 + 1;
        }
        proof {
            assert forall|i: int| 0 <= i < categories@.len() implies exists|j: int|
                0 <= j < balances@.len() && matches_cat(
                    #[trigger] categories@[i],
                    #[trigger] balances@[j],
                ) by {
                assert(aligned_entry_ok(categories@, balances@, aligned@, i));
                let j = choose|j: int|
                    0 <= j < balances@.len() && matches_cat(categories@[i], balances@[j]) && aligned@[i]
                        == balances@[j];
                assert(0 <= j < balances@.len() && matches_cat(categories@[i], balances@[j]));
            }
            assert(alignable(categories@, balances@));
            assert forall|i: int|
                0 <= i < categories@.len() implies matches_cat(
                categories@[i],
                #[trigger] aligned@[i],
            ) by {
                assert(aligned_entry_ok(categories@, balances@, aligned@, i));
                let j = choose|j: int|
                    0 <= j < balances@.len() && matches_cat(categories@[i], balances@[j])
                        && aligned@[i] == balances@[j];
            }
        }
        Ok(Ledger { categories, balances: aligned })
    }

    /// The category configuration, in stored order.
    pub fn load_categories(&self) -> (r: &Vec<Category>)
        ensures
            r@ == self.cats(),
    {
        &self.categories
    }

    /// The balance rows, one per category, in category order.
    pub fn load_balances(&self) -> (r: &Vec<CategoryBalance>)
        ensures
            r@ == self.bals(),
    {
        &self.balances
    }

    /// The category that carries `name`, if any: the first such entry of
    /// the configuration.
    pub fn get_category_by_name(&self, name: CategoryName) -> (r: Option<&Category>)
        ensures
            (match r {
                Some(c) => exists|i: int|
                    0 <= i < self.cats().len() && (#[trigger] self.cats()[i]) == *c && c.name == name
                        && forall|j: int| 0 <= j < i ==> self.cats()[j].name != name,
                None => forall|i: int| 0 <= i < self.cats().len() ==> (#[trigger] self.cats()[i]).name != name,
            }),
    {
        let n: usize = self.categories.len();
        let mut i: usize = 0;
        while i < n
            invariant
                n == self.cats().len(),
                i <= n,
                forall|j: int| 0 <= j < i ==> (#[trigger] self.cats()[j]).name != name,
            decreases n - i,
        {
            if self.categories[i].name == name {
                return Some(&self.categories[i]);
            }
            i = i + 1;
        }
        None
    }

    /// Allocates a deposit across all categories: every non-sink category
    /// starts fresh with its rounded share, the sink receives the rest of
    /// the amount — so the shares sum to the amount exactly — plus every
    /// category's unspent carry-forward. Yields the commit plan with the
    /// new rows and the fund record; rejects a non-positive amount, and one
    /// whose allocation would leave the representable range, changing
    /// nothing.
    pub fn deposit(&mut self, amount: Money, now: i64) -> (r: Result<CommitPlan, LedgerError>)
        requires
            old(self).wf(),
        ensures
            final(self).wf(),
            final(self).cats() == old(self).cats(),
            r is Ok <==> 0 < amount@ <= MONEY_MAX && deposit_fits(
                old(self).cats(),
                old(self).bals(),
                amount@,
            ),
            (match r {
                Ok(plan) => {
                    &&& final(self).bals().len() == old(self).bals().len()
                    &&& forall|i: int|
                        0 <= i < final(self).bals().len() ==> (#[trigger] final(self).bals()[i])
                            == deposit_row(old(self).cats(), old(self).bals(), amount@, now, i)
                    &&& plan.balances@ == final(self).bals()
                    &&& plan.fund == Some(
                        Fund {
                            id: 0,
                            amount,
                            added_at: now,
                            remaining_balance_rolled: Money {
                                minor: rollover_total(old(self).cats(), old(self).bals()) as i64,
                            },
                        },
                    )
                    &&& plan.transaction is None
                    &&& alloc_sum(final(self).bals()) == amount@ + rollover_total(
                        old(self).cats(),
                        old(self).bals(),
                    )
                },
                Err(e) => {
                    &&& final(self).bals() == old(self).bals()
                    &&& e == LedgerError::InvalidInput
                },
            }),
    {
        let ghost cs = self.categories@;
        let ghost bs = self.balances@;
        if amount.minor <= 0 || amount.minor > MONEY_MAX {
            return Err(LedgerError::InvalidInput);
        }
        let n: usize = self.categories.len();
        // the total positive unspent remainder of the non-sink categories
        let mut rollover: i64 = 0;
        let mut i: usize = 0;
        while i < n
            invariant
                self.categories@ == cs,
                self.balances@ == bs,
                n == cs.len(),
                n == bs.len(),
                n <= CATEGORY_CAP,
                forall|j: int| 0 <= j < n ==> matches_cat(cs[j], #[trigger] bs[j]),
                i <= n,
                rollover == rollover_upto(cs, bs, i as int),
                0 <= rollover <= (i as int) * (MONEY_MAX as int),
            decreases n - i,
        {
            if self.categories[i].overflow_to_id.is_some() {
                let rem: i64 = self.balances[i].available.minor - self.balances[i].spent.minor;
                if rem > 0 {
                    rollover = rollover + rem;
                }
            }
            i = i + 1;
        }
        // the rounded shares of the non-sink categories
        let mut psum: i64 = 0;
        let mut i2: usize = 0;
        while i2 < n
            invariant
                self.categories@ == cs,
                self.balances@ == bs,
                n == cs.len(),
                n == bs.len(),
                n <= CATEGORY_CAP,
                pcts_in_range(cs),
                0 < amount@ <= MONEY_MAX,
                i2 <= n,
                psum == nonsink_portions_upto(cs, amount@, i2 as int),
                0 <= psum <= (i2 as int) * (MONEY_MAX as int),
            decreases n - i2,
        {
            if self.categories[i2].overflow_to_id.is_some() {
                let p: i64 = portion_exec(amount.minor, self.categories[i2].limit_percentage.minor);
                psum = psum + p;
            }
            i2 = i2 + 1;
        }
        let si: usize = find_sink(&self.categories);
        let salloc: i64 = amount.minor - psum + rollover;
        if salloc < 0 {
            return Err(LedgerError::InvalidInput);
        }
        let srem: i64 = self.balances[si].available.minor - self.balances[si].spent.minor;
        let savail: i64 = srem + salloc;
        if savail > MONEY_MAX {
            return Err(LedgerError::InvalidInput);
        }
        proof {
            assert(salloc == sink_alloc_of(cs, bs, amount@));
            assert(savail == sink_avail_of(cs, bs, amount@));
        }
        // build the new rows
        let mut nb: Vec<CategoryBalance> = Vec::new();
        let mut i3: usize = 0;
        while i3 < n
            invariant
                self.categories@ == cs,
                self.balances@ == bs,
                n == cs.len(),
                n == bs.len(),
                n <= CATEGORY_CAP,
                pcts_in_range(cs),
                unique_sink(cs),
                (si as int) == sink_idx(cs),
                si < n,
                0 < amount@ <= MONEY_MAX,
                0 <= salloc <= savail <= MONEY_MAX,
                salloc == sink_alloc_of(cs, bs, amount@),
                savail == sink_avail_of(cs, bs, amount@),
                i3 <= n,
                nb@.len() == i3,
                forall|j: int|
                    0 <= j < i3 ==> (#[trigger] nb@[j]) == deposit_row(cs, bs, amount@, now, j),
                forall|j: int| 0 <= j < i3 ==> matches_cat(cs[j], #[trigger] nb@[j]),
                alloc_sum_upto(nb@, i3 as int) == nonsink_portions_upto(cs, amount@, i3 as int) + (
                if (si as int) < i3 {
                    sink_alloc_of(cs, bs, amount@)
                } else {
                    0int
                }),
            decreases n - i3,
        {
            let ghost pre = nb@;
            let c = &self.categories[i3];
            if c.overflow_to_id.is_some() {
                let p: i64 = portion_exec(amount.minor, c.limit_percentage.minor);
                nb.push(
                    CategoryBalance {
                        category_id: c.id,
                        category_name: c.name,
                        available: Money { minor: p },
                        allocated: Money { minor: p },
                        spent: Money { minor: 0 },
                        last_updated: now,
                    },
                );
                proof {
                    assert(!sink_at(cs, i3 as int));
                    assert((i3 as int) != sink_idx(cs));
                }
            } else {
                proof {
                    assert(sink_at(cs, i3 as int));
                    assert(sink_at(cs, sink_idx(cs)));
                    assert((i3 as int) == sink_idx(cs));
                }
                nb.push(
                    CategoryBalance {
                        category_id: c.id,
                        category_name: c.name,
                        available: Money { minor: savail },
                        allocated: Money { minor: salloc },
                        spent: Money { minor: 0 },
                        last_updated: now,
                    },
                );
            }
            proof {
                lemma_alloc_sum_prefix(pre, nb@, i3 as int);
                assert(alloc_sum_upto(nb@, i3 + 1) == alloc_sum_upto(nb@, i3 as int) + nb@[i3 as int].allocated@);
            }
            i3 = i3 + 1;
        }
        let plan_rows: Vec<CategoryBalance> = copy_balances(&nb);
        proof {
            assert((si as int) < n);
            assert(alloc_sum(nb@) == amount@ + rollover_total(cs, bs));
        }
        self.balances = nb;
        proof {
            assert forall|i: int|
                0 <= i < self.cats().len() implies matches_cat(
                self.cats()[i],
                #[trigger] self.bals()[i],
            ) by {
                assert(self.bals()[i] == deposit_row(cs, bs, amount@, now, i));
            }
        }
        Ok(
            CommitPlan {
                balances: plan_rows,
                fund: Some(
                    Fund {
                        id: 0,
                        amount,
                        added_at: now,
                        remaining_balance_rolled: Money { minor: rollover },
                    },
                ),
                transaction: None,
            },
        )
    }

    /// Debits an expense against a category, cascading what its remainder
    /// cannot cover along the overflow chain. The whole deduction list is
    /// computed before anything is applied: a spend that fails — a
    /// non-positive or unrepresentable amount, an unknown category, or an
    /// exhausted chain — leaves every balance exactly as it was. On success
    /// the new rows and one transaction record, attributed to the targeted
    /// category, form the commit plan; afterwards no category's remainder
    /// is negative.
    pub fn spend(
        &mut self,
        category_id: i64,
        amount: Money,
        description: Option<String>,
        now: i64,
    ) -> (r: Result<CommitPlan, LedgerError>)
        requires
            old(self).wf(),
        ensures
            final(self).wf(),
            final(self).cats() == old(self).cats(),
            forall|i: int|
                0 <= i < final(self).bals().len() ==> remaining_of(#[trigger] final(self).bals()[i])
                    >= 0,
            r is Ok <==> (0 < amount@ <= MONEY_MAX && has_id(old(self).cats(), category_id)
                && cascade_bals(
                old(self).cats(),
                old(self).bals(),
                idx_of_id(old(self).cats(), category_id),
                amount@,
                old(self).cats().len() as nat,
            ) is Some),
            (match r {
                Ok(plan) => {
                    &&& cascade_bals(
                        old(self).cats(),
                        old(self).bals(),
                        idx_of_id(old(self).cats(), category_id),
                        amount@,
                        old(self).cats().len() as nat,
                    ) == Some(final(self).bals())
                    &&& plan.balances@ == final(self).bals()
                    &&& spent_sum(final(self).bals()) == spent_sum(old(self).bals()) + amount@
                    &&& plan.fund is None
                    &&& (plan.transaction matches Some(t) && t == (Transaction {
                        id: 0,
                        category_id,
                        amount,
                        description,
                        created_at: now,
                        overflow_from_id: None,
                        category_name: Some(
                            old(self).cats()[idx_of_id(old(self).cats(), category_id)].name,
                        ),
                    }))
                },
                Err(e) => {
                    &&& final(self).bals() == old(self).bals()
                    &&& (e == LedgerError::InvalidInput <==> !(0 < amount@ <= MONEY_MAX))
                    &&& (e == LedgerError::CategoryNotFound <==> 0 < amount@ <= MONEY_MAX
                        && !has_id(old(self).cats(), category_id))
                    &&& (e == LedgerError::InsufficientFunds <==> 0 < amount@ <= MONEY_MAX
                        && has_id(old(self).cats(), category_id) && cascade_bals(
                        old(self).cats(),
                        old(self).bals(),
                        idx_of_id(old(self).cats(), category_id),
                        amount@,
                        old(self).cats().len() as nat,
                    ) is None)
                },
            }),
    {
        let ghost cs = self.categories@;
        let ghost bs = self.balances@;
        if amount.minor <= 0 || amount.minor > MONEY_MAX {
            return Err(LedgerError::InvalidInput);
        }
        let n: usize = self.categories.len();
        let t: usize = match find_index(&self.categories, category_id) {
            None => {
                return Err(LedgerError::CategoryNotFound);
            },
            Some(t) => t,
        };
        proof {
            lemma_idx_of_id(cs, category_id, t as int);
        }
        let tname: CategoryName = self.categories[t].name;
        let mut nb: Vec<CategoryBalance> = copy_balances(&self.balances);
        let mut cur: usize = t;
        let mut need: i64 = amount.minor;
        let mut fuel: usize = n;
        loop
            invariant
                self.categories@ == cs,
                self.balances@ == bs,
                cs == old(self).cats(),
                bs == old(self).bals(),
                old(self).wf(),
                n == cs.len(),
                n == bs.len(),
                nb@.len() == n,
                forall|j: int| 0 <= j < n ==> matches_cat(cs[j], #[trigger] nb@[j]),
                t < n,
                cur < n,
                fuel <= n,
                has_id(cs, category_id),
                idx_of_id(cs, category_id) == t as int,
                tname == cs[t as int].name,
                0 < amount@ <= MONEY_MAX,
                amount == (Money { minor: amount.minor }),
                0 < need <= amount.minor,
                chain_terminates(cs, cur as int, fuel as nat),
                cascade_bals(cs, bs, t as int, amount@, n as nat) == cascade_bals(
                    cs,
                    nb@,
                    cur as int,
                    need as int,
                    fuel as nat,
                ),
            decreases fuel,
        {
            let b: CategoryBalance = nb[cur];
            let rem: i64 = b.available.minor - b.spent.minor;
            if rem >= need {
                let ghost pre = nb@;
                nb[cur] = CategoryBalance {
                    spent: Money { minor: b.spent.minor + need },
                    ..b
                };
                proof {
                    assert(nb@ == pre.update(cur as int, spend_mark(pre[cur as int], need as int)));
                    assert(cascade_bals(cs, bs, t as int, amount@, n as nat) == Some(nb@));
                    assert forall|j: int| 0 <= j < bs.len() implies balance_ok(#[trigger] bs[j]) by {
                        assert(matches_cat(cs[j], bs[j]));
                    }
                    lemma_cascade_deducts_exactly(cs, bs, t as int, amount@, n as nat, nb@);
                }
                let plan_rows: Vec<CategoryBalance> = copy_balances(&nb);
                self.balances = nb;
                proof {
                    assert forall|i: int|
                        0 <= i < self.cats().len() implies matches_cat(
                        self.cats()[i],
                        #[trigger] self.bals()[i],
                    ) by {}
                }
                return Ok(
                    CommitPlan {
                        balances: plan_rows,
                        fund: None,
                        transaction: Some(
                            Transaction {
                                id: 0,
                                category_id,
                                amount,
                                description,
                                created_at: now,
                                overflow_from_id: None,
                                category_name: Some(tname),
                            },
                        ),
                    },
                );
            }
            let ghost pre = nb@;
            let ghost need_pre = need as int;
            if rem > 0 {
                nb[cur] = CategoryBalance { spent: Money { minor: b.spent.minor + rem }, ..b };
                need = need - rem;
                proof {
                    assert(nb@ == pre.update(cur as int, spend_mark(pre[cur as int], rem as int)));
                }
            }
            match self.categories[cur].overflow_to_id {
                None => {
                    proof {
                        assert(cascade_bals(cs, pre, cur as int, need_pre, fuel as nat) is None);
                    }
                    return Err(LedgerError::InsufficientFunds);
                },
                Some(id) => {
                    proof {
                        assert(chain_terminates(cs, cur as int, fuel as nat));
                        assert(fuel > 0);
                        assert(has_id(cs, id));
                    }
                    match find_index(&self.categories, id) {
                        None => {
                            proof {
                                assert(false);
                            }
                            return Err(LedgerError::InsufficientFunds);
                        },
                        Some(j) => {
                            proof {
                                lemma_idx_of_id(cs, id, j as int);
                                assert(cascade_bals(cs, pre, cur as int, need_pre, fuel as nat)
                                    == cascade_bals(
                                    cs,
                                    nb@,
                                    j as int,
                                    need as int,
                                    (fuel - 1) as nat,
                                ));
                            }
                            cur = j;
                            fuel = fuel - 1;
                        },
                    }
                },
            }
        }
    }

    /// Replaces one category's allocation percentage, validating the
    /// resulting configuration: the new percentage must lie between 0 and
    /// 100 and all percentages must again sum to exactly 100; otherwise
    /// nothing changes. Balances are never touched.
    pub fn update_category_percentage(&mut self, category_id: i64, new_percentage: Money) -> (r:
        Result<(), LedgerError>)
        requires
            old(self).wf(),
        ensures
            final(self).wf(),
            final(self).bals() == old(self).bals(),
            r is Ok <==> (has_id(old(self).cats(), category_id) && 0 <= new_percentage@ <= 100
                && pct_sum(
                old(self).cats().update(
                    idx_of_id(old(self).cats(), category_id),
                    pct_set(
                        old(self).cats()[idx_of_id(old(self).cats(), category_id)],
                        new_percentage,
                    ),
                ),
            ) == 100),
            (match r {
                Ok(u) => final(self).cats() == old(self).cats().update(
                    idx_of_id(old(self).cats(), category_id),
                    pct_set(
                        old(self).cats()[idx_of_id(old(self).cats(), category_id)],
                        new_percentage,
                    ),
                ),
                Err(e) => {
                    &&& final(self).cats() == old(self).cats()
                    &&& (e == LedgerError::CategoryNotFound <==> !has_id(
                        old(self).cats(),
                        category_id,
                    ))
                    &&& (e == LedgerError::ValidationError <==> has_id(
                        old(self).cats(),
                        category_id,
                    ) && !(0 <= new_percentage@ <= 100 && pct_sum(
                        old(self).cats().update(
                            idx_of_id(old(self).cats(), category_id),
                            pct_set(
                                old(self).cats()[idx_of_id(old(self).cats(), category_id)],
                                new_percentage,
                            ),
                        ),
                    ) == 100))
                },
            }),
    {
        let ghost cs = self.categories@;
        let n: usize = self.categories.len();
        let t: usize = match find_index(&self.categories, category_id) {
            None => {
                return Err(LedgerError::CategoryNotFound);
            },
            Some(t) => t,
        };
        proof {
            lemma_idx_of_id(cs, category_id, t as int);
        }
        let ghost cs2 = cs.update(t as int, pct_set(cs[t as int], new_percentage));
        if new_percentage.minor < 0 || new_percentage.minor > 100 {
            return Err(LedgerError::ValidationError);
        }
        let mut sum: i64 = 0;
        let mut i: usize = 0;
        while i < n
            invariant
                self.categories@ == cs,
                n == cs.len(),
                n <= CATEGORY_CAP,
                pcts_in_range(cs),
                0 <= new_percentage@ <= 100,
                t < n,
                cs2 == cs.update(t as int, pct_set(cs[t as int], new_percentage)),
                i <= n,
                sum == pct_sum_upto(cs2, i as int),
                0 <= sum <= (i as int) * 100,
            decreases n - i,
        {
            let p: i64 = if i == t {
                new_percentage.minor
            } else {
                self.categories[i].limit_percentage.minor
            };
            proof {
                assert(cs2[i as int].limit_percentage@ == p);
            }
            sum = sum + p;
            i = i + 1;
        }
        if sum != 100 {
            return Err(LedgerError::ValidationError);
        }
        let c: Category = self.categories[t];
        self.categories[t] = Category { limit_percentage: new_percentage, ..c };
        proof {
            assert(self.categories@ == cs2);
            assert(ids_distinct(cs2)) by {
                assert forall|p: int, q: int|
                    0 <= p < cs2.len() && 0 <= q < cs2.len() && p != q implies cs2[p].id
                    != cs2[q].id by {
                    assert(cs2[p].id == cs[p].id);
                    assert(cs2[q].id == cs[q].id);
                }
            }
            assert(pcts_in_range(cs2)) by {
                assert forall|j: int|
                    0 <= j < cs2.len() implies 0 <= (#[trigger] cs2[j]).limit_percentage@
                    <= 100 by {
                    if j != t as int {
                        assert(cs2[j] == cs[j]);
                    }
                }
            }
            assert forall|j: int|
                0 <= j < cs2.len() implies chain_terminates(cs2, j, cs2.len() as nat) by {
                assert(chain_terminates(cs, j, cs.len() as nat));
                lemma_chain_same_links(cs, cs2, j, cs.len() as nat);
            }
            assert(unique_sink(cs2)) by {
                let s = choose|j: int| sink_at(cs, j);
                assert(sink_at(cs, s));
                assert(sink_at(cs2, s));
                assert forall|p: int, q: int|
                    sink_at(cs2, p) && sink_at(cs2, q) implies p == q by {
                    assert(sink_at(cs, p));
                    assert(sink_at(cs, q));
                }
            }
            assert forall|j: int|
                0 <= j < self.cats().len() implies matches_cat(
                self.cats()[j],
                #[trigger] self.bals()[j],
            ) by {
                assert(matches_cat(cs[j], self.bals()[j]));
                if j != t as int {
                    assert(cs2[j] == cs[j]);
                }
            }
        }
        Ok(())
    }
}

/// The categories created at first run: Savings is the sink with half of
/// every deposit; Unexpected overflows into Savings; Needs, Wants and
/// Culture overflow into Unexpected.
pub fn seed_categories() -> (r: Vec<Category>)
    ensures
        r@.len() == 5,
        valid_config(r@),
        pct_sum(r@) == 100,
        r@[0] == (Category {
            id: 1,
            name: CategoryName::Savings,
            limit_percentage: Money { minor: 50 },
            overflow_to_id: None,
        }),
        r@[1] == (Category {
            id: 2,
            name: CategoryName::Unexpected,
            limit_percentage: Money { minor: 10 },
            overflow_to_id: Some(1),
        }),
        r@[2] == (Category {
            id: 3,
            name: CategoryName::Needs,
            limit_percentage: Money { minor: 30 },
            overflow_to_id: Some(2),
        }),
        r@[3] == (Category {
            id: 4,
            name: CategoryName::Wants,
            limit_percentage: Money { minor: 5 },
            overflow_to_id: Some(2),
        }),
        r@[4] == (Category {
            id: 5,
            name: CategoryName::Culture,
            limit_percentage: Money { minor: 5 },
            overflow_to_id: Some(2),
        }),
{
    let mut v: Vec<Category> = Vec::new();
    v.push(
        Category {
            id: 1,
            name: CategoryName::Savings,
            limit_percentage: Money { minor: 50 },
            overflow_to_id: None,
        },
    );
    v.push(
        Category {
            id: 2,
            name: CategoryName::Unexpected,
            limit_percentage: Money { minor: 10 },
            overflow_to_id: Some(1),
        },
    );
    v.push(
        Category {
            id: 3,
            name: CategoryName::Needs,
            limit_percentage: Money { minor: 30 },
            overflow_to_id: Some(2),
        },
    );
    v.push(
        Category {
            id: 4,
            name: CategoryName::Wants,
            limit_percentage: Money { minor: 5 },
            overflow_to_id: Some(2),
        },
    );
    v.push(
        Category {
            id: 5,
            name: CategoryName::Culture,
            limit_percentage: Money { minor: 5 },
            overflow_to_id: Some(2),
        },
    );
    proof {
        let s = v@;
        assert(ids_distinct(s)) by {
            assert forall|p: int, q: int|
                0 <= p < s.len() && 0 <= q < s.len() && p != q implies s[p].id != s[q].id by {}
        }
        lemma_idx_of_id(s, 1, 0);
        lemma_idx_of_id(s, 2, 1);
        assert(chain_terminates(s, 0, 3nat));
        assert(chain_terminates(s, 0, 4nat));
        assert(chain_terminates(s, 1, 4nat));
        assert(chain_terminates(s, 0, 5nat));
        assert(chain_terminates(s, 1, 5nat));
        assert(chain_terminates(s, 2, 5nat));
        assert(chain_terminates(s, 3, 5nat));
        assert(chain_terminates(s, 4, 5nat));
        assert(unique_sink(s)) by {
            assert(sink_at(s, 0));
            assert forall|p: int, q: int| sink_at(s, p) && sink_at(s, q) implies p == q by {
                assert(s[1].overflow_to_id is Some);
                assert(s[2].overflow_to_id is Some);
                assert(s[3].overflow_to_id is Some);
                assert(s[4].overflow_to_id is Some);
            }
        }
        assert(pct_sum_upto(s, 0) == 0);
        assert(pct_sum_upto(s, 1) == 50);
        assert(pct_sum_upto(s, 2) == 60);
        assert(pct_sum_upto(s, 3) == 90);
        assert(pct_sum_upto(s, 4) == 95);
        assert(pct_sum_upto(s, 5) == 100);
    }
    v
}

/// One zeroed balance row per category, the state before any deposit.
pub fn seed_balances(categories: &Vec<Category>, now: i64) -> (r: Vec<CategoryBalance>)
    ensures
        r@.len() == categories@.len(),
        forall|i: int| 0 <= i < r@.len() ==> (#[trigger] r@[i]) == zero_balance(categories@[i], now),
        forall|i: int|
            0 <= i < r@.len() ==> matches_cat(categories@[i], #[trigger] r@[i]),
{
    let n: usize = categories.len();
    let mut out: Vec<CategoryBalance> = Vec::new();
    let mut i: usize = 0;
    while i < n
        invariant
            n == categories@.len(),
            i <= n,
            out@.len() == i,
            forall|j: int|
                0 <= j < i ==> (#[trigger] out@[j]) == zero_balance(categories@[j], now),
        decreases n - i,
    {
        let c = &categories[i];
        out.push(
            CategoryBalance {
                category_id: c.id,
                category_name: c.name,
                available: Money { minor: 0 },
                allocated: Money { minor: 0 },
                spent: Money { minor: 0 },
                last_updated: now,
            },
        );
        i = i + 1;
    }
    out
}

/// A spend of exactly the target's remainder is a full, non-cascading
/// deduction: it empties only the target and leaves every other row
/// untouched.
pub proof fn lemma_spend_exact_remaining(
    cats: Seq<Category>,
    bals: Seq<CategoryBalance>,
    t: int,
    fuel: nat,
)
    requires
        bals.len() == cats.len(),
        0 <= t < cats.len(),
        balance_ok(bals[t]),
        remaining_of(bals[t]) > 0,
    ensures
        cascade_bals(cats, bals, t, remaining_of(bals[t]), fuel) == Some(
            bals.update(t, spend_mark(bals[t], remaining_of(bals[t]))),
        ),
        remaining_of(bals.update(t, spend_mark(bals[t], remaining_of(bals[t])))[t]) == 0,
        forall|j: int|
            0 <= j < bals.len() && j != t ==> bals.update(
                t,
                spend_mark(bals[t], remaining_of(bals[t])),
            )[j] == #[trigger] bals[j],
{
}

/// A spend of one more than the target's remainder empties the target and
/// debits exactly one unit from its overflow successor.
pub proof fn lemma_spend_remaining_plus_one(
    cats: Seq<Category>,
    bals: Seq<CategoryBalance>,
    t: int,
    s: int,
    fuel: nat,
)
    requires
        bals.len() == cats.len(),
        ids_distinct(cats),
        0 <= t < cats.len(),
        0 <= s < cats.len(),
        s != t,
        cats[t].overflow_to_id == Some(cats[s].id),
        balance_ok(bals[t]),
        balance_ok(bals[s]),
        remaining_of(bals[t]) > 0,
        remaining_of(bals[s]) >= 1,
        fuel >= 1,
    ensures
        cascade_bals(cats, bals, t, remaining_of(bals[t]) + 1, fuel) == Some(
            bals.update(t, spend_mark(bals[t], remaining_of(bals[t]))).update(
                s,
                spend_mark(bals[s], 1),
            ),
        ),
{
    let rem = remaining_of(bals[t]);
    let bals2 = bals.update(t, spend_mark(bals[t], rem));
    lemma_idx_of_id(cats, cats[s].id, s);
    assert(remaining_of(bals2[s]) == remaining_of(bals[s]));
    assert(cascade_bals(cats, bals2, s, 1, (fuel - 1) as nat) == Some(
        bals2.update(s, spend_mark(bals2[s], 1)),
    ));
    assert(bals2[s] == bals[s]);
}

/// Reading the balance store is idempotent: the rows `load_balances`
/// yields are pinned to the ledger state, so two loads with no mutation in
/// between yield identical rows.
pub proof fn lemma_load_balances_idempotent(
    l: Ledger,
    r1: Seq<CategoryBalance>,
    r2: Seq<CategoryBalance>,
)
    requires
        r1 == l.bals(),
        r2 == l.bals(),
    ensures
        r1 == r2,
{
}

} // verus!
