//! Order composition and line mutation: joining an order against resolved
//! waiter, table, product and category records into a read view with a
//! computed total, and the add/remove-with-quantity line protocol.

use std::collections::HashMap;

use vstd::prelude::*;

use crate::models::orders::view_sum;
use crate::models::orders::Order;
use crate::models::orders::OrderAPI;
use crate::models::products::Product;
use crate::models::products::ProductIdWithQuantity;
use crate::models::products::ProductInOrder;
use crate::models::tables::TableAPI;
use crate::models::waiters::WaiterInOrder;
use crate::models::Entity;
use crate::repo::error::RepoError;
use crate::repo::error::RepoErrorModel;
use crate::repo::repository::entry_of;
use crate::repo::repository::find_index;
use crate::repo::repository::has_id;
use crate::repo::repository::idx_of;
use crate::repo::repository::lemma_missing_ids_none;
use crate::repo::repository::lemma_unique_entry;
use crate::repo::repository::missing_ids;
use crate::repo::repository::query_many;
use crate::repo::repository::Repository;

verus! {

broadcast use
    vstd::std_specs::hash::group_hash_axioms,
    vstd::arithmetic::mul::lemma_mul_nonnegative,
;

/// How many times `k` occurs in `s`.
pub open spec fn count_of(s: Seq<u128>, k: u128) -> int
    decreases s.len(),
{
    if s.len() == 0 {
        0
    } else {
        count_of(s.drop_last(), k) + if s.last() == k {
            1int
        } else {
            0int
        }
    }
}

/// An occurrence count never exceeds the sequence length.
pub proof fn lemma_count_of_le_len(s: Seq<u128>, k: u128)
    ensures
        0 <= count_of(s, k) <= s.len(),
    decreases s.len(),
{
    if s.len() > 0 {
        lemma_count_of_le_len(s.drop_last(), k);
    }
}

/// The number of occurrences of each value of `arr`, keyed by value.
pub fn count_frequency(arr: Vec<u128>) -> (m: HashMap<u128, i32>)
    requires
        arr@.len() <= i32::MAX,
    ensures
        forall|k: u128| #[trigger] m@.contains_key(k) <==> arr@.contains(k),
        forall|k: u128| #[trigger] m@.contains_key(k) ==> m@[k] == count_of(arr@, k),
{
    let mut m: HashMap<u128, i32> = HashMap::new();
    let mut i: usize = 0;
    while i < arr.len()
        invariant
            arr@.len() <= i32::MAX,
            i <= arr@.len(),
            forall|k: u128| #[trigger] m@.contains_key(k) <==> arr@.take(i as int).contains(k),
            forall|k: u128| #[trigger] m@.contains_key(k) ==> m@[k] == count_of(
                arr@.take(i as int),
                k,
            ),
        decreases arr@.len() - i,
    {
        let x = arr[i];
        proof {
            assert(arr@.take(i + 1).drop_last() =~= arr@.take(i as int));
            assert(arr@.take(i + 1).last() == arr@[i as int]);
            lemma_count_of_le_len(arr@.take(i as int), x);
        }
        let ghost m_prev = m@;
        let next = match m.get(&x) {
            Some(c) => *c + 1,
            None => 1,
        };
        m.insert(x, next);
        proof {
            assert forall|k: u128| #[trigger] m@.contains_key(k) implies arr@.take(
                i + 1,
            ).contains(k) by {
                if k == x {
                    assert(arr@.take(i + 1)[i as int] == k);
                } else {
                    let w = choose|j: int|
                        0 <= j < arr@.take(i as int).len() && arr@.take(i as int)[j] == k;
                    assert(arr@.take(i + 1)[w] == k);
                }
            }
            assert forall|k: u128| arr@.take(i + 1).contains(k) implies m@.contains_key(k) by {
                if k != x {
                    let w = choose|j: int|
                        0 <= j < arr@.take(i + 1).len() && #[trigger] arr@.take(i + 1)[j] == k;
                    assert(arr@.take(i as int)[w] == k);
                    assert(arr@.take(i as int).contains(k));
                }
            }
            assert forall|k: u128| #[trigger] m@.contains_key(k) implies m@[k] == count_of(
                arr@.take(i + 1),
                k,
            ) by {
                if k == x {
                    if !m_prev.contains_key(x) {
                        assert(!arr@.take(i as int).contains(x));
                        lemma_count_of_zero(arr@.take(i as int), x);
                    }
                } else {
                    assert(count_of(arr@.take(i + 1), k) == count_of(arr@.take(i as int), k));
                }
            }
        }
        i = i + 1;
    }
    proof {
        assert(arr@.take(arr@.len() as int) =~= arr@);
    }
    m
}

/// The product identifiers referenced by a line list, in line order.
pub open spec fn line_ids(lines: Seq<ProductIdWithQuantity>) -> Seq<u128> {
    lines.map_values(|l: ProductIdWithQuantity| l._id)
}

/// The amount contributed by line `l`: the resolved product's unit price
/// times the line quantity.
pub open spec fn line_amount(products: Seq<Product>, l: ProductIdWithQuantity) -> int {
    entry_of(products, l._id).price * l.quantity
}

/// The total of `line_amount` over a line list, accumulated in line order.
pub open spec fn order_sum(products: Seq<Product>, lines: Seq<ProductIdWithQuantity>) -> int
    decreases lines.len(),
{
    if lines.len() == 0 {
        0
    } else {
        order_sum(products, lines.drop_last()) + line_amount(products, lines.last())
    }
}

/// A total over resolved line views is never negative.
pub proof fn lemma_view_sum_nonneg(s: Seq<ProductInOrder>)
    ensures
        view_sum(s) >= 0,
    decreases s.len(),
{
    if s.len() > 0 {
        lemma_view_sum_nonneg(s.drop_last());
    }
}

/// A prefix total never exceeds the whole total.
pub proof fn lemma_view_sum_prefix(s: Seq<ProductInOrder>, m: int)
    requires
        0 <= m <= s.len(),
    ensures
        view_sum(s.take(m)) <= view_sum(s),
    decreases s.len(),
{
    if m == s.len() {
        assert(s.take(m) =~= s);
    } else {
        lemma_view_sum_prefix(s.drop_last(), m);
        assert(s.drop_last().take(m) =~= s.take(m));
    }
}

/// The total over line views whose price and quantity match the store
/// equals the store-level order total.
pub proof fn lemma_view_sum_as_order_sum(
    ps: Seq<Product>,
    lines: Seq<ProductIdWithQuantity>,
    views: Seq<ProductInOrder>,
)
    requires
        views.len() == lines.len(),
        forall|k: int|
            0 <= k < lines.len() ==> (#[trigger] views[k]).price == entry_of(
                ps,
                lines[k]._id,
            ).price && views[k].quantity == lines[k].quantity,
    ensures
        view_sum(views) == order_sum(ps, lines),
    decreases lines.len(),
{
    if lines.len() > 0 {
        assert(forall|k: int| 0 <= k < views.len() - 1 ==> views.drop_last()[k] == #[trigger] views[k]);
        assert(forall|k: int| 0 <= k < lines.len() - 1 ==> lines.drop_last()[k] == #[trigger] lines[k]);
        lemma_view_sum_as_order_sum(ps, lines.drop_last(), views.drop_last());
    }
}

impl Repository {
    /// Whether every reference of order `o` resolves: its waiter, its
    /// table, every line's product, and every resolved product's category.
    pub open spec fn order_resolves(&self, o: Order) -> bool {
        &&& has_id(self.waiters@, o.waiter_id)
        &&& has_id(self.tables@, o.table_id)
        &&& forall|j: int|
            0 <= j < o.products@.len() ==> has_id(self.products@, (#[trigger] o.products@[j])._id)
        &&& forall|j: int| 0 <= j < o.products@.len() ==> !self.cat_missing_at(o, j)
    }

    /// Whether line `j` of order `o` names a product whose category does
    /// not resolve.
    pub open spec fn cat_missing_at(&self, o: Order, j: int) -> bool {
        !has_id(self.categories@, entry_of(self.products@, o.products@[j]._id).category_id)
    }

    /// Whether some line's product has an unresolvable category.
    pub open spec fn some_cat_missing(&self, o: Order) -> bool {
        exists|j: int| 0 <= j < o.products@.len() && self.cat_missing_at(o, j)
    }

    /// The category identifier reported for the first line whose category
    /// does not resolve; meaningful when `some_cat_missing` holds.
    pub open spec fn first_missing_cat(&self, o: Order) -> u128 {
        let j = choose|j: int|
            0 <= j < o.products@.len() && self.cat_missing_at(o, j) && (forall|k: int|
                0 <= k < j ==> !self.cat_missing_at(o, k));
        entry_of(self.products@, o.products@[j]._id).category_id
    }

    /// Whether composing a view for `id` succeeds: the order exists, every
    /// reference resolves, and the total fits the result type.
    pub open spec fn compose_ok(&self, id: u128) -> bool {
        &&& has_id(self.orders@, id)
        &&& self.order_resolves(entry_of(self.orders@, id))
        &&& order_sum(self.products@, entry_of(self.orders@, id).products@) <= u64::MAX
    }

    /// The error a failing composition reports: the first unresolvable
    /// reference in resolution order, or the total leaving its range.
    pub open spec fn compose_err(&self, id: u128) -> RepoErrorModel {
        if !has_id(self.orders@, id) {
            RepoErrorModel::IdNotFound(id)
        } else {
            let o = entry_of(self.orders@, id);
            if !has_id(self.waiters@, o.waiter_id) {
                RepoErrorModel::IdNotFound(o.waiter_id)
            } else if !has_id(self.tables@, o.table_id) {
                RepoErrorModel::IdNotFound(o.table_id)
            } else if missing_ids(self.products@, line_ids(o.products@)).len() > 0 {
                RepoErrorModel::IdsNotFound(missing_ids(self.products@, line_ids(o.products@)))
            } else if self.some_cat_missing(o) {
                RepoErrorModel::IdNotFound(self.first_missing_cat(o))
            } else {
                RepoErrorModel::OutOfRange
            }
        }
    }

    /// The resolved view of line `l`; meaningful when the line's product
    /// and its category resolve.
    pub open spec fn line_view(&self, l: ProductIdWithQuantity) -> ProductInOrder {
        let p = entry_of(self.products@, l._id);
        let c = entry_of(self.categories@, p.category_id);
        ProductInOrder { _id: l._id, name: p.name, price: p.price, category: c, quantity: l.quantity }
    }

    /// What the successfully composed view of order `id` holds: the order's
    /// identity and timestamp, the resolved waiter and table summaries, one
    /// resolved view per line in line order, and the exact total.
    pub open spec fn view_of(&self, id: u128, v: OrderAPI) -> bool {
        let o = entry_of(self.orders@, id);
        &&& v._id == id
        &&& v.waiter == (WaiterInOrder {
            _id: o.waiter_id,
            name: entry_of(self.waiters@, o.waiter_id).name,
        })
        &&& v.table == (TableAPI { _id: o.table_id, name: entry_of(self.tables@, o.table_id).name })
        &&& v.products@.len() == o.products@.len()
        &&& forall|j: int|
            0 <= j < o.products@.len() ==> (#[trigger] v.products@[j]) == self.line_view(
                o.products@[j],
            )
        &&& v.sum == order_sum(self.products@, o.products@)
        &&& v.sum == view_sum(v.products@)
        &&& v.created_at == o.created_at
    }

    /// The composition contract: on success the view is pinned by
    /// `view_of`; on failure the error is pinned by `compose_err`, and no
    /// partial view is returned.
    pub open spec fn composes_to(&self, id: u128, r: Result<OrderAPI, RepoError>) -> bool {
        if self.compose_ok(id) {
            r matches Ok(v) && self.view_of(id, v)
        } else {
            r matches Err(e) && e@ == self.compose_err(id)
        }
    }

    /// Compose the fully resolved read view of order `id`. Every
    /// resolution step either fully succeeds or aborts the composition
    /// with the error of the first failing step.
    #[verifier::loop_isolation(false)]
    pub fn query_order_api(&self, id: &u128) -> (r: Result<OrderAPI, RepoError>)
        requires
            self.inv(),
        ensures
            self.composes_to(*id, r),
    {
        let oi = match find_index(&self.orders, *id) {
            Some(i) => i,
            None => {
                return Err(RepoError::IdNotFound(*id));
            },
        };
        proof {
            lemma_unique_entry(self.orders@, oi as int);
        }
        let o = &self.orders[oi];
        let wi = match find_index(&self.waiters, o.waiter_id) {
            Some(i) => i,
            None => {
                return Err(RepoError::IdNotFound(o.waiter_id));
            },
        };
        proof {
            lemma_unique_entry(self.waiters@, wi as int);
        }
        let ti = match find_index(&self.tables, o.table_id) {
            Some(i) => i,
            None => {
                return Err(RepoError::IdNotFound(o.table_id));
            },
        };
        proof {
            lemma_unique_entry(self.tables@, ti as int);
        }
        let waiter = WaiterInOrder { _id: o.waiter_id, name: self.waiters[wi].name.clone() };
        let table = TableAPI { _id: o.table_id, name: self.tables[ti].name.clone() };
        let mut pids: Vec<u128> = Vec::new();
        let mut j: usize = 0;
        while j < o.products.len()
            invariant
                j <= o.products@.len(),
                pids@.len() == j,
                forall|k: int| 0 <= k < j ==> pids@[k] == (#[trigger] o.products@[k])._id,
            decreases o.products@.len() - j,
        {
            pids.push(o.products[j].id());
            j = j + 1;
        }
        proof {
            assert(pids@ =~= line_ids(o.products@));
        }
        let products = match query_many(&self.products, &pids) {
            Ok(p) => p,
            Err(e) => {
                proof {
                    lemma_missing_ids_none(self.products@, pids@);
                    let bad = choose|i: int|
                        0 <= i < pids@.len() && !has_id(self.products@, #[trigger] pids@[i]);
                    assert(!has_id(self.products@, o.products@[bad]._id));
                }
                return Err(e);
            },
        };
        proof {
            lemma_missing_ids_none(self.products@, pids@);
        }
        let mut views: Vec<ProductInOrder> = Vec::new();
        let mut j: usize = 0;
        while j < o.products.len()
            invariant
                j <= o.products@.len(),
                views@.len() == j,
                forall|k: int|
                    0 <= k < j ==> (#[trigger] views@[k]) == self.line_view(o.products@[k]),
                forall|k: int| 0 <= k < j ==> !self.cat_missing_at(*o, k),
            decreases o.products@.len() - j,
        {
            let line = o.products[j];
            let p = &products[j];
            proof {
                assert(cloned(entry_of(self.products@, pids@[j as int]), products@[j as int]));
                assert(products@[j as int] == entry_of(self.products@, line._id));
            }
            let ci = match find_index(&self.categories, p.category_id) {
                Some(i) => i,
                None => {
                    proof {
                        let jf = j as int;
                        assert(self.cat_missing_at(*o, jf));
                        let jj = choose|jj: int|
                            0 <= jj < o.products@.len() && self.cat_missing_at(*o, jj) && (forall|
                                k: int,
                            |
                                0 <= k < jj ==> !self.cat_missing_at(*o, k));
                        assert(0 <= jj < o.products@.len() && self.cat_missing_at(*o, jj) && (
                        forall|k: int| 0 <= k < jj ==> !self.cat_missing_at(*o, k)));
                        if jj < jf {
                            assert(!self.cat_missing_at(*o, jj));
                        } else if jf < jj {
                            assert(!self.cat_missing_at(*o, jf));
                        }
                        assert(jj == jf);
                        assert(self.first_missing_cat(*o) == p.category_id);
                    }
                    return Err(RepoError::IdNotFound(p.category_id));
                },
            };
            proof {
                lemma_unique_entry(self.categories@, ci as int);
            }
            views.push(
                ProductInOrder {
                    _id: line.id(),
                    name: p.name.clone(),
                    price: p.price,
                    category: self.categories[ci].clone(),
                    quantity: line.quantity,
                },
            );
            j = j + 1;
        }
        proof {
            assert forall|k: int| 0 <= k < o.products@.len() implies (#[trigger] views@[k]).price
                == entry_of(self.products@, o.products@[k]._id).price && views@[k].quantity
                == o.products@[k].quantity by {
                assert(views@[k] == self.line_view(o.products@[k]));
            }
            lemma_view_sum_as_order_sum(self.products@, o.products@, views@);
        }
        let mut sum: u64 = 0;
        let mut j: usize = 0;
        while j < views.len()
            invariant
                j <= views@.len(),
                sum as int == view_sum(views@.take(j as int)),
            decreases views@.len() - j,
        {
            proof {
                assert(views@.take(j + 1).drop_last() =~= views@.take(j as int));
            }
            let v = &views[j];
            let amount = match v.price.checked_mul(v.quantity) {
                Some(a) => a,
                None => {
                    proof {
                        lemma_view_sum_nonneg(views@.take(j as int));
                        lemma_view_sum_prefix(views@, j + 1);
                    }
                    return Err(RepoError::OutOfRange);
                },
            };
            let s2 = match sum.checked_add(amount) {
                Some(s) => s,
                None => {
                    proof {
                        lemma_view_sum_prefix(views@, j + 1);
                    }
                    return Err(RepoError::OutOfRange);
                },
            };
            sum = s2;
            j = j + 1;
        }
        proof {
            assert(views@.take(views@.len() as int) =~= views@);
        }
        Ok(
            OrderAPI {
                _id: o.id(),
                waiter,
                table,
                products: views,
                sum,
                created_at: o.created_at,
            },
        )
    }
}

/// The identifiers of the orders owned by waiter `wid`, in scan order.
pub open spec fn orders_of_waiter(orders: Seq<Order>, wid: u128) -> Seq<u128>
    decreases orders.len(),
{
    if orders.len() == 0 {
        Seq::empty()
    } else {
        let rest = orders_of_waiter(orders.drop_last(), wid);
        if orders.last().waiter_id == wid {
            rest.push(orders.last()._id)
        } else {
            rest
        }
    }
}

/// The identifiers of the orders placed at table `tid`, in scan order.
pub open spec fn orders_of_table(orders: Seq<Order>, tid: u128) -> Seq<u128>
    decreases orders.len(),
{
    if orders.len() == 0 {
        Seq::empty()
    } else {
        let rest = orders_of_table(orders.drop_last(), tid);
        if orders.last().table_id == tid {
            rest.push(orders.last()._id)
        } else {
            rest
        }
    }
}

/// The line list after adding one unit of product `pid`: the existing
/// line's quantity grows by one, or a fresh line with quantity one is
/// appended.
pub open spec fn lines_with_added(lines: Seq<ProductIdWithQuantity>, pid: u128) -> Seq<
    ProductIdWithQuantity,
> {
    if has_id(lines, pid) {
        let i = idx_of(lines, pid);
        lines.update(
            i,
            ProductIdWithQuantity { _id: pid, quantity: (lines[i].quantity + 1) as u64 },
        )
    } else {
        lines.push(ProductIdWithQuantity { _id: pid, quantity: 1 })
    }
}

/// The line list after removing one unit of product `pid`, with pruning:
/// a line at quantity one disappears, a heavier line is decremented, and
/// an absent line leaves the list untouched.
pub open spec fn lines_with_removed(lines: Seq<ProductIdWithQuantity>, pid: u128) -> Seq<
    ProductIdWithQuantity,
> {
    if has_id(lines, pid) {
        let i = idx_of(lines, pid);
        if lines[i].quantity <= 1 {
            lines.remove(i)
        } else {
            lines.update(
                i,
                ProductIdWithQuantity { _id: pid, quantity: (lines[i].quantity - 1) as u64 },
            )
        }
    } else {
        lines
    }
}

/// Adding the same product twice to a line list with no prior line for it
/// yields exactly one line for that product, carrying quantity 2, and
/// leaves every other line untouched.
pub proof fn lemma_add_twice_single_line(lines: Seq<ProductIdWithQuantity>, pid: u128)
    requires
        !has_id(lines, pid),
    ensures
        ({
            let after = lines_with_added(lines_with_added(lines, pid), pid);
            &&& after.len() == lines.len() + 1
            &&& after[lines.len() as int] == (ProductIdWithQuantity { _id: pid, quantity: 2 })
            &&& forall|i: int| 0 <= i < lines.len() ==> after[i] == lines[i]
        }),
{
    let once = lines_with_added(lines, pid);
    assert(once == lines.push(ProductIdWithQuantity { _id: pid, quantity: 1 }));
    assert(once[lines.len() as int].entity_id() == pid);
    assert(has_id(once, pid));
    let i = idx_of(once, pid);
    assert(0 <= i < once.len() && once[i].entity_id() == pid);
    if i < lines.len() {
        assert(lines[i].entity_id() == pid);
        assert(has_id(lines, pid));
    }
    assert(i == lines.len());
}

/// Removing a product whose line quantity is 1 from a well-formed line
/// list leaves that line absent afterward (not present with quantity 0),
/// and leaves every other line untouched.
pub proof fn lemma_remove_last_unit_prunes(lines: Seq<ProductIdWithQuantity>, pid: u128)
    requires
        forall|i: int, j: int| 0 <= i < j < lines.len() ==> lines[i]._id != lines[j]._id,
        has_id(lines, pid),
        entry_of(lines, pid).quantity == 1,
    ensures
        ({
            let after = lines_with_removed(lines, pid);
            &&& !has_id(after, pid)
            &&& after.len() == lines.len() - 1
            &&& after == lines.remove(idx_of(lines, pid))
        }),
{
    let i = idx_of(lines, pid);
    assert(0 <= i < lines.len() && lines[i].entity_id() == pid);
    let after = lines_with_removed(lines, pid);
    assert(after == lines.remove(i));
    assert forall|p: int| 0 <= p < after.len() implies (#[trigger] after[p].entity_id())
        != pid by {
        assert(after[p] == if p < i {
            lines[p]
        } else {
            lines[p + 1]
        });
        if p < i {
            assert(lines[p]._id != lines[i]._id);
        } else {
            assert(lines[i]._id != lines[p + 1]._id);
        }
    }
}

/// Copy a line list element by element.
fn copy_lines(lines: &Vec<ProductIdWithQuantity>) -> (r: Vec<ProductIdWithQuantity>)
    ensures
        r@ == lines@,
{
    let mut r: Vec<ProductIdWithQuantity> = Vec::new();
    let mut i: usize = 0;
    while i < lines.len()
        invariant
            i <= lines@.len(),
            r@ =~= lines@.take(i as int),
        decreases lines@.len() - i,
    {
        r.push(lines[i]);
        i = i + 1;
    }
    proof {
        assert(lines@.take(lines@.len() as int) =~= lines@);
    }
    r
}

impl Repository {
    /// The collections a line mutation never touches.
    pub open spec fn same_refs(&self, other: &Repository) -> bool {
        &&& self.waiters == other.waiters
        &&& self.tables == other.tables
        &&& self.categories == other.categories
        &&& self.products == other.products
    }

    /// Compose the view of every order, in scan order. Each view is
    /// composed independently; the first failing composition aborts the
    /// whole listing.
    #[verifier::loop_isolation(false)]
    pub fn query_all_orders_api(&self) -> (r: Result<Vec<OrderAPI>, RepoError>)
        requires
            self.inv(),
        ensures
            match r {
                Ok(res) => res@.len() == self.orders@.len() && (forall|k: int|
                    0 <= k < self.orders@.len() ==> self.compose_ok(
                        (#[trigger] self.orders@[k])._id,
                    ) && self.view_of(self.orders@[k]._id, res@[k])),
                Err(e) => exists|k: int|
                    0 <= k < self.orders@.len() && !self.compose_ok(
                        (#[trigger] self.orders@[k])._id,
                    ) && (forall|j: int|
                        0 <= j < k ==> self.compose_ok((#[trigger] self.orders@[j])._id)) && e@
                        == self.compose_err(self.orders@[k]._id),
            },
    {
        let mut res: Vec<OrderAPI> = Vec::new();
        let mut i: usize = 0;
        while i < self.orders.len()
            invariant
                i <= self.orders@.len(),
                res@.len() == i,
                forall|j: int|
                    0 <= j < i ==> self.compose_ok((#[trigger] self.orders@[j])._id)
                        && self.view_of(self.orders@[j]._id, res@[j]),
            decreases self.orders@.len() - i,
        {
            let oid = self.orders[i].id();
            match self.query_order_api(&oid) {
                Ok(v) => {
                    res.push(v);
                },
                Err(e) => {
                    return Err(e);
                },
            }
            i = i + 1;
        }
        Ok(res)
    }

    /// Compose the views of the orders owned by one waiter, in scan order.
    #[verifier::loop_isolation(false)]
    pub fn query_orders_by_waiter(&self, id: &u128) -> (r: Result<Vec<OrderAPI>, RepoError>)
        requires
            self.inv(),
        ensures
            match r {
                Ok(res) => res@.len() == orders_of_waiter(self.orders@, *id).len() && (forall|
                    k: int,
                |
                    0 <= k < orders_of_waiter(self.orders@, *id).len() ==> self.compose_ok(
                        #[trigger] orders_of_waiter(self.orders@, *id)[k],
                    ) && self.view_of(orders_of_waiter(self.orders@, *id)[k], res@[k])),
                Err(e) => exists|k: int|
                    0 <= k < orders_of_waiter(self.orders@, *id).len() && !self.compose_ok(
                        #[trigger] orders_of_waiter(self.orders@, *id)[k],
                    ) && (forall|j: int|
                        0 <= j < k ==> self.compose_ok(orders_of_waiter(self.orders@, *id)[j]))
                        && e@ == self.compose_err(orders_of_waiter(self.orders@, *id)[k]),
            },
    {
        let mut sel: Vec<u128> = Vec::new();
        let mut i: usize = 0;
        while i < self.orders.len()
            invariant
                i <= self.orders@.len(),
                sel@ == orders_of_waiter(self.orders@.take(i as int), *id),
            decreases self.orders@.len() - i,
        {
            proof {
                assert(self.orders@.take(i + 1).drop_last() =~= self.orders@.take(i as int));
            }
            if self.orders[i].waiter_id == *id {
                sel.push(self.orders[i].id());
            }
            i = i + 1;
        }
        proof {
            assert(self.orders@.take(self.orders@.len() as int) =~= self.orders@);
        }
        self.compose_selection(&sel)
    }

    /// Compose the views of the orders placed at one table, in scan order.
    #[verifier::loop_isolation(false)]
    pub fn query_orders_by_table(&self, id: &u128) -> (r: Result<Vec<OrderAPI>, RepoError>)
        requires
            self.inv(),
        ensures
            match r {
                Ok(res) => res@.len() == orders_of_table(self.orders@, *id).len() && (forall|
                    k: int,
                |
                    0 <= k < orders_of_table(self.orders@, *id).len() ==> self.compose_ok(
                        #[trigger] orders_of_table(self.orders@, *id)[k],
                    ) && self.view_of(orders_of_table(self.orders@, *id)[k], res@[k])),
                Err(e) => exists|k: int|
                    0 <= k < orders_of_table(self.orders@, *id).len() && !self.compose_ok(
                        #[trigger] orders_of_table(self.orders@, *id)[k],
                    ) && (forall|j: int|
                        0 <= j < k ==> self.compose_ok(orders_of_table(self.orders@, *id)[j]))
                        && e@ == self.compose_err(orders_of_table(self.orders@, *id)[k]),
            },
    {
        let mut sel: Vec<u128> = Vec::new();
        let mut i: usize = 0;
        while i < self.orders.len()
            invariant
                i <= self.orders@.len(),
                sel@ == orders_of_table(self.orders@.take(i as int), *id),
            decreases self.orders@.len() - i,
        {
            proof {
                assert(self.orders@.take(i + 1).drop_last() =~= self.orders@.take(i as int));
            }
            if self.orders[i].table_id == *id {
                sel.push(self.orders[i].id());
            }
            i = i + 1;
        }
        proof {
            assert(self.orders@.take(self.orders@.len() as int) =~= self.orders@);
        }
        self.compose_selection(&sel)
    }

    /// Compose the view of each selected order, in selection order; the
    /// first failing composition aborts the listing.
    #[verifier::loop_isolation(false)]
    fn compose_selection(&self, sel: &Vec<u128>) -> (r: Result<Vec<OrderAPI>, RepoError>)
        requires
            self.inv(),
        ensures
            match r {
                Ok(res) => res@.len() == sel@.len() && (forall|k: int|
                    0 <= k < sel@.len() ==> self.compose_ok(#[trigger] sel@[k]) && self.view_of(
                        sel@[k],
                        res@[k],
                    )),
                Err(e) => exists|k: int|
                    0 <= k < sel@.len() && !self.compose_ok(#[trigger] sel@[k]) && (forall|j: int|
                        0 <= j < k ==> self.compose_ok(sel@[j])) && e@ == self.compose_err(
                        sel@[k],
                    ),
            },
    {
        let mut res: Vec<OrderAPI> = Vec::new();
        let mut i: usize = 0;
        while i < sel.len()
            invariant
                i <= sel@.len(),
                res@.len() == i,
                forall|j: int|
                    0 <= j < i ==> self.compose_ok(#[trigger] sel@[j]) && self.view_of(
                        sel@[j],
                        res@[j],
                    ),
            decreases sel@.len() - i,
        {
            let oid = sel[i];
            match self.query_order_api(&oid) {
                Ok(v) => {
                    res.push(v);
                },
                Err(e) => {
                    return Err(e);
                },
            }
            i = i + 1;
        }
        Ok(res)
    }
}

impl Repository {
    /// Add one unit of `product_id` to order `id`: increment the existing
    /// line, or append a fresh line with quantity 1, then compose and
    /// return the order's view. A missing order mutates nothing and
    /// surfaces the composition error; a line already at the maximum
    /// representable quantity is refused and mutates nothing.
    pub fn order_add_product(&mut self, id: &u128, product_id: &u128) -> (r: Result<
        OrderAPI,
        RepoError,
    >)
        requires
            old(self).inv(),
        ensures
            final(self).inv(),
            final(self).same_refs(old(self)),
            ({
                let orders0 = old(self).orders@;
                if !has_id(orders0, *id) {
                    final(self).orders@ == orders0 && final(self).composes_to(*id, r)
                } else {
                    let k = idx_of(orders0, *id);
                    let lines0 = orders0[k].products@;
                    if has_id(lines0, *product_id) && entry_of(lines0, *product_id).quantity
                        == u64::MAX {
                        final(self).orders@ == orders0 && (r matches Err(e) && e@
                            == RepoErrorModel::OutOfRange)
                    } else {
                        &&& final(self).orders@.len() == orders0.len()
                        &&& (forall|j: int|
                            0 <= j < orders0.len() && j != k
                                ==> (#[trigger] final(self).orders@[j]) == orders0[j])
                        &&& final(self).orders@[k]._id == orders0[k]._id
                        &&& final(self).orders@[k].waiter_id == orders0[k].waiter_id
                        &&& final(self).orders@[k].table_id == orders0[k].table_id
                        &&& final(self).orders@[k].created_at == orders0[k].created_at
                        &&& final(self).orders@[k].products@ == lines_with_added(
                            lines0,
                            *product_id,
                        )
                        &&& final(self).composes_to(*id, r)
                    }
                }
            }),
    {
        let oi = match find_index(&self.orders, *id) {
            Some(i) => i,
            None => {
                return self.query_order_api(id);
            },
        };
        proof {
            lemma_unique_entry(self.orders@, oi as int);
        }
        let ghost lines0 = self.orders@[oi as int].products@;
        let li = find_index(&self.orders[oi].products, *product_id);
        let mut new_lines = copy_lines(&self.orders[oi].products);
        match li {
            Some(l) => {
                proof {
                    lemma_unique_entry(lines0, l as int);
                }
                let q = self.orders[oi].products[l].quantity;
                if q == u64::MAX {
                    return Err(RepoError::OutOfRange);
                }
                new_lines.set(l, ProductIdWithQuantity { _id: *product_id, quantity: q + 1 });
            },
            None => {
                new_lines.push(ProductIdWithQuantity { _id: *product_id, quantity: 1 });
            },
        }
        proof {
            assert(new_lines@ == lines_with_added(lines0, *product_id));
        }
        let o_id = self.orders[oi].id();
        let o_waiter = self.orders[oi].waiter_id;
        let o_table = self.orders[oi].table_id;
        let o_created = self.orders[oi].created_at;
        let new_order = Order {
            _id: o_id,
            waiter_id: o_waiter,
            table_id: o_table,
            products: new_lines,
            created_at: o_created,
        };
        self.orders.set(oi, new_order);
        proof {
            assert forall|p: int| 0 <= p < self.orders@.len() implies (#[trigger] self.orders@[p].entity_id())
                == old(self).orders@[p].entity_id() by {}
            assert forall|p: int| 0 <= p < self.orders@.len() implies (#[trigger] self.orders@[p]).lines_wf() by {
                if p == oi {
                    let nl = self.orders@[p].products@;
                    if has_id(lines0, *product_id) {
                        let l = idx_of(lines0, *product_id);
                        assert(forall|i: int|
                            0 <= i < nl.len() ==> (#[trigger] nl[i])._id == lines0[i]._id);
                        assert(forall|i: int|
                            0 <= i < nl.len() ==> (#[trigger] nl[i]).quantity >= lines0[i].quantity);
                    } else {
                        assert(forall|i: int|
                            0 <= i < lines0.len() ==> (#[trigger] lines0[i]).entity_id()
                                != *product_id);
                        assert(forall|i: int|
                            0 <= i < nl.len() - 1 ==> (#[trigger] nl[i]) == lines0[i]);
                    }
                } else {
                    assert(self.orders@[p] == old(self).orders@[p]);
                }
            }
            assert(self.inv());
        }
        self.query_order_api(id)
    }

    /// Remove one unit of `product_id` from order `id`: decrement the
    /// matching line and prune it when its quantity reaches zero, then
    /// compose and return the order's view. A missing order or line
    /// mutates nothing; the composition error, if any, still surfaces.
    pub fn order_remove_product(&mut self, id: &u128, product_id: &u128) -> (r: Result<
        OrderAPI,
        RepoError,
    >)
        requires
            old(self).inv(),
        ensures
            final(self).inv(),
            final(self).same_refs(old(self)),
            final(self).composes_to(*id, r),
            ({
                let orders0 = old(self).orders@;
                if !has_id(orders0, *id) {
                    final(self).orders@ == orders0
                } else {
                    let k = idx_of(orders0, *id);
                    let lines0 = orders0[k].products@;
                    &&& final(self).orders@.len() == orders0.len()
                    &&& (forall|j: int|
                        0 <= j < orders0.len() && j != k ==> (#[trigger] final(self).orders@[j])
                            == orders0[j])
                    &&& final(self).orders@[k]._id == orders0[k]._id
                    &&& final(self).orders@[k].waiter_id == orders0[k].waiter_id
                    &&& final(self).orders@[k].table_id == orders0[k].table_id
                    &&& final(self).orders@[k].created_at == orders0[k].created_at
                    &&& final(self).orders@[k].products@ == lines_with_removed(
                        lines0,
                        *product_id,
                    )
                }
            }),
    {
        let oi = match find_index(&self.orders, *id) {
            Some(i) => i,
            None => {
                return self.query_order_api(id);
            },
        };
        proof {
            lemma_unique_entry(self.orders@, oi as int);
        }
        let ghost lines0 = self.orders@[oi as int].products@;
        let li = match find_index(&self.orders[oi].products, *product_id) {
            Some(l) => l,
            None => {
                return self.query_order_api(id);
            },
        };
        proof {
            lemma_unique_entry(lines0, li as int);
        }
        let mut new_lines = copy_lines(&self.orders[oi].products);
        let q = self.orders[oi].products[li].quantity;
        if q <= 1 {
            new_lines.remove(li);
        } else {
            new_lines.set(li, ProductIdWithQuantity { _id: *product_id, quantity: q - 1 });
        }
        proof {
            assert(new_lines@ == lines_with_removed(lines0, *product_id));
        }
        let o_id = self.orders[oi].id();
        let o_waiter = self.orders[oi].waiter_id;
        let o_table = self.orders[oi].table_id;
        let o_created = self.orders[oi].created_at;
        let new_order = Order {
            _id: o_id,
            waiter_id: o_waiter,
            table_id: o_table,
            products: new_lines,
            created_at: o_created,
        };
        self.orders.set(oi, new_order);
        proof {
            assert forall|p: int| 0 <= p < self.orders@.len() implies (#[trigger] self.orders@[p].entity_id())
                == old(self).orders@[p].entity_id() by {}
            assert forall|p: int| 0 <= p < self.orders@.len() implies (#[trigger] self.orders@[p]).lines_wf() by {
                if p == oi {
                    let nl = self.orders@[p].products@;
                    if q <= 1 {
                        assert forall|i: int, j: int| 0 <= i < j < nl.len() implies (
                        #[trigger] nl[i])._id != (#[trigger] nl[j])._id by {
                            assert(nl[i] == if i < li {
                                lines0[i]
                            } else {
                                lines0[i + 1]
                            });
                            assert(nl[j] == if j < li {
                                lines0[j]
                            } else {
                                lines0[j + 1]
                            });
                        }
                        assert forall|i: int| 0 <= i < nl.len() implies (#[trigger] nl[i]).quantity
                            >= 1 by {
                            assert(nl[i] == if i < li {
                                lines0[i]
                            } else {
                                lines0[i + 1]
                            });
                        }
                    } else {
                        assert(forall|i: int|
                            0 <= i < nl.len() ==> (#[trigger] nl[i])._id == lines0[i]._id);
                    }
                } else {
                    assert(self.orders@[p] == old(self).orders@[p]);
                }
            }
            assert(self.inv());
        }
        self.query_order_api(id)
    }
}

/// A value that never occurs has occurrence count zero.
pub proof fn lemma_count_of_zero(s: Seq<u128>, k: u128)
    requires
        !s.contains(k),
    ensures
        count_of(s, k) == 0,
    decreases s.len(),
{
    if s.len() > 0 {
        assert(forall|i: int| 0 <= i < s.len() - 1 ==> s.drop_last()[i] == #[trigger] s[i]);
        assert(!s.drop_last().contains(k));
        lemma_count_of_zero(s.drop_last(), k);
        assert(s.last() != k);
    }
}

} // verus!
