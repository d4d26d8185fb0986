//! The cart manager: a single shared mapping from product id to cart
//! line, mutated only through `add`, `set_quantity` and `clear`, and
//! read through `snapshot`. Every line's total is the unit price times
//! the quantity, product ids are unique, and the subtotal always fits
//! in `u32`.

use vstd::prelude::*;
use vstd::arithmetic::mul::lemma_mul_is_distributive_add;
use crate::catalog::{cat_name, cat_price, cat_stock, get_product_by_id, in_catalog, lemma_cat_price_positive};
use crate::errors::StoreError;

verus! {

/// One product's aggregated quantity and computed subtotal within the
/// cart. `line_total_cents` is denormalized and recomputed on every
/// mutation, never trusted from input.
pub struct CartItem {
    pub product_id: u32,
    pub name: String,
    pub unit_price_cents: u32,
    pub qty: u32,
    pub line_total_cents: u32,
}

impl CartItem {
    /// The line's total: unit price times quantity.
    pub fn line_total(&self) -> (r: u32)
        requires
            self.unit_price_cents * self.qty <= u32::MAX,
        ensures
            r == self.unit_price_cents * self.qty,
    {
        self.unit_price_cents * self.qty
    }
}

/// A well-formed cart line: positive quantity, data taken from the
/// catalog, and a consistent denormalized total.
pub open spec fn line_wf(it: CartItem) -> bool {
    &&& it.qty > 0
    &&& in_catalog(it.product_id)
    &&& it.unit_price_cents == cat_price(it.product_id)
    &&& it.name@ == cat_name(it.product_id)
    &&& it.line_total_cents == it.unit_price_cents * it.qty
}

/// The first line with the given product id, if any.
pub open spec fn find_line(s: Seq<CartItem>, pid: u32) -> Option<CartItem>
    decreases s.len(),
{
    if s.len() == 0 {
        None
    } else if s[0].product_id == pid {
        Some(s[0])
    } else {
        find_line(s.subrange(1, s.len() as int), pid)
    }
}

/// The sum of the lines' totals, in cents.
pub open spec fn subtotal_of(s: Seq<CartItem>) -> int
    decreases s.len(),
{
    if s.len() == 0 {
        0
    } else {
        s[0].line_total_cents + subtotal_of(s.subrange(1, s.len() as int))
    }
}

/// No two lines share a product id.
pub open spec fn unique_ids(s: Seq<CartItem>) -> bool {
    forall|i: int, j: int| 0 <= i < j < s.len() ==> s[i].product_id != s[j].product_id
}

/// The cart invariant.
pub open spec fn cart_inv(s: Seq<CartItem>) -> bool {
    &&& forall|i: int| 0 <= i < s.len() ==> line_wf(#[trigger] s[i])
    &&& unique_ids(s)
    &&& subtotal_of(s) <= u32::MAX
}

/// The quantity already in the cart for a product id; zero if absent.
pub open spec fn prev_qty(s: Seq<CartItem>, pid: u32) -> int {
    match find_line(s, pid) {
        Some(l) => l.qty as int,
        None => 0,
    }
}

/// The line total already in the cart for a product id; zero if absent.
pub open spec fn prev_line_total(s: Seq<CartItem>, pid: u32) -> int {
    match find_line(s, pid) {
        Some(l) => l.line_total_cents as int,
        None => 0,
    }
}

/// Whether `a` carries the same data as `b`, field by field.
pub open spec fn item_matches(a: CartItem, b: CartItem) -> bool {
    &&& a.product_id == b.product_id
    &&& a.name@ == b.name@
    &&& a.unit_price_cents == b.unit_price_cents
    &&& a.qty == b.qty
    &&& a.line_total_cents == b.line_total_cents
}

proof fn lemma_find_props(s: Seq<CartItem>, q: u32)
    ensures
        match find_line(s, q) {
            Some(l) => l.product_id == q && exists|i: int| 0 <= i < s.len() && s[i] == l,
            None => forall|i: int| 0 <= i < s.len() ==> s[i].product_id != q,
        },
    decreases s.len(),
{
    if s.len() == 0 {
    } else if s[0].product_id == q {
        assert(0 <= 0 < s.len() && s[0] == find_line(s, q).unwrap());
    } else {
        let t = s.subrange(1, s.len() as int);
        lemma_find_props(t, q);
        match find_line(t, q) {
            Some(l) => {
                let i = choose|i: int| 0 <= i < t.len() && t[i] == l;
                assert(s[i + 1] == l);
            },
            None => {
                assert forall|i: int| 0 <= i < s.len() implies s[i].product_id != q by {
                    if i >= 1 {
                        assert(t[i - 1] == s[i]);
                    }
                }
            },
        }
    }
}

proof fn lemma_find_at(s: Seq<CartItem>, i: int)
    requires
        unique_ids(s),
        0 <= i < s.len(),
    ensures
        find_line(s, s[i].product_id) == Some(s[i]),
    decreases s.len(),
{
    if i > 0 {
        let t = s.subrange(1, s.len() as int);
        assert forall|a: int, b: int| 0 <= a < b < t.len() implies t[a].product_id
            != t[b].product_id by {
            assert(t[a] == s[a + 1] && t[b] == s[b + 1]);
        }
        assert(t[i - 1] == s[i]);
        lemma_find_at(t, i - 1);
    }
}

proof fn lemma_find_update_other(s: Seq<CartItem>, i: int, v: CartItem, q: u32)
    requires
        0 <= i < s.len(),
        v.product_id == s[i].product_id,
        q != v.product_id,
    ensures
        find_line(s.update(i, v), q) == find_line(s, q),
    decreases s.len(),
{
    let s2 = s.update(i, v);
    if i == 0 {
        assert(s2.subrange(1, s2.len() as int) =~= s.subrange(1, s.len() as int));
    } else {
        assert(s2[0] == s[0]);
        if s[0].product_id != q {
            assert(s2.subrange(1, s2.len() as int) =~= s.subrange(1, s.len() as int).update(
                i - 1,
                v,
            ));
            lemma_find_update_other(s.subrange(1, s.len() as int), i - 1, v, q);
        }
    }
}

proof fn lemma_subtotal_update(s: Seq<CartItem>, i: int, v: CartItem)
    requires
        0 <= i < s.len(),
    ensures
        subtotal_of(s.update(i, v)) == subtotal_of(s) - s[i].line_total_cents
            + v.line_total_cents,
    decreases s.len(),
{
    let s2 = s.update(i, v);
    if i == 0 {
        assert(s2.subrange(1, s2.len() as int) =~= s.subrange(1, s.len() as int));
    } else {
        assert(s2[0] == s[0]);
        assert(s2.subrange(1, s2.len() as int) =~= s.subrange(1, s.len() as int).update(
            i - 1,
            v,
        ));
        lemma_subtotal_update(s.subrange(1, s.len() as int), i - 1, v);
    }
}

proof fn lemma_subtotal_push(s: Seq<CartItem>, v: CartItem)
    ensures
        subtotal_of(s.push(v)) == subtotal_of(s) + v.line_total_cents,
    decreases s.len(),
{
    let s2 = s.push(v);
    if s.len() == 0 {
        assert(s2.subrange(1, s2.len() as int) =~= Seq::<CartItem>::empty());
        assert(subtotal_of(Seq::<CartItem>::empty()) == 0);
        assert(s2[0] == v);
    } else {
        assert(s2[0] == s[0]);
        assert(s2.subrange(1, s2.len() as int) =~= s.subrange(1, s.len() as int).push(v));
        lemma_subtotal_push(s.subrange(1, s.len() as int), v);
    }
}

proof fn lemma_find_push(s: Seq<CartItem>, v: CartItem, q: u32)
    ensures
        find_line(s.push(v), q) == (if find_line(s, q) is Some {
            find_line(s, q)
        } else if v.product_id == q {
            Some(v)
        } else {
            None::<CartItem>
        }),
    decreases s.len(),
{
    let s2 = s.push(v);
    if s.len() == 0 {
        assert(s2.subrange(1, s2.len() as int) =~= Seq::<CartItem>::empty());
        assert(find_line(Seq::<CartItem>::empty(), q) is None);
        assert(s2[0] == v);
    } else {
        assert(s2[0] == s[0]);
        assert(s2.subrange(1, s2.len() as int) =~= s.subrange(1, s.len() as int).push(v));
        lemma_find_push(s.subrange(1, s.len() as int), v, q);
    }
}

proof fn lemma_subtotal_remove(s: Seq<CartItem>, i: int)
    requires
        0 <= i < s.len(),
    ensures
        subtotal_of(s.remove(i)) == subtotal_of(s) - s[i].line_total_cents,
    decreases s.len(),
{
    let s2 = s.remove(i);
    if i == 0 {
        assert(s2 =~= s.subrange(1, s.len() as int));
    } else {
        assert(s2[0] == s[0]);
        assert(s2.subrange(1, s2.len() as int) =~= s.subrange(1, s.len() as int).remove(i - 1));
        lemma_subtotal_remove(s.subrange(1, s.len() as int), i - 1);
    }
}

proof fn lemma_find_remove(s: Seq<CartItem>, i: int, q: u32)
    requires
        unique_ids(s),
        0 <= i < s.len(),
    ensures
        find_line(s.remove(i), q) == (if s[i].product_id == q {
            None::<CartItem>
        } else {
            find_line(s, q)
        }),
    decreases s.len(),
{
    let s2 = s.remove(i);
    let t = s.subrange(1, s.len() as int);
    assert forall|a: int, b: int| 0 <= a < b < t.len() implies t[a].product_id
        != t[b].product_id by {
        assert(t[a] == s[a + 1] && t[b] == s[b + 1]);
    }
    if i == 0 {
        assert(s2 =~= t);
        if s[0].product_id == q {
            lemma_find_props(t, q);
            if find_line(t, q) is Some {
                let l = find_line(t, q).unwrap();
                let j = choose|j: int| 0 <= j < t.len() && t[j] == l;
                assert(s[j + 1] == l);
                assert(false);
            }
        }
    } else {
        assert(s2[0] == s[0]);
        if s[0].product_id == q {
            assert(s[i].product_id != q);
        } else {
            assert(s2.subrange(1, s2.len() as int) =~= t.remove(i - 1));
            assert(t[i - 1] == s[i]);
            lemma_find_remove(t, i - 1, q);
        }
    }
}

proof fn lemma_subtotal_nonneg(s: Seq<CartItem>)
    ensures
        subtotal_of(s) >= 0,
    decreases s.len(),
{
    if s.len() > 0 {
        lemma_subtotal_nonneg(s.subrange(1, s.len() as int));
    }
}

proof fn lemma_subtotal_line_bound(s: Seq<CartItem>, i: int)
    requires
        0 <= i < s.len(),
    ensures
        s[i].line_total_cents <= subtotal_of(s),
    decreases s.len(),
{
    let t = s.subrange(1, s.len() as int);
    if i == 0 {
        lemma_subtotal_nonneg(t);
    } else {
        assert(t[i - 1] == s[i]);
        lemma_subtotal_line_bound(t, i - 1);
    }
}

proof fn lemma_subtotal_prefix(s: Seq<CartItem>, k: int)
    requires
        0 <= k <= s.len(),
    ensures
        subtotal_of(s.subrange(0, k)) <= subtotal_of(s),
    decreases s.len() - k,
{
    if k == s.len() {
        assert(s.subrange(0, k) =~= s);
    } else {
        assert(s.subrange(0, k + 1) =~= s.subrange(0, k).push(s[k]));
        lemma_subtotal_push(s.subrange(0, k), s[k]);
        lemma_subtotal_prefix(s, k + 1);
    }
}

/// Adding the same product in two successive successful `add` calls
/// accumulates: starting from a cart without the line, the resulting
/// line total is the unit price times the summed quantity.
pub proof fn lemma_line_total_accumulates(
    s0: Seq<CartItem>,
    s1: Seq<CartItem>,
    s2: Seq<CartItem>,
    pid: u32,
    qty1: u32,
    qty2: u32,
)
    requires
        find_line(s0, pid) is None,
        find_line(s1, pid) matches Some(l) && l.qty == prev_qty(s0, pid) + qty1
            && l.line_total_cents == cat_price(pid) * (prev_qty(s0, pid) + qty1),
        find_line(s2, pid) matches Some(l) && l.qty == prev_qty(s1, pid) + qty2
            && l.line_total_cents == cat_price(pid) * (prev_qty(s1, pid) + qty2),
    ensures
        find_line(s2, pid) matches Some(l) && l.line_total_cents == cat_price(pid) * (qty1
            + qty2),
{
}

/// A removed line is gone from every later read: once no line carries
/// the product id, no position of the cart — and so no position of a
/// snapshot, which copies the cart line for line — holds it.
pub proof fn lemma_absent_line_excluded(s: Seq<CartItem>, pid: u32)
    requires
        find_line(s, pid) is None,
    ensures
        forall|i: int| 0 <= i < s.len() ==> (#[trigger] s[i]).product_id != pid,
{
    lemma_find_props(s, pid);
}

/// The process-wide shared cart: product id to line, one line per id.
pub struct Cart {
    items: Vec<CartItem>,
}

/// A read-only copy of the cart: its lines, the subtotal, and a fixed
/// zero shipping cost.
pub struct CartSummary {
    pub items: Vec<CartItem>,
    pub subtotal_cents: u32,
    pub shipping_cents: u32,
    pub total_cents: u32,
}

impl View for Cart {
    type V = Seq<CartItem>;

    closed spec fn view(&self) -> Seq<CartItem> {
        self.items@
    }
}

impl Cart {
    pub open spec fn wf(&self) -> bool {
        cart_inv(self@)
    }

    /// An empty cart.
    pub fn new() -> (r: Cart)
        ensures
            r@.len() == 0,
            r.wf(),
    {
        Cart { items: Vec::new() }
    }

    pub fn is_empty(&self) -> (r: bool)
        ensures
            r == (self@.len() == 0),
    {
        self.items.len() == 0
    }

    /// Adds `qty` units of a product: increments the existing line or
    /// inserts a new one, recomputing the line total either way.
    /// Rejects a zero quantity, an unknown product, and a quantity
    /// above the catalog's stock ceiling.
    pub fn add(&mut self, product_id: u32, qty: u32) -> (r: Result<(), StoreError>)
        requires
            old(self).wf(),
            subtotal_of(old(self)@) + cat_price(product_id) * qty <= u32::MAX,
        ensures
            final(self).wf(),
            r == (if qty == 0 {
                Err::<(), StoreError>(StoreError::InvalidInput)
            } else if !in_catalog(product_id) {
                Err::<(), StoreError>(StoreError::NotFound)
            } else if qty > cat_stock(product_id) {
                Err::<(), StoreError>(StoreError::InsufficientStock)
            } else {
                Ok::<(), StoreError>(())
            }),
            r is Err ==> final(self)@ == old(self)@,
            r is Ok ==> (find_line(final(self)@, product_id) matches Some(l) && l.qty == prev_qty(
                old(self)@,
                product_id,
            ) + qty && l.unit_price_cents == cat_price(product_id) && l.name@ == cat_name(
                product_id,
            ) && l.line_total_cents == cat_price(product_id) * (prev_qty(old(self)@, product_id)
                + qty)),
            r is Ok ==> forall|q: u32|
                q != product_id ==> #[trigger] find_line(final(self)@, q) == find_line(
                    old(self)@,
                    q,
                ),
            r is Ok ==> subtotal_of(final(self)@) == subtotal_of(old(self)@) + cat_price(
                product_id,
            ) * qty,
    {
        if qty == 0 {
            return Err(StoreError::InvalidInput);
        }
        let product = match get_product_by_id(product_id) {
            Some(p) => p,
            None => {
                return Err(StoreError::NotFound);
            },
        };
        if product.stock < qty {
            return Err(StoreError::InsufficientStock);
        }
        let ghost s0 = self.items@;
        let n = self.items.len();
        let mut i: usize = 0;
        while i < n
            invariant
                0 <= i <= n,
                n == self.items@.len(),
                self.items@ == s0,
                s0 == old(self)@,
                cart_inv(s0),
                subtotal_of(s0) + cat_price(product_id) * qty <= u32::MAX,
                qty > 0,
                in_catalog(product_id),
                qty <= cat_stock(product_id),
                forall|j: int| 0 <= j < i ==> s0[j].product_id != product_id,
            decreases n - i,
        {
            if self.items[i].product_id == product_id {
                proof {
                    lemma_find_at(s0, i as int);
                    lemma_subtotal_line_bound(s0, i as int);
                    lemma_cat_price_positive(product_id);
                    let p = cat_price(product_id) as int;
                    let prev = s0[i as int].qty as int;
                    lemma_mul_is_distributive_add(p, prev, qty as int);
                    assert(prev + qty <= p * (prev + qty)) by (nonlinear_arith)
                        requires
                            1 <= p,
                            0 <= prev,
                            0 <= qty,
                    ;
                }
                let new_qty = self.items[i].qty + qty;
                let new_line_total = self.items[i].unit_price_cents * new_qty;
                let updated = CartItem {
                    product_id,
                    name: self.items[i].name.clone(),
                    unit_price_cents: self.items[i].unit_price_cents,
                    qty: new_qty,
                    line_total_cents: new_line_total,
                };
                self.items[i] = updated;
                proof {
                    let s1 = self.items@;
                    let v = s1[i as int];
                    assert forall|a: int, b: int| 0 <= a < b < s1.len() implies s1[a].product_id
                        != s1[b].product_id by {
                        assert(s0[a].product_id != s0[b].product_id);
                    }
                    lemma_subtotal_update(s0, i as int, v);
                    lemma_find_at(s1, i as int);
                    assert forall|q: u32| q != product_id implies #[trigger] find_line(s1, q)
                        == find_line(s0, q) by {
                        lemma_find_update_other(s0, i as int, v, q);
                    }
                }
                return Ok(());
            }
            i += 1;
        }
        proof {
            lemma_find_props(s0, product_id);
            lemma_subtotal_nonneg(s0);
            lemma_cat_price_positive(product_id);
            let p = cat_price(product_id) as int;
            assert(qty <= p * qty) by (nonlinear_arith)
                requires
                    1 <= p,
                    0 <= qty,
            ;
        }
        let line_total = product.price_cents * qty;
        let line = CartItem {
            product_id,
            name: product.name,
            unit_price_cents: product.price_cents,
            qty,
            line_total_cents: line_total,
        };
        self.items.push(line);
        proof {
            let s1 = self.items@;
            let v = s1[s1.len() - 1];
            assert forall|a: int, b: int| 0 <= a < b < s1.len() implies s1[a].product_id
                != s1[b].product_id by {
                if b < s1.len() - 1 {
                    assert(s0[a].product_id != s0[b].product_id);
                }
            }
            lemma_subtotal_push(s0, v);
            assert forall|q: u32| true implies #[trigger] find_line(s1, q) == (if find_line(
                s0,
                q,
            ) is Some {
                find_line(s0, q)
            } else if v.product_id == q {
                Some(v)
            } else {
                None::<CartItem>
            }) by {
                lemma_find_push(s0, v, q);
            }
        }
        Ok(())
    }

    /// Overwrites a line's quantity; a zero quantity removes the line
    /// (idempotently), a positive one re-validates the catalog and
    /// stock exactly as `add` does and recomputes the line total.
    pub fn set_quantity(&mut self, product_id: u32, qty: u32) -> (r: Result<(), StoreError>)
        requires
            old(self).wf(),
            qty > 0 && in_catalog(product_id) && qty <= cat_stock(product_id)
                ==> subtotal_of(old(self)@) - prev_line_total(old(self)@, product_id) + cat_price(
                product_id,
            ) * qty <= u32::MAX,
        ensures
            final(self).wf(),
            r == (if qty == 0 {
                Ok::<(), StoreError>(())
            } else if !in_catalog(product_id) {
                Err::<(), StoreError>(StoreError::NotFound)
            } else if qty > cat_stock(product_id) {
                Err::<(), StoreError>(StoreError::InsufficientStock)
            } else if find_line(old(self)@, product_id) is None {
                Err::<(), StoreError>(StoreError::NotFound)
            } else {
                Ok::<(), StoreError>(())
            }),
            r is Err ==> final(self)@ == old(self)@,
            qty == 0 ==> find_line(final(self)@, product_id) is None,
            qty == 0 ==> subtotal_of(final(self)@) == subtotal_of(old(self)@) - prev_line_total(
                old(self)@,
                product_id,
            ),
            qty > 0 && r is Ok ==> (find_line(final(self)@, product_id) matches Some(l) && l.qty
                == qty && l.unit_price_cents == cat_price(product_id) && l.name@ == cat_name(
                product_id,
            ) && l.line_total_cents == cat_price(product_id) * qty),
            qty > 0 && r is Ok ==> subtotal_of(final(self)@) == subtotal_of(old(self)@)
                - prev_line_total(old(self)@, product_id) + cat_price(product_id) * qty,
            r is Ok ==> forall|q: u32|
                q != product_id ==> #[trigger] find_line(final(self)@, q) == find_line(
                    old(self)@,
                    q,
                ),
    {
        let ghost s0 = self.items@;
        if qty == 0 {
            let n = self.items.len();
            let mut i: usize = 0;
            while i < n
                invariant
                    0 <= i <= n,
                    n == self.items@.len(),
                    self.items@ == s0,
                    s0 == old(self)@,
                    cart_inv(s0),
                    qty == 0,
                    forall|j: int| 0 <= j < i ==> s0[j].product_id != product_id,
                decreases n - i,
            {
                if self.items[i].product_id == product_id {
                    proof {
                        lemma_find_at(s0, i as int);
                        lemma_subtotal_remove(s0, i as int);
                        lemma_subtotal_nonneg(s0.remove(i as int));
                    }
                    self.items.remove(i);
                    proof {
                        let s1 = self.items@;
                        assert forall|a: int, b: int| 0 <= a < b < s1.len() implies s1[a].product_id
                            != s1[b].product_id by {
                            let a0 = if a < i as int {
                                a
                            } else {
                                a + 1
                            };
                            let b0 = if b < i as int {
                                b
                            } else {
                                b + 1
                            };
                            assert(s1[a] == s0[a0] && s1[b] == s0[b0]);
                        }
                        assert forall|q: u32| true implies #[trigger] find_line(s1, q) == (if s0[i as int].product_id == q {
                            None::<CartItem>
                        } else {
                            find_line(s0, q)
                        }) by {
                            lemma_find_remove(s0, i as int, q);
                        }
                        assert forall|k: int| 0 <= k < s1.len() implies line_wf(
                            #[trigger] s1[k],
                        ) by {
                            let k0 = if k < i as int {
                                k
                            } else {
                                k + 1
                            };
                            assert(s1[k] == s0[k0]);
                        }
                    }
                    return Ok(());
                }
                i += 1;
            }
            proof {
                lemma_find_props(s0, product_id);
            }
            return Ok(());
        }
        let product = match get_product_by_id(product_id) {
            Some(p) => p,
            None => {
                return Err(StoreError::NotFound);
            },
        };
        if product.stock < qty {
            return Err(StoreError::InsufficientStock);
        }
        let n = self.items.len();
        let mut i: usize = 0;
        while i < n
            invariant
                0 <= i <= n,
                n == self.items@.len(),
                self.items@ == s0,
                s0 == old(self)@,
                cart_inv(s0),
                qty > 0,
                in_catalog(product_id),
                qty <= cat_stock(product_id),
                subtotal_of(s0) - prev_line_total(s0, product_id) + cat_price(product_id) * qty
                    <= u32::MAX,
                forall|j: int| 0 <= j < i ==> s0[j].product_id != product_id,
            decreases n - i,
        {
            if self.items[i].product_id == product_id {
                proof {
                    lemma_find_at(s0, i as int);
                    lemma_subtotal_line_bound(s0, i as int);
                    lemma_cat_price_positive(product_id);
                    let p = cat_price(product_id) as int;
                    assert(qty <= p * qty) by (nonlinear_arith)
                        requires
                            1 <= p,
                            0 <= qty,
                    ;
                }
                let new_line_total = self.items[i].unit_price_cents * qty;
                let updated = CartItem {
                    product_id,
                    name: self.items[i].name.clone(),
                    unit_price_cents: self.items[i].unit_price_cents,
                    qty,
                    line_total_cents: new_line_total,
                };
                self.items[i] = updated;
                proof {
                    let s1 = self.items@;
                    let v = s1[i as int];
                    assert forall|a: int, b: int| 0 <= a < b < s1.len() implies s1[a].product_id
                        != s1[b].product_id by {
                        assert(s0[a].product_id != s0[b].product_id);
                    }
                    lemma_subtotal_update(s0, i as int, v);
                    lemma_find_at(s1, i as int);
                    assert forall|q: u32| q != product_id implies #[trigger] find_line(s1, q)
                        == find_line(s0, q) by {
                        lemma_find_update_other(s0, i as int, v, q);
                    }
                }
                return Ok(());
            }
            i += 1;
        }
        proof {
            lemma_find_props(s0, product_id);
        }
        Err(StoreError::NotFound)
    }

    /// A read-only copy of the lines and their summed subtotal.
    pub fn snapshot(&self) -> (r: (Vec<CartItem>, u32))
        requires
            self.wf(),
        ensures
            r.0@.len() == self@.len(),
            forall|i: int| 0 <= i < self@.len() ==> item_matches(#[trigger] r.0@[i], self@[i]),
            r.1 == subtotal_of(self@),
    {
        let mut items: Vec<CartItem> = Vec::new();
        let mut subtotal: u32 = 0;
        let n = self.items.len();
        let mut i: usize = 0;
        proof {
            assert(self.items@.subrange(0, 0) =~= Seq::<CartItem>::empty());
        }
        while i < n
            invariant
                0 <= i <= n,
                n == self.items@.len(),
                cart_inv(self.items@),
                items@.len() == i,
                forall|j: int|
                    0 <= j < i ==> item_matches(#[trigger] items@[j], self.items@[j]),
                subtotal == subtotal_of(self.items@.subrange(0, i as int)),
            decreases n - i,
        {
            proof {
                lemma_subtotal_prefix(self.items@, i + 1);
                assert(self.items@.subrange(0, i + 1) =~= self.items@.subrange(0, i as int).push(
                    self.items@[i as int],
                ));
                lemma_subtotal_push(self.items@.subrange(0, i as int), self.items@[i as int]);
            }
            let it = &self.items[i];
            let copy = CartItem {
                product_id: it.product_id,
                name: it.name.clone(),
                unit_price_cents: it.unit_price_cents,
                qty: it.qty,
                line_total_cents: it.line_total_cents,
            };
            items.push(copy);
            subtotal = subtotal + self.items[i].line_total_cents;
            i += 1;
        }
        proof {
            assert(self.items@.subrange(0, n as int) =~= self.items@);
        }
        (items, subtotal)
    }

    /// The summary returned to cart readers: the lines, the subtotal,
    /// a fixed zero shipping cost, and their sum.
    pub fn summary(&self) -> (r: CartSummary)
        requires
            self.wf(),
        ensures
            r.items@.len() == self@.len(),
            forall|i: int| 0 <= i < self@.len() ==> item_matches(#[trigger] r.items@[i], self@[i]),
            r.subtotal_cents == subtotal_of(self@),
            r.shipping_cents == 0,
            r.total_cents == subtotal_of(self@),
    {
        let (items, subtotal_cents) = self.snapshot();
        CartSummary { items, subtotal_cents, shipping_cents: 0, total_cents: subtotal_cents }
    }

    /// Empties the cart.
    pub fn clear(&mut self)
        ensures
            final(self)@.len() == 0,
            final(self).wf(),
    {
        self.items.clear();
    }
}

} // verus!
