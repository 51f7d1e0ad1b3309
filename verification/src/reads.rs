//! The read side of the store: the inner join the two read endpoints run.
//!
//! A read joins orders with their customer, payment and item rows. Under
//! well-formedness the customer and payment of an order are unique, so the
//! join yields one row per item, in insertion order, order-major. An order
//! with no items yields no rows — the stricter inner join, never a
//! null-filled aggregate.

use crate::datetime::{dt_valid, format_datetime};
use crate::datetime::format_date_created;
use crate::models::views_of;
use crate::rowmap::{JoinedRow, JoinedRowView, merged_of};
use crate::store::{cid_in_customers, has_order, uid_in_payments, wf, CustomerRowView, ItemRowView,
    OrderRowView, OrderStore, PaymentRowView, StoreView};
use vstd::prelude::*;

verus! {

broadcast use crate::models::lemma_views_push;

/// The index of the order row carrying `uid`; unique under well-formedness.
pub open spec fn order_idx(orders: Seq<OrderRowView>, uid: Seq<char>) -> int {
    choose|i: int| 0 <= i < orders.len() && orders[i].order_uid == uid
}

/// The index of the customer row carrying `cid`; unique under
/// well-formedness.
pub open spec fn customer_idx(customers: Seq<CustomerRowView>, cid: Seq<char>) -> int {
    choose|i: int| 0 <= i < customers.len() && customers[i].customer_id == cid
}

/// The index of the payment row tied to the order `uid`; unique under
/// well-formedness.
pub open spec fn payment_idx(payments: Seq<PaymentRowView>, uid: Seq<char>) -> int {
    choose|i: int| 0 <= i < payments.len() && payments[i].order_uid == uid
}

/// The item rows of the order `uid`, in insertion order.
pub open spec fn items_for(items: Seq<ItemRowView>, uid: Seq<char>) -> Seq<ItemRowView>
    decreases items.len(),
{
    if items.len() == 0 {
        Seq::empty()
    } else {
        let rest = items_for(items.drop_last(), uid);
        if items.last().order_uid == uid {
            rest.push(items.last())
        } else {
            rest
        }
    }
}

pub proof fn lemma_order_idx_is(s: StoreView, uid: Seq<char>, i: int)
    requires
        wf(s),
        0 <= i < s.orders.len(),
        s.orders[i].order_uid == uid,
    ensures
        has_order(s, uid),
        order_idx(s.orders, uid) == i,
{
    assert(has_order(s, uid));
    let c = order_idx(s.orders, uid);
    if c < i {
        assert(s.orders[c].order_uid != s.orders[i].order_uid);
    } else if c > i {
        assert(s.orders[i].order_uid != s.orders[c].order_uid);
    }
}

pub proof fn lemma_customer_idx_is(s: StoreView, cid: Seq<char>, i: int)
    requires
        wf(s),
        0 <= i < s.customers.len(),
        s.customers[i].customer_id == cid,
    ensures
        cid_in_customers(s.customers, cid),
        customer_idx(s.customers, cid) == i,
{
    assert(cid_in_customers(s.customers, cid));
    let c = customer_idx(s.customers, cid);
    if c < i {
        assert(s.customers[c].customer_id != s.customers[i].customer_id);
    } else if c > i {
        assert(s.customers[i].customer_id != s.customers[c].customer_id);
    }
}

pub proof fn lemma_payment_idx_is(s: StoreView, uid: Seq<char>, i: int)
    requires
        wf(s),
        0 <= i < s.payments.len(),
        s.payments[i].order_uid == uid,
    ensures
        uid_in_payments(s.payments, uid),
        payment_idx(s.payments, uid) == i,
{
    assert(uid_in_payments(s.payments, uid));
    let c = payment_idx(s.payments, uid);
    if c < i {
        assert(s.payments[c].order_uid != s.payments[i].order_uid);
    } else if c > i {
        assert(s.payments[i].order_uid != s.payments[c].order_uid);
    }
}

/// The join row of one item row beside its order, customer and payment rows;
/// the stored timestamp is rendered back to its wire string, the payment
/// instant surfaced as the epoch integer.
pub open spec fn joined_of(
    orow: OrderRowView,
    crow: CustomerRowView,
    prow: PaymentRowView,
    irow: ItemRowView,
) -> JoinedRowView {
    JoinedRowView {
        order_uid: orow.order_uid,
        track_number: orow.track_number,
        entry: orow.entry,
        delivery_service: orow.delivery_service,
        customer_id: orow.customer_id,
        shardkey: orow.shardkey,
        sm_id: orow.sm_id,
        date_created: format_datetime(orow.date_created),
        oof_shard: orow.oof_shard,
        delivery: crate::models::DeliveryView {
            name: crow.name,
            phone: crow.phone,
            zip: crow.zip,
            city: crow.city,
            address: crow.address,
            region: crow.region,
            email: crow.email,
        },
        payment: crate::models::PaymentView {
            transaction: prow.transaction,
            request_id: prow.request_id,
            currency: prow.currency,
            provider: prow.provider,
            amount: prow.amount,
            payment_dt: prow.payment_dt,
            bank: prow.bank,
            delivery_cost: prow.delivery_cost,
            goods_total: prow.goods_total,
            custom_fee: prow.custom_fee,
        },
        item: crate::models::ItemView {
            chrt_id: irow.chrt_id,
            track_number: irow.track_number,
            price: irow.price,
            rid: irow.rid,
            name: irow.name,
            sale: irow.sale,
            size: irow.size,
            total_price: irow.total_price,
            nm_id: irow.nm_id,
            brand: irow.brand,
            status: irow.status,
        },
    }
}

/// The join rows of the given order, customer and payment rows with every
/// item row of `uid` among `items`.
pub open spec fn joined_rows_of(
    orow: OrderRowView,
    crow: CustomerRowView,
    prow: PaymentRowView,
    items: Seq<ItemRowView>,
    uid: Seq<char>,
) -> Seq<JoinedRowView> {
    items_for(items, uid).map_values(|ir: ItemRowView| joined_of(orow, crow, prow, ir))
}

/// The join rows of the order `uid`: one per item, in item insertion order.
pub open spec fn rows_for_uid(s: StoreView, uid: Seq<char>) -> Seq<JoinedRowView>
    recommends
        wf(s),
        has_order(s, uid),
{
    let orow = s.orders[order_idx(s.orders, uid)];
    joined_rows_of(
        orow,
        s.customers[customer_idx(s.customers, orow.customer_id)],
        s.payments[payment_idx(s.payments, uid)],
        s.items,
        uid,
    )
}

/// The whole join over the first `n` orders, order-major.
pub open spec fn all_rows_upto(s: StoreView, n: int) -> Seq<JoinedRowView>
    decreases n,
{
    if n <= 0 {
        Seq::empty()
    } else {
        all_rows_upto(s, n - 1) + rows_for_uid(s, s.orders[n - 1].order_uid)
    }
}

/// The whole join, order-major, each order's items in insertion order.
pub open spec fn all_rows(s: StoreView) -> Seq<JoinedRowView> {
    all_rows_upto(s, s.orders.len() as int)
}

/// What a read of one `order_uid` yields: the aggregate merged from its join
/// rows, `None` when the uid is absent — and also when the order has no item
/// rows, since the inner join then yields no rows at all.
pub open spec fn lookup_model(s: StoreView, uid: Seq<char>) -> Option<crate::models::OrderView> {
    if has_order(s, uid) && items_for(s.items, uid).len() > 0 {
        Some(merged_of(rows_for_uid(s, uid)))
    } else {
        None
    }
}

/// The window `LIMIT limit OFFSET offset` cuts out of the join rows.
pub open spec fn page_of(rows: Seq<JoinedRowView>, limit: int, offset: int) -> Seq<JoinedRowView>
    recommends
        0 <= limit,
        0 <= offset,
{
    let n = rows.len() as int;
    let lo = if offset <= n {
        offset
    } else {
        n
    };
    let hi = if offset + limit <= n {
        offset + limit
    } else {
        n
    };
    if hi < lo {
        rows.subrange(lo, lo)
    } else {
        rows.subrange(lo, hi)
    }
}

/// What a paginated list yields: the join rows bounded by limit and offset,
/// grouped by `order_uid` as on a single read.
pub open spec fn list_model(s: StoreView, limit: int, offset: int) -> Seq<crate::models::OrderView> {
    crate::rowmap::group_rows_model(page_of(all_rows(s), limit, offset))
}

impl OrderStore {
    /// The position of the order row carrying `uid`, if any.
    pub fn find_order(&self, uid: &String) -> (r: Option<usize>)
        requires
            wf(self@),
        ensures
            (match r {
                Some(i) => has_order(self@, uid@) && 0 <= i < self@.orders.len()
                    && self@.orders[i as int].order_uid == uid@ && i as int == order_idx(
                    self@.orders,
                    uid@,
                ),
                None => !has_order(self@, uid@),
            }),
    {
        let mut i: usize = 0;
        while i < self.orders.len()
            invariant
                wf(self@),
                i <= self.orders.len(),
                forall|j: int| 0 <= j < i ==> self@.orders[j].order_uid != uid@,
            decreases self.orders.len() - i,
        {
            if self.orders[i].order_uid == *uid {
                proof {
                    assert(self@.orders[i as int] == self.orders@[i as int]@);
                    lemma_order_idx_is(self@, uid@, i as int);
                }
                return Some(i);
            }
            i += 1;
        }
        None
    }

    fn find_customer_idx(&self, cid: &String) -> (i: usize)
        requires
            wf(self@),
            cid_in_customers(self@.customers, cid@),
        ensures
            0 <= i < self@.customers.len(),
            i as int == customer_idx(self@.customers, cid@),
    {
        let mut i: usize = 0;
        while i < self.customers.len()
            invariant
                wf(self@),
                cid_in_customers(self@.customers, cid@),
                i <= self.customers.len(),
                forall|j: int| 0 <= j < i ==> self@.customers[j].customer_id != cid@,
            decreases self.customers.len() - i,
        {
            if self.customers[i].customer_id == *cid {
                proof {
                    assert(self@.customers[i as int] == self.customers@[i as int]@);
                    lemma_customer_idx_is(self@, cid@, i as int);
                }
                return i;
            }
            i += 1;
        }
        proof {
            let j = choose|j: int|
                0 <= j < self@.customers.len() && self@.customers[j].customer_id == cid@;
            assert(false);
        }
        vstd::pervasive::unreached()
    }

    fn find_payment_idx(&self, uid: &String) -> (i: usize)
        requires
            wf(self@),
            uid_in_payments(self@.payments, uid@),
        ensures
            0 <= i < self@.payments.len(),
            i as int == payment_idx(self@.payments, uid@),
    {
        let mut i: usize = 0;
        while i < self.payments.len()
            invariant
                wf(self@),
                uid_in_payments(self@.payments, uid@),
                i <= self.payments.len(),
                forall|j: int| 0 <= j < i ==> self@.payments[j].order_uid != uid@,
            decreases self.payments.len() - i,
        {
            if self.payments[i].order_uid == *uid {
                proof {
                    assert(self@.payments[i as int] == self.payments@[i as int]@);
                    lemma_payment_idx_is(self@, uid@, i as int);
                }
                return i;
            }
            i += 1;
        }
        proof {
            let j = choose|j: int|
                0 <= j < self@.payments.len() && self@.payments[j].order_uid == uid@;
            assert(false);
        }
        vstd::pervasive::unreached()
    }

    /// The join rows of the order at position `oi`: its customer, payment and
    /// every one of its items, one row per item.
    pub fn rows_for(&self, oi: usize) -> (rows: Vec<JoinedRow>)
        requires
            wf(self@),
            oi < self@.orders.len(),
        ensures
            views_of(rows@) == rows_for_uid(self@, self@.orders[oi as int].order_uid),
    {
        proof {
            assert(self@.orders[oi as int] == self.orders@[oi as int]@);
        }
        let orow = &self.orders[oi];
        let ghost orowv = self@.orders[oi as int];
        let ghost uidv = orowv.order_uid;
        proof {
            lemma_order_idx_is(self@, uidv, oi as int);
            assert(orow@ == orowv);
            assert(cid_in_customers(self@.customers, self@.orders[oi as int].customer_id));
            assert(uid_in_payments(self@.payments, self@.orders[oi as int].order_uid));
            assert(dt_valid(self@.orders[oi as int].date_created));
        }
        let ci = self.find_customer_idx(&orow.customer_id);
        let pi = self.find_payment_idx(&orow.order_uid);
        let crow = &self.customers[ci];
        let prow = &self.payments[pi];
        let ghost crowv = self@.customers[ci as int];
        let ghost prowv = self@.payments[pi as int];
        proof {
            assert(crowv == self.customers@[ci as int]@);
            assert(prowv == self.payments@[pi as int]@);
        }
        let date_str = format_date_created(orow.date_created);
        let mut rows: Vec<JoinedRow> = Vec::new();
        let mut k: usize = 0;
        while k < self.items.len()
            invariant
                wf(self@),
                k <= self.items.len(),
                orowv == self@.orders[oi as int],
                oi < self@.orders.len(),
                uidv == orowv.order_uid,
                ci < self@.customers.len(),
                pi < self@.payments.len(),
                crowv == self@.customers[ci as int],
                prowv == self@.payments[pi as int],
                crow@ == crowv,
                prow@ == prowv,
                orow@ == orowv,
                date_str@ == format_datetime(orowv.date_created),
                views_of(rows@) == joined_rows_of(
                    orowv,
                    crowv,
                    prowv,
                    self@.items.take(k as int),
                    uidv,
                ),
            decreases self.items.len() - k,
        {
            let it = &self.items[k];
            let ghost irowv = self@.items[k as int];
            proof {
                assert(irowv == self.items@[k as int]@);
                assert(self@.items.take(k as int + 1).drop_last() =~= self@.items.take(k as int));
                assert(self@.items.take(k as int + 1).last() == irowv);
            }
            if it.order_uid == orow.order_uid {
                rows.push(
                    JoinedRow {
                        order_uid: orow.order_uid.clone(),
                        track_number: orow.track_number.clone(),
                        entry: orow.entry.clone(),
                        delivery_service: orow.delivery_service.clone(),
                        customer_id: orow.customer_id.clone(),
                        shardkey: orow.shardkey.clone(),
                        sm_id: orow.sm_id,
                        date_created: date_str.clone(),
                        oof_shard: orow.oof_shard.clone(),
                        delivery_name: crow.name.clone(),
                        delivery_phone: crow.phone.clone(),
                        delivery_zip: crow.zip.clone(),
                        delivery_city: crow.city.clone(),
                        delivery_address: crow.address.clone(),
                        delivery_region: crow.region.clone(),
                        delivery_email: crow.email.clone(),
                        transaction: prow.transaction.clone(),
                        request_id: prow.request_id.clone(),
                        currency: prow.currency.clone(),
                        provider: prow.provider.clone(),
                        amount: prow.amount,
                        payment_unix_timestamp: prow.payment_dt,
                        bank: prow.bank.clone(),
                        delivery_cost: prow.delivery_cost,
                        goods_total: prow.goods_total,
                        custom_fee: prow.custom_fee,
                        chrt_id: it.chrt_id,
                        item_track_number: it.track_number.clone(),
                        price: it.price,
                        rid: it.rid.clone(),
                        item_name: it.name.clone(),
                        sale: it.sale,
                        size: it.size.clone(),
                        total_price: it.total_price,
                        nm_id: it.nm_id,
                        brand: it.brand.clone(),
                        status: it.status,
                    },
                );
                proof {
                    assert(items_for(self@.items.take(k as int + 1), uidv) == items_for(
                        self@.items.take(k as int),
                        uidv,
                    ).push(irowv));
                    assert(rows@[rows@.len() - 1]@ == joined_of(orowv, crowv, prowv, irowv));
                    assert(views_of(rows@) =~= joined_rows_of(
                        orowv,
                        crowv,
                        prowv,
                        self@.items.take(k as int + 1),
                        uidv,
                    ));
                }
            } else {
                proof {
                    assert(items_for(self@.items.take(k as int + 1), uidv) == items_for(
                        self@.items.take(k as int),
                        uidv,
                    ));
                }
            }
            k += 1;
        }
        proof {
            assert(self@.items.take(self.items.len() as int) =~= self@.items);
        }
        rows
    }

    /// The whole join, order-major: every order's rows in insertion order.
    pub fn joined_rows(&self) -> (rows: Vec<JoinedRow>)
        requires
            wf(self@),
        ensures
            views_of(rows@) == all_rows(self@),
    {
        let mut rows: Vec<JoinedRow> = Vec::new();
        proof {
            assert(views_of(rows@) =~= all_rows_upto(self@, 0));
        }
        let mut oi: usize = 0;
        while oi < self.orders.len()
            invariant
                wf(self@),
                oi <= self.orders.len(),
                views_of(rows@) == all_rows_upto(self@, oi as int),
            decreases self.orders.len() - oi,
        {
            let mut part = self.rows_for(oi);
            let ghost prev = rows@;
            let ghost partv = part@;
            rows.append(&mut part);
            proof {
                assert(views_of(rows@) =~= views_of(prev) + views_of(partv));
                assert(views_of(rows@) == all_rows_upto(self@, oi as int + 1));
            }
            oi += 1;
        }
        rows
    }
}

} // verus!
