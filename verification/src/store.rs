//! The relational store model and the transactional persistence semantics.
//!
//! Four tables — customers, orders, payment, items — are modelled as growing
//! sequences of rows. `persist` is the whole ingestion transaction: it
//! converts `date_created` to a typed timestamp, inserts the customer only if
//! absent (an existing customer row is never overwritten), then the order,
//! payment and item rows, and it either applies all of that or, on any
//! failure, leaves the store exactly as it was — the atomicity a transaction
//! with rollback gives the real schema.

use crate::datetime::{dt_valid, parse_datetime, parse_date_created, DateTime};
use crate::errors::{OrderError, OrderErrorView};
use crate::models::{views_of, ItemView, Order, OrderView};
use vstd::prelude::*;

verus! {

broadcast use crate::models::lemma_views_push;

/// One row of the customers table; delivery contact details are denormalized
/// into it.
pub struct CustomerRow {
    pub customer_id: String,
    pub name: String,
    pub phone: String,
    pub zip: String,
    pub city: String,
    pub address: String,
    pub region: String,
    pub email: String,
}

/// Mathematical image of a `CustomerRow`.
pub struct CustomerRowView {
    pub customer_id: Seq<char>,
    pub name: Seq<char>,
    pub phone: Seq<char>,
    pub zip: Seq<char>,
    pub city: Seq<char>,
    pub address: Seq<char>,
    pub region: Seq<char>,
    pub email: Seq<char>,
}

impl View for CustomerRow {
    type V = CustomerRowView;

    open spec fn view(&self) -> CustomerRowView {
        CustomerRowView {
            customer_id: self.customer_id@,
            name: self.name@,
            phone: self.phone@,
            zip: self.zip@,
            city: self.city@,
            address: self.address@,
            region: self.region@,
            email: self.email@,
        }
    }
}

/// One row of the orders table; `date_created` is stored as a typed
/// timestamp, converted from its wire string when the order is persisted.
pub struct OrderRow {
    pub order_uid: String,
    pub track_number: String,
    pub entry: String,
    pub customer_id: String,
    pub delivery_service: String,
    pub shardkey: String,
    pub sm_id: i32,
    pub date_created: DateTime,
    pub oof_shard: String,
}

/// Mathematical image of an `OrderRow`.
pub struct OrderRowView {
    pub order_uid: Seq<char>,
    pub track_number: Seq<char>,
    pub entry: Seq<char>,
    pub customer_id: Seq<char>,
    pub delivery_service: Seq<char>,
    pub shardkey: Seq<char>,
    pub sm_id: int,
    pub date_created: DateTime,
    pub oof_shard: Seq<char>,
}

impl View for OrderRow {
    type V = OrderRowView;

    open spec fn view(&self) -> OrderRowView {
        OrderRowView {
            order_uid: self.order_uid@,
            track_number: self.track_number@,
            entry: self.entry@,
            customer_id: self.customer_id@,
            delivery_service: self.delivery_service@,
            shardkey: self.shardkey@,
            sm_id: self.sm_id as int,
            date_created: self.date_created,
            oof_shard: self.oof_shard@,
        }
    }
}

/// One row of the payment table, keyed by `transaction` and tied one-to-one
/// to an order; `payment_dt` is the Unix-epoch integer, stored and read back
/// unchanged.
pub struct PaymentRow {
    pub transaction: String,
    pub order_uid: String,
    pub request_id: String,
    pub currency: String,
    pub provider: String,
    pub amount: i32,
    pub payment_dt: i64,
    pub bank: String,
    pub delivery_cost: i32,
    pub goods_total: i32,
    pub custom_fee: i32,
}

/// Mathematical image of a `PaymentRow`.
pub struct PaymentRowView {
    pub transaction: Seq<char>,
    pub order_uid: Seq<char>,
    pub request_id: Seq<char>,
    pub currency: Seq<char>,
    pub provider: Seq<char>,
    pub amount: int,
    pub payment_dt: int,
    pub bank: Seq<char>,
    pub delivery_cost: int,
    pub goods_total: int,
    pub custom_fee: int,
}

impl View for PaymentRow {
    type V = PaymentRowView;

    open spec fn view(&self) -> PaymentRowView {
        PaymentRowView {
            transaction: self.transaction@,
            order_uid: self.order_uid@,
            request_id: self.request_id@,
            currency: self.currency@,
            provider: self.provider@,
            amount: self.amount as int,
            payment_dt: self.payment_dt as int,
            bank: self.bank@,
            delivery_cost: self.delivery_cost as int,
            goods_total: self.goods_total as int,
            custom_fee: self.custom_fee as int,
        }
    }
}

/// One row of the items table, keyed by `chrt_id` and tied to its order by
/// `order_uid`.
pub struct ItemRow {
    pub chrt_id: i64,
    pub order_uid: String,
    pub track_number: String,
    pub price: i32,
    pub rid: String,
    pub name: String,
    pub sale: i32,
    pub size: String,
    pub total_price: i32,
    pub nm_id: i64,
    pub brand: String,
    pub status: i32,
}

/// Mathematical image of an `ItemRow`.
pub struct ItemRowView {
    pub chrt_id: int,
    pub order_uid: Seq<char>,
    pub track_number: Seq<char>,
    pub price: int,
    pub rid: Seq<char>,
    pub name: Seq<char>,
    pub sale: int,
    pub size: Seq<char>,
    pub total_price: int,
    pub nm_id: int,
    pub brand: Seq<char>,
    pub status: int,
}

impl View for ItemRow {
    type V = ItemRowView;

    open spec fn view(&self) -> ItemRowView {
        ItemRowView {
            chrt_id: self.chrt_id as int,
            order_uid: self.order_uid@,
            track_number: self.track_number@,
            price: self.price as int,
            rid: self.rid@,
            name: self.name@,
            sale: self.sale as int,
            size: self.size@,
            total_price: self.total_price as int,
            nm_id: self.nm_id as int,
            brand: self.brand@,
            status: self.status as int,
        }
    }
}

/// The four tables as sequences of row images, in insertion order.
pub struct StoreView {
    pub customers: Seq<CustomerRowView>,
    pub orders: Seq<OrderRowView>,
    pub payments: Seq<PaymentRowView>,
    pub items: Seq<ItemRowView>,
}

/// The four tables. Records are immutable once committed: the ingestion path
/// only ever appends rows, through `persist`, which keeps the store
/// well-formed; every method asks for `wf` and preserves it.
pub struct OrderStore {
    pub customers: Vec<CustomerRow>,
    pub orders: Vec<OrderRow>,
    pub payments: Vec<PaymentRow>,
    pub items: Vec<ItemRow>,
}

impl View for OrderStore {
    type V = StoreView;

    open spec fn view(&self) -> StoreView {
        StoreView {
            customers: views_of(self.customers@),
            orders: views_of(self.orders@),
            payments: views_of(self.payments@),
            items: views_of(self.items@),
        }
    }
}

pub open spec fn uid_in_orders(orders: Seq<OrderRowView>, uid: Seq<char>) -> bool {
    exists|i: int| 0 <= i < orders.len() && orders[i].order_uid == uid
}

pub open spec fn cid_in_customers(customers: Seq<CustomerRowView>, cid: Seq<char>) -> bool {
    exists|i: int| 0 <= i < customers.len() && customers[i].customer_id == cid
}

pub open spec fn txn_in_payments(payments: Seq<PaymentRowView>, txn: Seq<char>) -> bool {
    exists|i: int| 0 <= i < payments.len() && payments[i].transaction == txn
}

pub open spec fn uid_in_payments(payments: Seq<PaymentRowView>, uid: Seq<char>) -> bool {
    exists|i: int| 0 <= i < payments.len() && payments[i].order_uid == uid
}

pub open spec fn chrt_in_items(items: Seq<ItemRowView>, chrt: int) -> bool {
    exists|i: int| 0 <= i < items.len() && items[i].chrt_id == chrt
}

pub open spec fn has_order(s: StoreView, uid: Seq<char>) -> bool {
    uid_in_orders(s.orders, uid)
}

pub open spec fn has_customer(s: StoreView, cid: Seq<char>) -> bool {
    cid_in_customers(s.customers, cid)
}

pub open spec fn has_payment_txn(s: StoreView, txn: Seq<char>) -> bool {
    txn_in_payments(s.payments, txn)
}

/// Well-formedness of the store: primary keys unique, each payment tied to
/// exactly one order and vice versa, every foreign key resolvable, every
/// stored timestamp a valid calendar date. `persist` establishes it on the
/// empty store and preserves it.
pub open spec fn wf(s: StoreView) -> bool {
    &&& (forall|i: int, j: int|
        0 <= i < j < s.orders.len() ==> s.orders[i].order_uid != s.orders[j].order_uid)
    &&& (forall|i: int, j: int|
        0 <= i < j < s.customers.len() ==> s.customers[i].customer_id
            != s.customers[j].customer_id)
    &&& (forall|i: int, j: int|
        0 <= i < j < s.payments.len() ==> s.payments[i].transaction != s.payments[j].transaction)
    &&& (forall|i: int, j: int|
        0 <= i < j < s.payments.len() ==> s.payments[i].order_uid != s.payments[j].order_uid)
    &&& (forall|i: int, j: int|
        0 <= i < j < s.items.len() ==> s.items[i].chrt_id != s.items[j].chrt_id)
    &&& (forall|i: int|
        0 <= i < s.payments.len() ==> uid_in_orders(s.orders, #[trigger] s.payments[i].order_uid))
    &&& (forall|i: int|
        0 <= i < s.items.len() ==> uid_in_orders(s.orders, #[trigger] s.items[i].order_uid))
    &&& (forall|i: int|
        0 <= i < s.orders.len() ==> cid_in_customers(
            s.customers,
            #[trigger] s.orders[i].customer_id,
        ))
    &&& (forall|i: int|
        0 <= i < s.orders.len() ==> uid_in_payments(
            s.payments,
            #[trigger] s.orders[i].order_uid,
        ))
    &&& (forall|i: int| 0 <= i < s.orders.len() ==> dt_valid(#[trigger] s.orders[i].date_created))
}

/// The customer row an order's denormalized delivery details become.
pub open spec fn customer_row_of(o: OrderView) -> CustomerRowView {
    CustomerRowView {
        customer_id: o.customer_id,
        name: o.delivery.name,
        phone: o.delivery.phone,
        zip: o.delivery.zip,
        city: o.delivery.city,
        address: o.delivery.address,
        region: o.delivery.region,
        email: o.delivery.email,
    }
}

/// The orders-table row of an order, `date_created` converted to its typed
/// timestamp.
pub open spec fn order_row_of(o: OrderView) -> OrderRowView
    recommends
        parse_datetime(o.date_created) is Some,
{
    OrderRowView {
        order_uid: o.order_uid,
        track_number: o.track_number,
        entry: o.entry,
        customer_id: o.customer_id,
        delivery_service: o.delivery_service,
        shardkey: o.shardkey,
        sm_id: o.sm_id,
        date_created: parse_datetime(o.date_created)->Some_0,
        oof_shard: o.oof_shard,
    }
}

/// The payment-table row of an order.
pub open spec fn payment_row_of(o: OrderView) -> PaymentRowView {
    PaymentRowView {
        transaction: o.payment.transaction,
        order_uid: o.order_uid,
        request_id: o.payment.request_id,
        currency: o.payment.currency,
        provider: o.payment.provider,
        amount: o.payment.amount,
        payment_dt: o.payment.payment_dt,
        bank: o.payment.bank,
        delivery_cost: o.payment.delivery_cost,
        goods_total: o.payment.goods_total,
        custom_fee: o.payment.custom_fee,
    }
}

/// The items-table row of one line item of the order with the given uid.
pub open spec fn item_row_of(uid: Seq<char>, it: ItemView) -> ItemRowView {
    ItemRowView {
        chrt_id: it.chrt_id,
        order_uid: uid,
        track_number: it.track_number,
        price: it.price,
        rid: it.rid,
        name: it.name,
        sale: it.sale,
        size: it.size,
        total_price: it.total_price,
        nm_id: it.nm_id,
        brand: it.brand,
        status: it.status,
    }
}

/// The item rows of an order, in the order's own item order.
pub open spec fn items_rows_of(o: OrderView) -> Seq<ItemRowView> {
    Seq::new(o.items.len(), |i: int| item_row_of(o.order_uid, o.items[i]))
}

/// Whether inserting the order's items would violate the `chrt_id` key:
/// some item collides with a stored row, or two items of the batch collide
/// with each other.
pub open spec fn items_conflict(stored: Seq<ItemRowView>, items: Seq<ItemView>) -> bool {
    ||| (exists|i: int| 0 <= i < items.len() && chrt_in_items(stored, items[i].chrt_id))
    ||| (exists|i: int, j: int| 0 <= i < j < items.len() && items[i].chrt_id == items[j].chrt_id)
}

/// The error the ingestion transaction stops on, `None` when it commits:
/// first an unparseable `date_created` (rejected before any statement), then
/// a duplicate `order_uid`, then a duplicate payment key (a constraint
/// failure whose field the service does not surface), then a duplicate
/// `chrt_id` — the order in which the four inserts run.
pub open spec fn submit_error(s: StoreView, o: OrderView) -> Option<OrderErrorView> {
    if parse_datetime(o.date_created) is None {
        Some(
            OrderErrorView::Validation {
                msg: "date_created is invalid"@,
                field: "date_created"@,
            },
        )
    } else if has_order(s, o.order_uid) {
        Some(OrderErrorView::Duplicate { field: "order_uid"@ })
    } else if has_payment_txn(s, o.payment.transaction) {
        Some(OrderErrorView::ReferentialOrConstraint)
    } else if items_conflict(s.items, o.items) {
        Some(OrderErrorView::Duplicate { field: "chrt_id"@ })
    } else {
        None
    }
}

/// The store after a committed ingestion: the customer row only if its key
/// was absent, then the order, payment and item rows appended.
pub open spec fn after_submit(s: StoreView, o: OrderView) -> StoreView {
    StoreView {
        customers: if has_customer(s, o.customer_id) {
            s.customers
        } else {
            s.customers.push(customer_row_of(o))
        },
        orders: s.orders.push(order_row_of(o)),
        payments: s.payments.push(payment_row_of(o)),
        items: s.items + items_rows_of(o),
    }
}

impl OrderStore {
    /// The empty store; trivially well-formed.
    pub fn new() -> (s: Self)
        ensures
            s@.customers == Seq::<CustomerRowView>::empty(),
            s@.orders == Seq::<OrderRowView>::empty(),
            s@.payments == Seq::<PaymentRowView>::empty(),
            s@.items == Seq::<ItemRowView>::empty(),
            wf(s@),
    {
        let s = OrderStore {
            customers: Vec::new(),
            orders: Vec::new(),
            payments: Vec::new(),
            items: Vec::new(),
        };
        proof {
            assert(s@.customers =~= Seq::<CustomerRowView>::empty());
            assert(s@.orders =~= Seq::<OrderRowView>::empty());
            assert(s@.payments =~= Seq::<PaymentRowView>::empty());
            assert(s@.items =~= Seq::<ItemRowView>::empty());
        }
        s
    }

    /// Whether an order row with this uid is stored.
    pub fn contains_order_uid(&self, uid: &String) -> (b: bool)
        ensures
            b == has_order(self@, uid@),
    {
        let mut i: usize = 0;
        while i < self.orders.len()
            invariant
                i <= self.orders.len(),
                forall|j: int| 0 <= j < i ==> self@.orders[j].order_uid != uid@,
            decreases self.orders.len() - i,
        {
            if self.orders[i].order_uid == *uid {
                proof {
                    assert(self@.orders[i as int] == self.orders@[i as int]@);
                }
                return true;
            }
            i += 1;
        }
        false
    }

    /// Whether a customer row with this id is stored.
    pub fn contains_customer(&self, cid: &String) -> (b: bool)
        ensures
            b == has_customer(self@, cid@),
    {
        let mut i: usize = 0;
        while i < self.customers.len()
            invariant
                i <= self.customers.len(),
                forall|j: int| 0 <= j < i ==> self@.customers[j].customer_id != cid@,
            decreases self.customers.len() - i,
        {
            if self.customers[i].customer_id == *cid {
                proof {
                    assert(self@.customers[i as int] == self.customers@[i as int]@);
                }
                return true;
            }
            i += 1;
        }
        false
    }

    /// Whether a payment row with this transaction key is stored.
    pub fn contains_payment_txn(&self, txn: &String) -> (b: bool)
        ensures
            b == has_payment_txn(self@, txn@),
    {
        let mut i: usize = 0;
        while i < self.payments.len()
            invariant
                i <= self.payments.len(),
                forall|j: int| 0 <= j < i ==> self@.payments[j].transaction != txn@,
            decreases self.payments.len() - i,
        {
            if self.payments[i].transaction == *txn {
                proof {
                    assert(self@.payments[i as int] == self.payments@[i as int]@);
                }
                return true;
            }
            i += 1;
        }
        false
    }

    /// Whether an item row with this `chrt_id` is stored.
    pub fn contains_chrt_id(&self, chrt: i64) -> (b: bool)
        ensures
            b == chrt_in_items(self@.items, chrt as int),
    {
        let mut i: usize = 0;
        while i < self.items.len()
            invariant
                i <= self.items.len(),
                forall|j: int| 0 <= j < i ==> self@.items[j].chrt_id != chrt as int,
            decreases self.items.len() - i,
        {
            if self.items[i].chrt_id == chrt {
                proof {
                    assert(self@.items[i as int] == self.items@[i as int]@);
                }
                return true;
            }
            i += 1;
        }
        false
    }
}

impl Order {
    /// Whether persisting this order's items would violate the `chrt_id` key.
    pub fn has_items_conflict(&self, store: &OrderStore) -> (b: bool)
        ensures
            b == items_conflict(store@.items, self@.items),
    {
        let ghost itv = self@.items;
        let mut i: usize = 0;
        while i < self.items.len()
            invariant
                i <= self.items.len(),
                itv == self@.items,
                itv.len() == self.items.len(),
                forall|k: int| 0 <= k < i ==> !chrt_in_items(store@.items, itv[k].chrt_id),
                forall|k: int, l: int| 0 <= k < l < i ==> itv[k].chrt_id != itv[l].chrt_id,
            decreases self.items.len() - i,
        {
            if store.contains_chrt_id(self.items[i].chrt_id) {
                proof {
                    assert(itv[i as int] == self.items@[i as int]@);
                }
                return true;
            }
            let mut j: usize = 0;
            while j < i
                invariant
                    j <= i < self.items.len(),
                    itv == self@.items,
                    itv.len() == self.items.len(),
                    forall|k: int| 0 <= k < j ==> itv[k].chrt_id != itv[i as int].chrt_id,
                decreases i - j,
            {
                if self.items[j].chrt_id == self.items[i].chrt_id {
                    proof {
                        assert(itv[j as int] == self.items@[j as int]@);
                        assert(itv[i as int] == self.items@[i as int]@);
                    }
                    return true;
                }
                j += 1;
            }
            i += 1;
        }
        false
    }

    /// Inserts the customer row if its key is absent and leaves an existing
    /// row untouched; never fails on a duplicate customer.
    pub fn insert_customer(&self, store: &mut OrderStore) -> (r: Result<(), OrderError>)
        ensures
            r is Ok,
            final(store)@ == (StoreView {
                customers: if has_customer(old(store)@, self@.customer_id) {
                    old(store)@.customers
                } else {
                    old(store)@.customers.push(customer_row_of(self@))
                },
                ..old(store)@
            }),
    {
        if !store.contains_customer(&self.customer_id) {
            store.customers.push(
                CustomerRow {
                    customer_id: self.customer_id.clone(),
                    name: self.delivery.name.clone(),
                    phone: self.delivery.phone.clone(),
                    zip: self.delivery.zip.clone(),
                    city: self.delivery.city.clone(),
                    address: self.delivery.address.clone(),
                    region: self.delivery.region.clone(),
                    email: self.delivery.email.clone(),
                },
            );
        }
        Ok(())
    }

    /// Inserts the order row, converting `date_created` from its wire string
    /// to the stored timestamp; an unparseable date is rejected before the
    /// uid is checked, and a stored uid is a duplicate-key failure.
    pub fn insert_order(&self, store: &mut OrderStore) -> (r: Result<(), OrderError>)
        ensures
            match r {
                Ok(()) => parse_datetime(self@.date_created) is Some && !has_order(
                    old(store)@,
                    self@.order_uid,
                ) && final(store)@ == (StoreView {
                    orders: old(store)@.orders.push(order_row_of(self@)),
                    ..old(store)@
                }),
                Err(e) => final(store)@ == old(store)@ && if parse_datetime(
                    self@.date_created,
                ) is None {
                    e@ == OrderErrorView::Validation {
                        msg: "date_created is invalid"@,
                        field: "date_created"@,
                    }
                } else {
                    has_order(old(store)@, self@.order_uid) && e@ == OrderErrorView::Duplicate {
                        field: "order_uid"@,
                    }
                },
            },
    {
        let dt = match parse_date_created(self.date_created.as_str()) {
            Some(dt) => dt,
            None => {
                return Err(
                    OrderError::Validation {
                        msg: String::from_str("date_created is invalid"),
                        field: String::from_str("date_created"),
                    },
                );
            },
        };
        if store.contains_order_uid(&self.order_uid) {
            return Err(OrderError::Duplicate { field: String::from_str("order_uid") });
        }
        store.orders.push(
            OrderRow {
                order_uid: self.order_uid.clone(),
                track_number: self.track_number.clone(),
                entry: self.entry.clone(),
                customer_id: self.customer_id.clone(),
                delivery_service: self.delivery_service.clone(),
                shardkey: self.shardkey.clone(),
                sm_id: self.sm_id,
                date_created: dt,
                oof_shard: self.oof_shard.clone(),
            },
        );
        Ok(())
    }

    /// Inserts the payment row; a stored transaction key is a constraint
    /// failure (its field is not one the service names).
    pub fn insert_payment(&self, store: &mut OrderStore) -> (r: Result<(), OrderError>)
        ensures
            match r {
                Ok(()) => !has_payment_txn(old(store)@, self@.payment.transaction) && final(store)@ == (StoreView {
                    payments: old(store)@.payments.push(payment_row_of(self@)),
                    ..old(store)@
                }),
                Err(e) => has_payment_txn(old(store)@, self@.payment.transaction) && final(store)@ == old(store)@ && e@ == OrderErrorView::ReferentialOrConstraint,
            },
    {
        if store.contains_payment_txn(&self.payment.transaction) {
            return Err(OrderError::ReferentialOrConstraint);
        }
        store.payments.push(
            PaymentRow {
                transaction: self.payment.transaction.clone(),
                order_uid: self.order_uid.clone(),
                request_id: self.payment.request_id.clone(),
                currency: self.payment.currency.clone(),
                provider: self.payment.provider.clone(),
                amount: self.payment.amount,
                payment_dt: self.payment.payment_dt,
                bank: self.payment.bank.clone(),
                delivery_cost: self.payment.delivery_cost,
                goods_total: self.payment.goods_total,
                custom_fee: self.payment.custom_fee,
            },
        );
        Ok(())
    }

    /// Inserts every item of the order, in the order's own item order; any
    /// `chrt_id` collision — with a stored row or inside the batch — fails
    /// the whole insert and stores nothing.
    pub fn insert_items(&self, store: &mut OrderStore) -> (r: Result<(), OrderError>)
        ensures
            match r {
                Ok(()) => !items_conflict(old(store)@.items, self@.items) && final(store)@
                    == (StoreView {
                    items: old(store)@.items + items_rows_of(self@),
                    ..old(store)@
                }),
                Err(e) => items_conflict(old(store)@.items, self@.items) && final(store)@ == old(
                    store,
                )@ && e@ == OrderErrorView::Duplicate { field: "chrt_id"@ },
            },
    {
        if self.has_items_conflict(store) {
            return Err(OrderError::Duplicate { field: String::from_str("chrt_id") });
        }
        let ghost s0 = store@;
        let mut k: usize = 0;
        while k < self.items.len()
            invariant
                k <= self.items.len(),
                self@.items.len() == self.items.len(),
                store@ == (StoreView {
                    items: s0.items + items_rows_of(self@).take(k as int),
                    ..s0
                }),
            decreases self.items.len() - k,
        {
            let it = &self.items[k];
            store.items.push(
                ItemRow {
                    chrt_id: it.chrt_id,
                    order_uid: self.order_uid.clone(),
                    track_number: it.track_number.clone(),
                    price: it.price,
                    rid: it.rid.clone(),
                    name: it.name.clone(),
                    sale: it.sale,
                    size: it.size.clone(),
                    total_price: it.total_price,
                    nm_id: it.nm_id,
                    brand: it.brand.clone(),
                    status: it.status,
                },
            );
            proof {
                assert(store@.items =~= s0.items + items_rows_of(self@).take(k as int + 1));
            }
            k += 1;
        }
        proof {
            assert(items_rows_of(self@).take(self.items.len() as int) =~= items_rows_of(self@));
        }
        Ok(())
    }
}

/// A committed ingestion preserves the store's well-formedness: the new keys
/// were checked absent, the new rows carry resolvable foreign keys, and the
/// stored timestamp comes from a successful parse.
pub proof fn lemma_after_submit_wf(s: StoreView, o: OrderView)
    requires
        wf(s),
        submit_error(s, o) is None,
    ensures
        wf(after_submit(s, o)),
{
    let t = after_submit(s, o);
    let on = s.orders.len() as int;
    let pn = s.payments.len() as int;
    let sn = s.items.len() as int;
    let rows = items_rows_of(o);
    assert forall|i: int, j: int|
        0 <= i < j < t.orders.len() implies t.orders[i].order_uid != t.orders[j].order_uid by {
        if j == on {
            assert(!uid_in_orders(s.orders, o.order_uid));
            assert(t.orders[i] == s.orders[i]);
        }
    }
    assert forall|i: int, j: int|
        0 <= i < j < t.customers.len() implies t.customers[i].customer_id
        != t.customers[j].customer_id by {
        if !has_customer(s, o.customer_id) && j == s.customers.len() {
            assert(!cid_in_customers(s.customers, o.customer_id));
            assert(t.customers[i] == s.customers[i]);
        }
    }
    assert forall|i: int, j: int|
        0 <= i < j < t.payments.len() implies t.payments[i].transaction
        != t.payments[j].transaction by {
        if j == pn {
            assert(!txn_in_payments(s.payments, o.payment.transaction));
            assert(t.payments[i] == s.payments[i]);
        }
    }
    assert forall|i: int, j: int|
        0 <= i < j < t.payments.len() implies t.payments[i].order_uid
        != t.payments[j].order_uid by {
        if j == pn {
            assert(uid_in_orders(s.orders, s.payments[i].order_uid));
            assert(!uid_in_orders(s.orders, o.order_uid));
        }
    }
    assert forall|i: int, j: int|
        0 <= i < j < t.items.len() implies t.items[i].chrt_id != t.items[j].chrt_id by {
        if i < sn && j >= sn {
            assert(t.items[i] == s.items[i]);
            assert(t.items[j] == rows[j - sn]);
            assert(!chrt_in_items(s.items, o.items[j - sn].chrt_id));
        } else if i >= sn {
            assert(t.items[i] == rows[i - sn]);
            assert(t.items[j] == rows[j - sn]);
            assert(o.items[i - sn].chrt_id != o.items[j - sn].chrt_id);
        }
    }
    assert forall|i: int|
        0 <= i < t.payments.len() implies uid_in_orders(
        t.orders,
        #[trigger] t.payments[i].order_uid,
    ) by {
        if i < pn {
            let k = choose|k: int|
                0 <= k < s.orders.len() && s.orders[k].order_uid == s.payments[i].order_uid;
            assert(t.orders[k].order_uid == t.payments[i].order_uid);
        } else {
            assert(t.orders[on].order_uid == o.order_uid);
        }
    }
    assert forall|i: int|
        0 <= i < t.items.len() implies uid_in_orders(
        t.orders,
        #[trigger] t.items[i].order_uid,
    ) by {
        if i < sn {
            let k = choose|k: int|
                0 <= k < s.orders.len() && s.orders[k].order_uid == s.items[i].order_uid;
            assert(t.orders[k].order_uid == t.items[i].order_uid);
        } else {
            assert(t.items[i] == rows[i - sn]);
            assert(t.orders[on].order_uid == o.order_uid);
        }
    }
    assert forall|i: int|
        0 <= i < t.orders.len() implies cid_in_customers(
        t.customers,
        #[trigger] t.orders[i].customer_id,
    ) by {
        if i < on {
            let k = choose|k: int|
                0 <= k < s.customers.len() && s.customers[k].customer_id
                    == s.orders[i].customer_id;
            assert(t.customers[k].customer_id == t.orders[i].customer_id);
        } else {
            if has_customer(s, o.customer_id) {
                let k = choose|k: int|
                    0 <= k < s.customers.len() && s.customers[k].customer_id == o.customer_id;
                assert(t.customers[k].customer_id == o.customer_id);
            } else {
                assert(t.customers[s.customers.len() as int].customer_id == o.customer_id);
            }
        }
    }
    assert forall|i: int|
        0 <= i < t.orders.len() implies uid_in_payments(
        t.payments,
        #[trigger] t.orders[i].order_uid,
    ) by {
        if i < on {
            let k = choose|k: int|
                0 <= k < s.payments.len() && s.payments[k].order_uid == s.orders[i].order_uid;
            assert(t.payments[k].order_uid == t.orders[i].order_uid);
        } else {
            assert(t.payments[pn].order_uid == o.order_uid);
        }
    }
    assert forall|i: int|
        0 <= i < t.orders.len() implies dt_valid(#[trigger] t.orders[i].date_created) by {
        if i < on {
            assert(t.orders[i] == s.orders[i]);
        }
    }
}

impl OrderStore {
    /// The whole ingestion transaction: converts `date_created`, inserts the
    /// customer if absent, then the order, payment and item rows — and on any
    /// failure stores nothing at all, exactly as a rolled-back transaction
    /// leaves the real schema. `Ok` exactly when `submit_error` is `None`;
    /// every failure is the error `submit_error` names, with the store
    /// unchanged.
    pub fn persist(&mut self, order: &Order) -> (r: Result<(), OrderError>)
        requires
            wf(old(self)@),
        ensures
            wf(final(self)@),
            (match r {
                Ok(()) => submit_error(old(self)@, order@) is None && final(self)@ == after_submit(
                    old(self)@,
                    order@,
                ),
                Err(e) => submit_error(old(self)@, order@) == Some(e@) && final(self)@ == old(
                    self,
                )@,
            }),
    {
        if parse_date_created(order.date_created.as_str()).is_none() {
            return Err(
                OrderError::Validation {
                    msg: String::from_str("date_created is invalid"),
                    field: String::from_str("date_created"),
                },
            );
        }
        if self.contains_order_uid(&order.order_uid) {
            return Err(OrderError::Duplicate { field: String::from_str("order_uid") });
        }
        if self.contains_payment_txn(&order.payment.transaction) {
            return Err(OrderError::ReferentialOrConstraint);
        }
        if order.has_items_conflict(self) {
            return Err(OrderError::Duplicate { field: String::from_str("chrt_id") });
        }
        let ghost s0 = self@;
        let _ = order.insert_customer(self);
        let r2 = order.insert_order(self);
        let r3 = order.insert_payment(self);
        let r4 = order.insert_items(self);
        proof {
            assert(r2 is Ok);
            assert(r3 is Ok);
            assert(r4 is Ok);
            assert(self@ == after_submit(s0, order@));
            lemma_after_submit_wf(s0, order@);
        }
        Ok(())
    }
}

} // verus!
