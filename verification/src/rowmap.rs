//! Row-to-aggregate mapping for reads.
//!
//! A read runs one inner join across the orders, customers, payment and items
//! tables; every row of the result carries the full order, customer and
//! payment columns beside one item's columns. `JoinedRow` is such a row as
//! plain values. One row maps to an `Order` with a single-element item list;
//! rows sharing an `order_uid` are merged into one `Order` with the items
//! accumulated in row order.

use crate::models::{views_of, Delivery, DeliveryView, Item, ItemView, Order, OrderView, Payment,
    PaymentView};
use vstd::prelude::*;

verus! {

broadcast use crate::models::lemma_views_push;

/// One row of the read join, flat, column for column; `date_created` is the
/// stored timestamp already rendered back to its wire string, and
/// `payment_unix_timestamp` the stored payment instant as the epoch integer
/// it was submitted as.
pub struct JoinedRow {
    pub order_uid: String,
    pub track_number: String,
    pub entry: String,
    pub delivery_service: String,
    pub customer_id: String,
    pub shardkey: String,
    pub sm_id: i32,
    pub date_created: String,
    pub oof_shard: String,
    pub delivery_name: String,
    pub delivery_phone: String,
    pub delivery_zip: String,
    pub delivery_city: String,
    pub delivery_address: String,
    pub delivery_region: String,
    pub delivery_email: String,
    pub transaction: String,
    pub request_id: String,
    pub currency: String,
    pub provider: String,
    pub amount: i32,
    pub payment_unix_timestamp: i64,
    pub bank: String,
    pub delivery_cost: i32,
    pub goods_total: i32,
    pub custom_fee: i32,
    pub chrt_id: i64,
    pub item_track_number: String,
    pub price: i32,
    pub rid: String,
    pub item_name: String,
    pub sale: i32,
    pub size: String,
    pub total_price: i32,
    pub nm_id: i64,
    pub brand: String,
    pub status: i32,
}

/// Mathematical image of a `JoinedRow`: the order's scalar columns beside the
/// nested delivery, payment and item images its columns spell.
pub struct JoinedRowView {
    pub order_uid: Seq<char>,
    pub track_number: Seq<char>,
    pub entry: Seq<char>,
    pub delivery_service: Seq<char>,
    pub customer_id: Seq<char>,
    pub shardkey: Seq<char>,
    pub sm_id: int,
    pub date_created: Seq<char>,
    pub oof_shard: Seq<char>,
    pub delivery: DeliveryView,
    pub payment: PaymentView,
    pub item: ItemView,
}

impl View for JoinedRow {
    type V = JoinedRowView;

    open spec fn view(&self) -> JoinedRowView {
        JoinedRowView {
            order_uid: self.order_uid@,
            track_number: self.track_number@,
            entry: self.entry@,
            delivery_service: self.delivery_service@,
            customer_id: self.customer_id@,
            shardkey: self.shardkey@,
            sm_id: self.sm_id as int,
            date_created: self.date_created@,
            oof_shard: self.oof_shard@,
            delivery: DeliveryView {
                name: self.delivery_name@,
                phone: self.delivery_phone@,
                zip: self.delivery_zip@,
                city: self.delivery_city@,
                address: self.delivery_address@,
                region: self.delivery_region@,
                email: self.delivery_email@,
            },
            payment: PaymentView {
                transaction: self.transaction@,
                request_id: self.request_id@,
                currency: self.currency@,
                provider: self.provider@,
                amount: self.amount as int,
                payment_dt: self.payment_unix_timestamp as int,
                bank: self.bank@,
                delivery_cost: self.delivery_cost as int,
                goods_total: self.goods_total as int,
                custom_fee: self.custom_fee as int,
            },
            item: ItemView {
                chrt_id: self.chrt_id as int,
                track_number: self.item_track_number@,
                price: self.price as int,
                rid: self.rid@,
                name: self.item_name@,
                sale: self.sale as int,
                size: self.size@,
                total_price: self.total_price as int,
                nm_id: self.nm_id as int,
                brand: self.brand@,
                status: self.status as int,
            },
        }
    }
}

/// The order one row alone spells: the aggregate with exactly that row's
/// item as its whole item list.
pub open spec fn order_of_row(r: JoinedRowView) -> OrderView {
    OrderView {
        order_uid: r.order_uid,
        track_number: r.track_number,
        entry: r.entry,
        delivery: r.delivery,
        payment: r.payment,
        items: seq![r.item],
        delivery_service: r.delivery_service,
        customer_id: r.customer_id,
        shardkey: r.shardkey,
        sm_id: r.sm_id,
        date_created: r.date_created,
        oof_shard: r.oof_shard,
    }
}

/// An order with one more item appended.
pub open spec fn append_item(o: OrderView, it: ItemView) -> OrderView {
    OrderView { items: o.items.push(it), ..o }
}

/// The order a non-empty run of rows sharing one uid spells: the first row's
/// scalar columns, with every row's item accumulated in row order.
pub open spec fn merged_of(rows: Seq<JoinedRowView>) -> OrderView
    recommends
        rows.len() > 0,
{
    OrderView {
        items: rows.map_values(|r: JoinedRowView| r.item),
        ..order_of_row(rows[0])
    }
}

/// Grouping a row list into aggregates: each row either extends the order the
/// row just before it started (same uid) or starts a new one.
pub open spec fn group_rows_model(rows: Seq<JoinedRowView>) -> Seq<OrderView>
    decreases rows.len(),
{
    if rows.len() == 0 {
        Seq::empty()
    } else {
        let g = group_rows_model(rows.drop_last());
        let r = rows.last();
        if g.len() > 0 && g.last().order_uid == r.order_uid {
            g.update(g.len() - 1, append_item(g.last(), r.item))
        } else {
            g.push(order_of_row(r))
        }
    }
}

/// Rows that all carry one uid group into exactly one aggregate: the first
/// row's scalar fields with every row's item accumulated — what a single-uid
/// read must reconstruct.
pub proof fn lemma_group_single_uid(rows: Seq<JoinedRowView>)
    requires
        rows.len() > 0,
        forall|i: int| 0 <= i < rows.len() ==> (#[trigger] rows[i]).order_uid == rows[0].order_uid,
    ensures
        group_rows_model(rows) == seq![merged_of(rows)],
    decreases rows.len(),
{
    if rows.len() == 1 {
        assert(group_rows_model(rows.drop_last()) == Seq::<OrderView>::empty());
        assert(merged_of(rows) == order_of_row(rows[0])) by {
            assert(merged_of(rows).items =~= seq![rows[0].item]);
        };
        assert(group_rows_model(rows) =~= seq![merged_of(rows)]);
    } else {
        let prefix = rows.drop_last();
        assert(forall|i: int|
            0 <= i < prefix.len() ==> (#[trigger] prefix[i]).order_uid == prefix[0].order_uid);
        lemma_group_single_uid(prefix);
        let g = group_rows_model(prefix);
        assert(g.last() == merged_of(prefix));
        assert(rows.last().order_uid == merged_of(prefix).order_uid);
        assert(merged_of(rows) == append_item(merged_of(prefix), rows.last().item)) by {
            assert(merged_of(rows).items =~= merged_of(prefix).items.push(rows.last().item));
        };
        assert(group_rows_model(rows) =~= seq![merged_of(rows)]);
    }
}

impl Delivery {
    /// The delivery contact details a joined row carries.
    pub fn from_row(row: &JoinedRow) -> (d: Delivery)
        ensures
            d@ == row@.delivery,
    {
        Delivery {
            name: row.delivery_name.clone(),
            phone: row.delivery_phone.clone(),
            zip: row.delivery_zip.clone(),
            city: row.delivery_city.clone(),
            address: row.delivery_address.clone(),
            region: row.delivery_region.clone(),
            email: row.delivery_email.clone(),
        }
    }
}

impl Payment {
    /// The payment a joined row carries; the epoch-integer column lands in
    /// `payment_dt` unchanged, no further date parsing.
    pub fn from_row(row: &JoinedRow) -> (p: Payment)
        ensures
            p@ == row@.payment,
    {
        Payment {
            transaction: row.transaction.clone(),
            request_id: row.request_id.clone(),
            currency: row.currency.clone(),
            provider: row.provider.clone(),
            amount: row.amount,
            payment_dt: row.payment_unix_timestamp,
            bank: row.bank.clone(),
            delivery_cost: row.delivery_cost,
            goods_total: row.goods_total,
            custom_fee: row.custom_fee,
        }
    }
}

impl Item {
    /// The one item a joined row carries.
    pub fn from_row(row: &JoinedRow) -> (it: Item)
        ensures
            it@ == row@.item,
    {
        Item {
            chrt_id: row.chrt_id,
            track_number: row.item_track_number.clone(),
            price: row.price,
            rid: row.rid.clone(),
            name: row.item_name.clone(),
            sale: row.sale,
            size: row.size.clone(),
            total_price: row.total_price,
            nm_id: row.nm_id,
            brand: row.brand.clone(),
            status: row.status,
        }
    }
}

impl Order {
    /// The aggregate one joined row alone spells, its item list holding just
    /// that row's item; a caller with several rows of one order merges them
    /// with `group_rows`.
    pub fn from_row(row: &JoinedRow) -> (o: Order)
        ensures
            o@ == order_of_row(row@),
    {
        let mut items: Vec<Item> = Vec::new();
        items.push(Item::from_row(row));
        let o = Order {
            order_uid: row.order_uid.clone(),
            track_number: row.track_number.clone(),
            entry: row.entry.clone(),
            delivery: Delivery::from_row(row),
            payment: Payment::from_row(row),
            items,
            delivery_service: row.delivery_service.clone(),
            customer_id: row.customer_id.clone(),
            shardkey: row.shardkey.clone(),
            sm_id: row.sm_id,
            date_created: row.date_created.clone(),
            oof_shard: row.oof_shard.clone(),
        };
        proof {
            assert(o@.items =~= seq![row@.item]);
        }
        o
    }
}

/// Merges joined rows into aggregates: a row whose uid matches the order the
/// previous row belongs to adds its item to that order, any other row starts
/// a new order.
pub fn group_rows(rows: &Vec<JoinedRow>) -> (orders: Vec<Order>)
    ensures
        views_of(orders@) == group_rows_model(views_of(rows@)),
{
    let ghost rv = views_of(rows@);
    let mut orders: Vec<Order> = Vec::new();
    let mut i: usize = 0;
    while i < rows.len()
        invariant
            i <= rows.len(),
            rv == views_of(rows@),
            rv.len() == rows.len(),
            views_of(orders@) == group_rows_model(rv.take(i as int)),
        decreases rows.len() - i,
    {
        let row = &rows[i];
        proof {
            assert(rv[i as int] == rows@[i as int]@);
            assert(rv.take(i as int + 1).drop_last() =~= rv.take(i as int));
            assert(rv.take(i as int + 1).last() == rv[i as int]);
        }
        let same = orders.len() > 0 && orders[orders.len() - 1].order_uid == row.order_uid;
        if same {
            proof {
                assert(views_of(orders@)[orders@.len() - 1] == orders@[orders@.len() - 1]@);
            }
            let mut last = match orders.pop() {
                Some(o) => o,
                None => {
                    proof {
                        assert(false);
                    }
                    vstd::pervasive::unreached()
                },
            };
            let ghost g = views_of(orders@.push(last));
            last.items.push(Item::from_row(row));
            proof {
                assert(last@ == append_item(g.last(), rv[i as int].item)) by {
                    assert(last@.items =~= g.last().items.push(rv[i as int].item));
                };
            }
            orders.push(last);
            proof {
                assert(views_of(orders@) =~= g.update(
                    g.len() - 1,
                    append_item(g.last(), rv[i as int].item),
                ));
            }
        } else {
            orders.push(Order::from_row(row));
        }
        i += 1;
    }
    proof {
        assert(rv.take(rows.len() as int) =~= rv);
    }
    orders
}

} // verus!
