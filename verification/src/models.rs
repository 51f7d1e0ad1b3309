//! The order aggregate: an `Order` owns one `Delivery`, one `Payment`, and an
//! ordered sequence of `Item`s, all tied together by `order_uid`.

use vstd::prelude::*;

verus! {

/// Delivery contact details nested inside an `Order`.
pub struct Delivery {
    pub name: String,
    pub phone: String,
    pub zip: String,
    pub city: String,
    pub address: String,
    pub region: String,
    pub email: String,
}

/// Mathematical image of a `Delivery`: every text field as a sequence of characters.
pub struct DeliveryView {
    pub name: Seq<char>,
    pub phone: Seq<char>,
    pub zip: Seq<char>,
    pub city: Seq<char>,
    pub address: Seq<char>,
    pub region: Seq<char>,
    pub email: Seq<char>,
}

impl View for Delivery {
    type V = DeliveryView;

    open spec fn view(&self) -> DeliveryView {
        DeliveryView {
            name: self.name@,
            phone: self.phone@,
            zip: self.zip@,
            city: self.city@,
            address: self.address@,
            region: self.region@,
            email: self.email@,
        }
    }
}

/// Payment record associated one-to-one with an `Order`; `payment_dt` is a
/// Unix-epoch timestamp carried as an integer on the wire.
pub struct Payment {
    pub transaction: String,
    pub request_id: String,
    pub currency: String,
    pub provider: String,
    pub amount: i32,
    pub payment_dt: i64,
    pub bank: String,
    pub delivery_cost: i32,
    pub goods_total: i32,
    pub custom_fee: i32,
}

/// Mathematical image of a `Payment`.
pub struct PaymentView {
    pub transaction: Seq<char>,
    pub request_id: Seq<char>,
    pub currency: Seq<char>,
    pub provider: Seq<char>,
    pub amount: int,
    pub payment_dt: int,
    pub bank: Seq<char>,
    pub delivery_cost: int,
    pub goods_total: int,
    pub custom_fee: int,
}

impl View for Payment {
    type V = PaymentView;

    open spec fn view(&self) -> PaymentView {
        PaymentView {
            transaction: self.transaction@,
            request_id: self.request_id@,
            currency: self.currency@,
            provider: self.provider@,
            amount: self.amount as int,
            payment_dt: self.payment_dt as int,
            bank: self.bank@,
            delivery_cost: self.delivery_cost as int,
            goods_total: self.goods_total as int,
            custom_fee: self.custom_fee as int,
        }
    }
}

/// One line item of an `Order`, keyed by `chrt_id`.
pub struct Item {
    pub chrt_id: i64,
    pub track_number: String,
    pub price: i32,
    pub rid: String,
    pub name: String,
    pub sale: i32,
    pub size: String,
    pub total_price: i32,
    pub nm_id: i64,
    pub brand: String,
    pub status: i32,
}

/// Mathematical image of an `Item`.
pub struct ItemView {
    pub chrt_id: int,
    pub track_number: Seq<char>,
    pub price: int,
    pub rid: Seq<char>,
    pub name: Seq<char>,
    pub sale: int,
    pub size: Seq<char>,
    pub total_price: int,
    pub nm_id: int,
    pub brand: Seq<char>,
    pub status: int,
}

impl View for Item {
    type V = ItemView;

    open spec fn view(&self) -> ItemView {
        ItemView {
            chrt_id: self.chrt_id as int,
            track_number: self.track_number@,
            price: self.price as int,
            rid: self.rid@,
            name: self.name@,
            sale: self.sale as int,
            size: self.size@,
            total_price: self.total_price as int,
            nm_id: self.nm_id as int,
            brand: self.brand@,
            status: self.status as int,
        }
    }
}

/// The root aggregate. `order_uid` is the globally unique conflict key;
/// `date_created` arrives as an ISO-8601-like string and is converted to a
/// typed timestamp when the order is persisted.
pub struct Order {
    pub order_uid: String,
    pub track_number: String,
    pub entry: String,
    pub delivery: Delivery,
    pub payment: Payment,
    pub items: Vec<Item>,
    pub delivery_service: String,
    pub customer_id: String,
    pub shardkey: String,
    pub sm_id: i32,
    pub date_created: String,
    pub oof_shard: String,
}

/// Mathematical image of an `Order`.
pub struct OrderView {
    pub order_uid: Seq<char>,
    pub track_number: Seq<char>,
    pub entry: Seq<char>,
    pub delivery: DeliveryView,
    pub payment: PaymentView,
    pub items: Seq<ItemView>,
    pub delivery_service: Seq<char>,
    pub customer_id: Seq<char>,
    pub shardkey: Seq<char>,
    pub sm_id: int,
    pub date_created: Seq<char>,
    pub oof_shard: Seq<char>,
}

impl View for Order {
    type V = OrderView;

    open spec fn view(&self) -> OrderView {
        OrderView {
            order_uid: self.order_uid@,
            track_number: self.track_number@,
            entry: self.entry@,
            delivery: self.delivery@,
            payment: self.payment@,
            items: self.items@.map_values(|it: Item| it@),
            delivery_service: self.delivery_service@,
            customer_id: self.customer_id@,
            shardkey: self.shardkey@,
            sm_id: self.sm_id as int,
            date_created: self.date_created@,
            oof_shard: self.oof_shard@,
        }
    }
}

/// The views of a sequence of values, element by element.
pub open spec fn views_of<T: View>(v: Seq<T>) -> Seq<T::V> {
    v.map_values(|t: T| t@)
}

pub broadcast proof fn lemma_views_push<T: View>(v: Seq<T>, x: T)
    ensures
        #[trigger] views_of(v.push(x)) == views_of(v).push(x@),
{
    assert(views_of(v.push(x)) =~= views_of(v).push(x@));
}

/// Envelope returned by the order-list endpoint.
pub struct OrderResponse {
    pub orders: Vec<Order>,
}

impl View for OrderResponse {
    type V = Seq<OrderView>;

    open spec fn view(&self) -> Seq<OrderView> {
        views_of(self.orders@)
    }
}

/// Query parameters of the order-list endpoint; absent values fall back to
/// a limit of 10 and an offset of 0.
pub struct Pagination {
    pub limit: Option<u32>,
    pub offset: Option<u32>,
}

} // verus!
