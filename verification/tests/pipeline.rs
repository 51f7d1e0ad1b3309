use order_service::handlers::{create_order, get_order, get_order_by_id, get_orders};
use order_service::models::{Delivery, Item, Order, Pagination, Payment};
use order_service::store::OrderStore;
use order_service::errors::OrderError;

fn item(chrt_id: i64) -> Item {
    Item {
        chrt_id,
        track_number: "WBILMTESTTRACK".to_string(),
        price: 453,
        rid: "ab4219087a764ae0btest".to_string(),
        name: "Mascaras".to_string(),
        sale: 30,
        size: "0".to_string(),
        total_price: 317,
        nm_id: 2389212,
        brand: "Vivienne Sabo".to_string(),
        status: 202,
    }
}

fn order_with(uid: &str, customer: &str, chrt_ids: &[i64]) -> Order {
    Order {
        order_uid: uid.to_string(),
        track_number: "WBILMTESTTRACK".to_string(),
        entry: "WBIL".to_string(),
        delivery: Delivery {
            name: "Test Testov".to_string(),
            phone: "+9720000000".to_string(),
            zip: "2639809".to_string(),
            city: "Kiryat Mozkin".to_string(),
            address: "Ploshad Mira 15".to_string(),
            region: "Kraiot".to_string(),
            email: "test@gmail.com".to_string(),
        },
        payment: Payment {
            transaction: format!("{uid}-txn"),
            request_id: String::new(),
            currency: "USD".to_string(),
            provider: "wbpay".to_string(),
            amount: 1817,
            payment_dt: 1637907727,
            bank: "alpha".to_string(),
            delivery_cost: 1500,
            goods_total: 317,
            custom_fee: 0,
        },
        items: chrt_ids.iter().map(|&c| item(c)).collect(),
        delivery_service: "meest".to_string(),
        customer_id: customer.to_string(),
        shardkey: "9".to_string(),
        sm_id: 99,
        date_created: "2021-11-26T06:22:19Z".to_string(),
        oof_shard: "1".to_string(),
    }
}

#[test]
fn blank_field_stores_nothing() {
    let mut store = OrderStore::new();
    let mut order = order_with("uid-1", "cust-1", &[1]);
    order.delivery.email = String::new();
    let r = create_order(&mut store, &order);
    match r {
        Err(OrderError::Validation { field, .. }) => assert_eq!(field, "email"),
        _ => panic!("expected a validation error"),
    }
    let uid = "uid-1".to_string();
    assert!(get_order_by_id(&store, &uid).is_err());
    let all = get_orders(&store, &Pagination { limit: None, offset: None });
    assert_eq!(all.orders.len(), 0);
}

#[test]
fn invalid_date_is_a_validation_error() {
    let mut store = OrderStore::new();
    let order = order_with_date("uid-1", "2021-11-26 06:22:19");
    match create_order(&mut store, &order) {
        Err(OrderError::Validation { msg, field }) => {
            assert_eq!(field, "date_created");
            assert_eq!(msg, "date_created is invalid");
        },
        _ => panic!("expected a validation error"),
    }
    let uid = "uid-1".to_string();
    assert!(get_order_by_id(&store, &uid).is_err());
}

fn order_with_date(uid: &str, date: &str) -> Order {
    let mut o = order_with(uid, "cust-1", &[1]);
    o.date_created = date.to_string();
    o
}

#[test]
fn duplicate_order_uid_conflicts_and_keeps_first() {
    let mut store = OrderStore::new();
    let first = order_with("uid-1", "cust-1", &[1, 2]);
    assert!(create_order(&mut store, &first).is_ok());
    let second = order_with("uid-1", "cust-2", &[3]);
    let r = create_order(&mut store, &second);
    match r {
        Err(OrderError::Duplicate { field }) => assert_eq!(field, "order_uid"),
        _ => panic!("expected a duplicate error"),
    }
    let uid = "uid-1".to_string();
    let kept = get_order_by_id(&store, &uid).unwrap();
    assert_eq!(kept.customer_id, "cust-1");
    assert_eq!(kept.payment.transaction, "uid-1-txn");
    assert_eq!(kept.items.len(), 2);
    assert_eq!(kept.items[0].chrt_id, 1);
    assert_eq!(kept.items[1].chrt_id, 2);
    let all = get_orders(&store, &Pagination { limit: None, offset: None });
    assert_eq!(all.orders.len(), 1);
}

#[test]
fn customer_insert_is_idempotent() {
    let mut store = OrderStore::new();
    let first = order_with("uid-1", "shared-customer", &[1]);
    assert!(create_order(&mut store, &first).is_ok());
    let mut second = order_with("uid-2", "shared-customer", &[2]);
    second.delivery.city = "Another City".to_string();
    second.delivery.address = "Another Address 1".to_string();
    assert!(create_order(&mut store, &second).is_ok());
    // the read joins the customers table: both orders surface the first
    // submission's delivery details, the second never overwrote them
    let uid2 = "uid-2".to_string();
    let got = get_order_by_id(&store, &uid2).unwrap();
    assert_eq!(got.delivery.city, "Kiryat Mozkin");
    assert_eq!(got.delivery.address, "Ploshad Mira 15");
}

#[test]
fn duplicate_chrt_id_within_batch_stores_nothing() {
    let mut store = OrderStore::new();
    let order = order_with("uid-1", "cust-1", &[7, 7]);
    match create_order(&mut store, &order) {
        Err(OrderError::Duplicate { field }) => assert_eq!(field, "chrt_id"),
        _ => panic!("expected a duplicate error"),
    }
    let uid = "uid-1".to_string();
    assert!(get_order_by_id(&store, &uid).is_err());
    let all = get_orders(&store, &Pagination { limit: None, offset: None });
    assert_eq!(all.orders.len(), 0);
}

#[test]
fn duplicate_chrt_id_across_orders_stores_nothing_of_the_second() {
    let mut store = OrderStore::new();
    assert!(create_order(&mut store, &order_with("uid-1", "cust-1", &[7])).is_ok());
    let second = order_with("uid-2", "cust-2", &[8, 7]);
    match create_order(&mut store, &second) {
        Err(OrderError::Duplicate { field }) => assert_eq!(field, "chrt_id"),
        _ => panic!("expected a duplicate error"),
    }
    // transactional atomicity: nothing of the failed submission is visible
    let uid2 = "uid-2".to_string();
    assert!(get_order_by_id(&store, &uid2).is_err());
    let all = get_orders(&store, &Pagination { limit: None, offset: None });
    assert_eq!(all.orders.len(), 1);
    assert_eq!(all.orders[0].order_uid, "uid-1");
}

#[test]
fn round_trip_reproduces_every_scalar_field() {
    let mut store = OrderStore::new();
    let submitted = order_with("uid-rt", "cust-rt", &[11, 12]);
    assert!(create_order(&mut store, &submitted).is_ok());
    let uid = "uid-rt".to_string();
    let got = get_order_by_id(&store, &uid).unwrap();
    assert_eq!(got.order_uid, submitted.order_uid);
    assert_eq!(got.track_number, submitted.track_number);
    assert_eq!(got.entry, submitted.entry);
    assert_eq!(got.delivery_service, submitted.delivery_service);
    assert_eq!(got.customer_id, submitted.customer_id);
    assert_eq!(got.shardkey, submitted.shardkey);
    assert_eq!(got.sm_id, submitted.sm_id);
    assert_eq!(got.date_created, submitted.date_created);
    assert_eq!(got.oof_shard, submitted.oof_shard);
    assert_eq!(got.delivery.name, submitted.delivery.name);
    assert_eq!(got.delivery.phone, submitted.delivery.phone);
    assert_eq!(got.delivery.zip, submitted.delivery.zip);
    assert_eq!(got.delivery.city, submitted.delivery.city);
    assert_eq!(got.delivery.address, submitted.delivery.address);
    assert_eq!(got.delivery.region, submitted.delivery.region);
    assert_eq!(got.delivery.email, submitted.delivery.email);
    assert_eq!(got.payment.transaction, submitted.payment.transaction);
    assert_eq!(got.payment.request_id, submitted.payment.request_id);
    assert_eq!(got.payment.currency, submitted.payment.currency);
    assert_eq!(got.payment.provider, submitted.payment.provider);
    assert_eq!(got.payment.amount, submitted.payment.amount);
    assert_eq!(got.payment.payment_dt, submitted.payment.payment_dt);
    assert_eq!(got.payment.bank, submitted.payment.bank);
    assert_eq!(got.payment.delivery_cost, submitted.payment.delivery_cost);
    assert_eq!(got.payment.goods_total, submitted.payment.goods_total);
    assert_eq!(got.payment.custom_fee, submitted.payment.custom_fee);
    assert_eq!(got.items.len(), 2);
    for (a, b) in got.items.iter().zip(submitted.items.iter()) {
        assert_eq!(a.chrt_id, b.chrt_id);
        assert_eq!(a.track_number, b.track_number);
        assert_eq!(a.price, b.price);
        assert_eq!(a.rid, b.rid);
        assert_eq!(a.name, b.name);
        assert_eq!(a.sale, b.sale);
        assert_eq!(a.size, b.size);
        assert_eq!(a.total_price, b.total_price);
        assert_eq!(a.nm_id, b.nm_id);
        assert_eq!(a.brand, b.brand);
        assert_eq!(a.status, b.status);
    }
}

#[test]
fn pagination_windows_the_stored_orders() {
    let mut store = OrderStore::new();
    for i in 0..15i64 {
        let order = order_with(&format!("uid-{i:02}"), &format!("cust-{i}"), &[100 + i]);
        assert!(create_order(&mut store, &order).is_ok());
    }
    let page = get_orders(&store, &Pagination { limit: Some(10), offset: Some(10) });
    assert_eq!(page.orders.len(), 5);
    for (k, o) in page.orders.iter().enumerate() {
        assert_eq!(o.order_uid, format!("uid-{:02}", 10 + k));
    }
    // stable and consistent across repeated calls
    let again = get_orders(&store, &Pagination { limit: Some(10), offset: Some(10) });
    assert_eq!(again.orders.len(), page.orders.len());
    for (a, b) in again.orders.iter().zip(page.orders.iter()) {
        assert_eq!(a.order_uid, b.order_uid);
    }
    // defaults: limit 10, offset 0
    let first = get_orders(&store, &Pagination { limit: None, offset: None });
    assert_eq!(first.orders.len(), 10);
    assert_eq!(first.orders[0].order_uid, "uid-00");
    // a window past the end is empty
    let empty = get_orders(&store, &Pagination { limit: Some(10), offset: Some(20) });
    assert_eq!(empty.orders.len(), 0);
}

#[test]
fn grouping_accumulates_items_per_order() {
    let mut store = OrderStore::new();
    assert!(create_order(&mut store, &order_with("uid-a", "cust-1", &[1, 2])).is_ok());
    assert!(create_order(&mut store, &order_with("uid-b", "cust-2", &[3, 4])).is_ok());
    assert!(create_order(&mut store, &order_with("uid-c", "cust-3", &[5, 6])).is_ok());
    let all = get_orders(&store, &Pagination { limit: Some(10), offset: Some(0) });
    assert_eq!(all.orders.len(), 3);
    assert_eq!(all.orders[0].order_uid, "uid-a");
    assert_eq!(all.orders[0].items.len(), 2);
    assert_eq!(all.orders[1].items.len(), 2);
    assert_eq!(all.orders[2].items.len(), 2);
}

#[test]
fn pagination_windows_join_rows_not_orders() {
    // limit and offset bound the joined rows, as the query does: a window can
    // cut an order's item run, and the cut order surfaces with the items that
    // fall inside the window
    let mut store = OrderStore::new();
    assert!(create_order(&mut store, &order_with("uid-a", "cust-1", &[1, 2])).is_ok());
    assert!(create_order(&mut store, &order_with("uid-b", "cust-2", &[3, 4])).is_ok());
    assert!(create_order(&mut store, &order_with("uid-c", "cust-3", &[5, 6])).is_ok());
    let page = get_orders(&store, &Pagination { limit: Some(3), offset: Some(1) });
    assert_eq!(page.orders.len(), 2);
    assert_eq!(page.orders[0].order_uid, "uid-a");
    assert_eq!(page.orders[0].items.len(), 1);
    assert_eq!(page.orders[0].items[0].chrt_id, 2);
    assert_eq!(page.orders[1].order_uid, "uid-b");
    assert_eq!(page.orders[1].items.len(), 2);
    assert_eq!(page.orders[1].items[0].chrt_id, 3);
    assert_eq!(page.orders[1].items[1].chrt_id, 4);
}

#[test]
fn missing_order_is_not_found() {
    let mut store = OrderStore::new();
    assert!(create_order(&mut store, &order_with("uid-1", "cust-1", &[1])).is_ok());
    let absent = "uid-absent".to_string();
    match get_order_by_id(&store, &absent) {
        Err(OrderError::NotFound) => {},
        _ => panic!("expected not-found"),
    }
    match get_order(&store, &absent) {
        Err(resp) => {
            assert_eq!(resp.status, 404);
            assert!(!resp.success);
            assert_eq!(resp.message, "Order not found");
        },
        Ok(_) => panic!("expected not-found"),
    }
}

#[test]
fn present_order_is_returned_by_get_order() {
    let mut store = OrderStore::new();
    assert!(create_order(&mut store, &order_with("uid-1", "cust-1", &[1])).is_ok());
    let uid = "uid-1".to_string();
    let got = get_order(&store, &uid).unwrap();
    assert_eq!(got.order_uid, "uid-1");
    assert_eq!(got.items.len(), 1);
}
