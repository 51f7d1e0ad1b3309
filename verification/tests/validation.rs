use order_service::datetime::{parse_date_created, format_date_created, DateTime};
use order_service::errors::{classify_db_failure, created_response, DbFailure, OrderError};
use order_service::models::{Delivery, Item, Order, Payment};

fn sample_order(uid: &str) -> Order {
    Order {
        order_uid: uid.to_string(),
        track_number: "WBILMTESTTRACK".to_string(),
        entry: "WBIL".to_string(),
        delivery: Delivery {
            name: "Test Testov".to_string(),
            phone: "+9720000000".to_string(),
            zip: "2639809".to_string(),
            city: "Kiryat Mozkin".to_string(),
            address: "Ploshad Mira 15".to_string(),
            region: "Kraiot".to_string(),
            email: "test@gmail.com".to_string(),
        },
        payment: Payment {
            transaction: format!("{uid}-txn"),
            request_id: String::new(),
            currency: "USD".to_string(),
            provider: "wbpay".to_string(),
            amount: 1817,
            payment_dt: 1637907727,
            bank: "alpha".to_string(),
            delivery_cost: 1500,
            goods_total: 317,
            custom_fee: 0,
        },
        items: vec![Item {
            chrt_id: 9934930,
            track_number: "WBILMTESTTRACK".to_string(),
            price: 453,
            rid: "ab4219087a764ae0btest".to_string(),
            name: "Mascaras".to_string(),
            sale: 30,
            size: "0".to_string(),
            total_price: 317,
            nm_id: 2389212,
            brand: "Vivienne Sabo".to_string(),
            status: 202,
        }],
        delivery_service: "meest".to_string(),
        customer_id: "test".to_string(),
        shardkey: "9".to_string(),
        sm_id: 99,
        date_created: "2021-11-26T06:22:19Z".to_string(),
        oof_shard: "1".to_string(),
    }
}

#[test]
fn validate_accepts_filled_order() {
    let order = sample_order("uid-1");
    assert!(order.validate_fields().is_ok());
}

#[test]
fn validate_allows_blank_request_id() {
    let mut order = sample_order("uid-1");
    order.payment.request_id = String::new();
    assert!(order.validate_fields().is_ok());
}

#[test]
fn validate_rejects_blank_customer_id() {
    let mut order = sample_order("uid-1");
    order.customer_id = String::new();
    match order.validate_fields() {
        Err(OrderError::Validation { msg, field }) => {
            assert_eq!(field, "customer_id");
            assert_eq!(msg, "customer_id is empty");
        },
        _ => panic!("expected a validation error"),
    }
}

#[test]
fn validate_rejects_blank_delivery_field() {
    let mut order = sample_order("uid-1");
    order.delivery.city = String::new();
    match order.validate_fields() {
        Err(OrderError::Validation { field, .. }) => assert_eq!(field, "city"),
        _ => panic!("expected a validation error"),
    }
}

#[test]
fn validate_rejects_blank_payment_field() {
    let mut order = sample_order("uid-1");
    order.payment.bank = String::new();
    match order.validate_fields() {
        Err(OrderError::Validation { field, .. }) => assert_eq!(field, "bank"),
        _ => panic!("expected a validation error"),
    }
}

#[test]
fn validate_reports_first_blank_in_name_order() {
    let mut order = sample_order("uid-1");
    order.track_number = String::new();
    order.delivery.address = String::new();
    // address is checked before track_number
    match order.validate_fields() {
        Err(OrderError::Validation { field, .. }) => assert_eq!(field, "address"),
        _ => panic!("expected a validation error"),
    }
}

#[test]
fn parse_date_created_accepts_wire_format() {
    let dt = parse_date_created("2021-11-26T06:22:19Z");
    assert!(
        dt == Some(DateTime { year: 2021, month: 11, day: 26, hour: 6, minute: 22, second: 19 })
    );
}

#[test]
fn format_date_created_round_trips() {
    let s = "2021-11-26T06:22:19Z";
    let dt = parse_date_created(s).unwrap();
    assert_eq!(format_date_created(dt), s);
}

#[test]
fn parse_date_created_rejects_bad_dates() {
    assert!(parse_date_created("2021-13-26T06:22:19Z").is_none());
    assert!(parse_date_created("2021-11-31T06:22:19Z").is_none());
    assert!(parse_date_created("2021-02-29T00:00:00Z").is_none());
    assert!(parse_date_created("2021-11-26T24:00:00Z").is_none());
    assert!(parse_date_created("2021-11-26 06:22:19Z").is_none());
    assert!(parse_date_created("2021-11-26T06:22:19").is_none());
    assert!(parse_date_created("").is_none());
}

#[test]
fn parse_date_created_accepts_leap_day() {
    let dt = parse_date_created("2020-02-29T00:00:00Z");
    assert!(
        dt == Some(DateTime { year: 2020, month: 2, day: 29, hour: 0, minute: 0, second: 0 })
    );
}

#[test]
fn classify_unique_violation_on_orders() {
    let e = classify_db_failure(&DbFailure::UniqueViolation { table: "orders".to_string() });
    match e {
        OrderError::Duplicate { field } => assert_eq!(field, "order_uid"),
        _ => panic!("expected a duplicate error"),
    }
    let r = classify_db_failure(&DbFailure::UniqueViolation { table: "orders".to_string() })
        .into_response();
    assert_eq!(r.status, 409);
    assert!(!r.success);
    assert_eq!(r.message, "Order with this UID already exists");
    assert_eq!(r.field, "order_uid");
}

#[test]
fn classify_unique_violation_on_items() {
    let e = classify_db_failure(&DbFailure::UniqueViolation { table: "items".to_string() });
    match e {
        OrderError::Duplicate { field } => assert_eq!(field, "chrt_id"),
        _ => panic!("expected a duplicate error"),
    }
}

#[test]
fn classify_other_failures() {
    let e = classify_db_failure(&DbFailure::UniqueViolation { table: "payment".to_string() });
    assert!(matches!(e, OrderError::ReferentialOrConstraint));
    assert_eq!(e.into_response().status, 500);

    let e = classify_db_failure(&DbFailure::ConstraintViolation);
    assert!(matches!(e, OrderError::ReferentialOrConstraint));

    let e = classify_db_failure(&DbFailure::ConnectionLost);
    assert!(matches!(e, OrderError::Unavailable));
    assert_eq!(e.into_response().status, 500);

    let e = classify_db_failure(&DbFailure::TimedOut);
    assert!(matches!(e, OrderError::Timeout));
    assert_eq!(e.into_response().status, 504);
}

#[test]
fn validation_error_maps_to_bad_request() {
    let mut order = sample_order("uid-1");
    order.entry = String::new();
    let e = order.validate_fields().unwrap_err();
    let r = e.into_response();
    assert_eq!(r.status, 400);
    assert!(!r.success);
    assert_eq!(r.message, "entry is empty");
    assert_eq!(r.field, "entry");
}

#[test]
fn deserialization_error_maps_to_bad_request() {
    let e = OrderError::Deserialization { msg: "missing field `track_number`".to_string() };
    let r = e.into_response();
    assert_eq!(r.status, 400);
    assert!(!r.success);
    assert_eq!(r.message, "missing field `track_number`");
    assert_eq!(r.field, "");
}

#[test]
fn created_response_envelope() {
    let r = created_response();
    assert_eq!(r.status, 201);
    assert!(r.success);
    assert_eq!(r.message, "Order created");
    assert_eq!(r.field, "");
}

#[test]
fn describe_names_the_failure() {
    let e = OrderError::Validation {
        msg: "entry is empty".to_string(),
        field: "entry".to_string(),
    };
    assert_eq!(e.describe(), "Validation error: entry is empty");
    let e = OrderError::Duplicate { field: "order_uid".to_string() };
    assert_eq!(e.describe(), "Duplicate key: order_uid");
}
