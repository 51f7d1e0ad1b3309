//! The closed error taxonomy of the service and its mapping to HTTP.
//!
//! Every failure a handler can meet is one `OrderError`; every error response
//! shares one envelope shape (`success`, `message`, `field`). A database
//! failure reaches the library as a structured `DbFailure` — the violated
//! constraint's table, not a match on driver message text — and is classified
//! into the taxonomy by `classify_db_failure`.

use vstd::prelude::*;

verus! {

/// Everything that can go wrong while creating or reading an order.
#[derive(Debug)]
pub enum OrderError {
    /// A required text field was blank, or `date_created` did not parse.
    Validation { msg: String, field: String },
    /// The request body could not be read as an `Order` at all.
    Deserialization { msg: String },
    /// A unique-key violation; `field` names `order_uid` or `chrt_id`.
    Duplicate { field: String },
    /// Any other constraint failure reported by the store.
    ReferentialOrConstraint,
    /// A transaction, commit or query exceeded its bounded wait.
    Timeout,
    /// The store connection is gone or the transport failed.
    Unavailable,
    /// A read found no order under the requested `order_uid`.
    NotFound,
}

/// Mathematical image of an `OrderError`.
pub enum OrderErrorView {
    Validation { msg: Seq<char>, field: Seq<char> },
    Deserialization { msg: Seq<char> },
    Duplicate { field: Seq<char> },
    ReferentialOrConstraint,
    Timeout,
    Unavailable,
    NotFound,
}

impl View for OrderError {
    type V = OrderErrorView;

    open spec fn view(&self) -> OrderErrorView {
        match self {
            OrderError::Validation { msg, field } => OrderErrorView::Validation {
                msg: msg@,
                field: field@,
            },
            OrderError::Deserialization { msg } => OrderErrorView::Deserialization { msg: msg@ },
            OrderError::Duplicate { field } => OrderErrorView::Duplicate { field: field@ },
            OrderError::ReferentialOrConstraint => OrderErrorView::ReferentialOrConstraint,
            OrderError::Timeout => OrderErrorView::Timeout,
            OrderError::Unavailable => OrderErrorView::Unavailable,
            OrderError::NotFound => OrderErrorView::NotFound,
        }
    }
}

/// A database failure as the I/O layer reports it: already inspected
/// structurally (error code and violated constraint's table), never by
/// matching on human-readable driver text.
pub enum DbFailure {
    /// A unique-key violation on the named table.
    UniqueViolation { table: String },
    /// Any other integrity-constraint violation.
    ConstraintViolation,
    /// The connection was lost or refused.
    ConnectionLost,
    /// The bounded wait on a transaction, commit or query ran out.
    TimedOut,
    /// Anything else the driver reports.
    Other,
}

/// Mathematical image of a `DbFailure`.
pub enum DbFailureView {
    UniqueViolation { table: Seq<char> },
    ConstraintViolation,
    ConnectionLost,
    TimedOut,
    Other,
}

impl View for DbFailure {
    type V = DbFailureView;

    open spec fn view(&self) -> DbFailureView {
        match self {
            DbFailure::UniqueViolation { table } => DbFailureView::UniqueViolation {
                table: table@,
            },
            DbFailure::ConstraintViolation => DbFailureView::ConstraintViolation,
            DbFailure::ConnectionLost => DbFailureView::ConnectionLost,
            DbFailure::TimedOut => DbFailureView::TimedOut,
            DbFailure::Other => DbFailureView::Other,
        }
    }
}

/// How a database failure lands in the error taxonomy: a unique violation on
/// the orders table is a duplicate `order_uid`, one on the items table a
/// duplicate `chrt_id`; any other constraint failure stays a plain
/// constraint error; transport loss is `Unavailable`.
pub open spec fn classify_model(f: DbFailureView) -> OrderErrorView {
    match f {
        DbFailureView::UniqueViolation { table } => {
            if table == "orders"@ {
                OrderErrorView::Duplicate { field: "order_uid"@ }
            } else if table == "items"@ {
                OrderErrorView::Duplicate { field: "chrt_id"@ }
            } else {
                OrderErrorView::ReferentialOrConstraint
            }
        },
        DbFailureView::ConstraintViolation => OrderErrorView::ReferentialOrConstraint,
        DbFailureView::ConnectionLost => OrderErrorView::Unavailable,
        DbFailureView::TimedOut => OrderErrorView::Timeout,
        DbFailureView::Other => OrderErrorView::Unavailable,
    }
}

/// Turns a structured database failure into the typed error the handlers
/// return.
pub fn classify_db_failure(f: &DbFailure) -> (e: OrderError)
    ensures
        e@ == classify_model(f@),
{
    match f {
        DbFailure::UniqueViolation { table } => {
            if *table == String::from_str("orders") {
                OrderError::Duplicate { field: String::from_str("order_uid") }
            } else if *table == String::from_str("items") {
                OrderError::Duplicate { field: String::from_str("chrt_id") }
            } else {
                OrderError::ReferentialOrConstraint
            }
        },
        DbFailure::ConstraintViolation => OrderError::ReferentialOrConstraint,
        DbFailure::ConnectionLost => OrderError::Unavailable,
        DbFailure::TimedOut => OrderError::Timeout,
        DbFailure::Other => OrderError::Unavailable,
    }
}

/// One HTTP reply: a status code and the shared JSON envelope fields
/// `success`, `message` and `field` (`field` empty where not applicable).
#[derive(Debug)]
pub struct ApiResponse {
    pub status: u16,
    pub success: bool,
    pub message: String,
    pub field: String,
}

/// Mathematical image of an `ApiResponse`.
pub struct ApiResponseView {
    pub status: int,
    pub success: bool,
    pub message: Seq<char>,
    pub field: Seq<char>,
}

impl View for ApiResponse {
    type V = ApiResponseView;

    open spec fn view(&self) -> ApiResponseView {
        ApiResponseView {
            status: self.status as int,
            success: self.success,
            message: self.message@,
            field: self.field@,
        }
    }
}

/// The status and envelope owed to each error: validation and body errors are
/// the client's fault (400), duplicates conflict (409), a missing order is
/// 404, a timed-out store operation 504, and every other store failure 500.
pub open spec fn response_of_error(e: OrderErrorView) -> ApiResponseView {
    match e {
        OrderErrorView::Validation { msg, field } => ApiResponseView {
            status: 400,
            success: false,
            message: msg,
            field: field,
        },
        OrderErrorView::Deserialization { msg } => ApiResponseView {
            status: 400,
            success: false,
            message: msg,
            field: Seq::empty(),
        },
        OrderErrorView::Duplicate { field } => ApiResponseView {
            status: 409,
            success: false,
            message: if field == "order_uid"@ {
                "Order with this UID already exists"@
            } else if field == "chrt_id"@ {
                "Item with this chrt_id already exists"@
            } else {
                "Duplicate key"@
            },
            field: field,
        },
        OrderErrorView::ReferentialOrConstraint => ApiResponseView {
            status: 500,
            success: false,
            message: "Database error"@,
            field: Seq::empty(),
        },
        OrderErrorView::Timeout => ApiResponseView {
            status: 504,
            success: false,
            message: "Database operation timed out"@,
            field: Seq::empty(),
        },
        OrderErrorView::Unavailable => ApiResponseView {
            status: 500,
            success: false,
            message: "Database unavailable"@,
            field: Seq::empty(),
        },
        OrderErrorView::NotFound => ApiResponseView {
            status: 404,
            success: false,
            message: "Order not found"@,
            field: Seq::empty(),
        },
    }
}

impl OrderError {
    /// The HTTP reply this error is answered with; no raw driver text, only
    /// the envelope fields the taxonomy owes.
    pub fn into_response(&self) -> (r: ApiResponse)
        ensures
            r@ == response_of_error(self@),
    {
        match self {
            OrderError::Validation { msg, field } => ApiResponse {
                status: 400,
                success: false,
                message: msg.clone(),
                field: field.clone(),
            },
            OrderError::Deserialization { msg } => ApiResponse {
                status: 400,
                success: false,
                message: msg.clone(),
                field: String::new(),
            },
            OrderError::Duplicate { field } => ApiResponse {
                status: 409,
                success: false,
                message: if *field == String::from_str("order_uid") {
                    String::from_str("Order with this UID already exists")
                } else if *field == String::from_str("chrt_id") {
                    String::from_str("Item with this chrt_id already exists")
                } else {
                    String::from_str("Duplicate key")
                },
                field: field.clone(),
            },
            OrderError::ReferentialOrConstraint => ApiResponse {
                status: 500,
                success: false,
                message: String::from_str("Database error"),
                field: String::new(),
            },
            OrderError::Timeout => ApiResponse {
                status: 504,
                success: false,
                message: String::from_str("Database operation timed out"),
                field: String::new(),
            },
            OrderError::Unavailable => ApiResponse {
                status: 500,
                success: false,
                message: String::from_str("Database unavailable"),
                field: String::new(),
            },
            OrderError::NotFound => ApiResponse {
                status: 404,
                success: false,
                message: String::from_str("Order not found"),
                field: String::new(),
            },
        }
    }

    /// A one-line account of the error, in place of a `Display` impl.
    pub fn describe(&self) -> (r: String)
        ensures
            r@ == describe_model(self@),
    {
        match self {
            OrderError::Validation { msg, field: _ } => String::from_str(
                "Validation error: ",
            ).concat(msg.as_str()),
            OrderError::Deserialization { msg } => String::from_str(
                "Deserialization error: ",
            ).concat(msg.as_str()),
            OrderError::Duplicate { field } => String::from_str("Duplicate key: ").concat(
                field.as_str(),
            ),
            OrderError::ReferentialOrConstraint => String::from_str(
                "Database error: constraint violated",
            ),
            OrderError::Timeout => String::from_str("Database error: timeout"),
            OrderError::Unavailable => String::from_str("Database error: connection unavailable"),
            OrderError::NotFound => String::from_str("Order not found"),
        }
    }
}

/// What `describe` returns for each variant.
pub open spec fn describe_model(e: OrderErrorView) -> Seq<char> {
    match e {
        OrderErrorView::Validation { msg, field } => "Validation error: "@ + msg,
        OrderErrorView::Deserialization { msg } => "Deserialization error: "@ + msg,
        OrderErrorView::Duplicate { field } => "Duplicate key: "@ + field,
        OrderErrorView::ReferentialOrConstraint => "Database error: constraint violated"@,
        OrderErrorView::Timeout => "Database error: timeout"@,
        OrderErrorView::Unavailable => "Database error: connection unavailable"@,
        OrderErrorView::NotFound => "Order not found"@,
    }
}

/// The reply to a successful order creation.
pub fn created_response() -> (r: ApiResponse)
    ensures
        r@ == created_model(),
{
    ApiResponse {
        status: 201,
        success: true,
        message: String::from_str("Order created"),
        field: String::new(),
    }
}

/// The one success envelope: `201 Created` with `success` true.
pub open spec fn created_model() -> ApiResponseView {
    ApiResponseView {
        status: 201,
        success: true,
        message: "Order created"@,
        field: Seq::empty(),
    }
}

} // verus!
