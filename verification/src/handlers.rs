//! The request handlers' decision logic, one function per endpoint.
//!
//! Create: validate, then persist in one transaction — the store changes
//! exactly on success. Read by uid: join, merge the rows, 404 when none.
//! List: join, bound by limit and offset (10 and 0 when absent), group by
//! uid. The surrounding process runs the HTTP and database I/O and answers
//! with the envelope `into_response` maps each outcome to.

use crate::errors::{response_of_error, ApiResponse, OrderError, OrderErrorView};
use crate::models::{views_of, Order, OrderResponse, OrderView, Pagination};
use crate::reads::{items_for, list_model, lookup_model, page_of, rows_for_uid};
use crate::rowmap::{group_rows, lemma_group_single_uid, merged_of, JoinedRow};
use crate::store::{after_submit, submit_error, wf, OrderStore, StoreView};
use crate::validate::{first_blank, validation_error_of};
use vstd::prelude::*;

verus! {

broadcast use crate::models::lemma_views_push;

/// The error a create request stops on, `None` when the order is stored:
/// first the blank-field check, then the transaction's own error.
pub open spec fn create_result(s: StoreView, o: OrderView) -> Option<OrderErrorView> {
    match first_blank(o) {
        Some(f) => Some(validation_error_of(f)),
        None => submit_error(s, o),
    }
}

/// The limit a list request runs with; 10 when the query names none.
pub open spec fn effective_limit(p: Pagination) -> u32 {
    match p.limit {
        Some(l) => l,
        None => 10,
    }
}

/// The offset a list request runs with; 0 when the query names none.
pub open spec fn effective_offset(p: Pagination) -> u32 {
    match p.offset {
        Some(o) => o,
        None => 0,
    }
}

/// The create endpoint's decisions: validate every required text field, then
/// run the whole ingestion transaction. On any error — a blank field, an
/// unparseable date, a duplicate key — the store is exactly what it was; on
/// success it holds exactly the four inserts.
pub fn create_order(store: &mut OrderStore, payload: &Order) -> (r: Result<(), OrderError>)
    requires
        wf(old(store)@),
    ensures
        wf(final(store)@),
        (match r {
            Ok(()) => create_result(old(store)@, payload@) is None && final(store)@ == after_submit(
                old(store)@,
                payload@,
            ),
            Err(e) => create_result(old(store)@, payload@) == Some(e@) && final(store)@ == old(
                store,
            )@,
        }),
{
    if let Err(e) = payload.validate_fields() {
        return Err(e);
    }
    store.persist(payload)
}

/// The single-order read: the join rows of the uid merged into one aggregate
/// with every item accumulated; the not-found error exactly when the join
/// yields no row for it.
pub fn get_order_by_id(store: &OrderStore, order_uid: &String) -> (r: Result<Order, OrderError>)
    requires
        wf(store@),
    ensures
        (match r {
            Ok(o) => lookup_model(store@, order_uid@) == Some(o@),
            Err(e) => lookup_model(store@, order_uid@) is None && e@ == OrderErrorView::NotFound,
        }),
{
    let oi = match store.find_order(order_uid) {
        Some(oi) => oi,
        None => {
            return Err(OrderError::NotFound);
        },
    };
    let rows = store.rows_for(oi);
    let ghost rv = views_of(rows@);
    proof {
        assert(rv.len() == items_for(store@.items, order_uid@).len());
    }
    if rows.len() == 0 {
        return Err(OrderError::NotFound);
    }
    proof {
        assert forall|i: int| 0 <= i < rv.len() implies (#[trigger] rv[i]).order_uid
            == rv[0].order_uid by {
            assert(rv[i] == rows_for_uid(store@, order_uid@)[i]);
            assert(rv[0] == rows_for_uid(store@, order_uid@)[0]);
        }
        lemma_group_single_uid(rv);
    }
    let mut orders = group_rows(&rows);
    proof {
        assert(views_of(orders@).len() == 1);
        assert(orders@.len() == 1);
    }
    let ghost ov = orders@;
    let o = match orders.pop() {
        Some(o) => o,
        None => {
            proof {
                assert(false);
            }
            vstd::pervasive::unreached()
        },
    };
    proof {
        assert(o == ov[0]);
        assert(views_of(ov)[0] == ov[0]@);
        assert(o@ == merged_of(rv));
    }
    Ok(o)
}

/// The single-order read answered as the endpoint answers it: the aggregate,
/// or the 404 envelope when the uid is absent.
pub fn get_order(store: &OrderStore, order_uid: &String) -> (r: Result<Order, ApiResponse>)
    requires
        wf(store@),
    ensures
        (match r {
            Ok(o) => lookup_model(store@, order_uid@) == Some(o@),
            Err(resp) => lookup_model(store@, order_uid@) is None && resp@ == response_of_error(
                OrderErrorView::NotFound,
            ),
        }),
{
    match get_order_by_id(store, order_uid) {
        Ok(o) => Ok(o),
        Err(e) => Err(e.into_response()),
    }
}

/// The paginated list: the join rows windowed by `LIMIT`/`OFFSET` (10 and 0
/// when the query names none), grouped by uid into aggregates, in the join's
/// stable order-major order.
pub fn get_orders(store: &OrderStore, pagination: &Pagination) -> (resp: OrderResponse)
    requires
        wf(store@),
    ensures
        resp@ == list_model(
            store@,
            effective_limit(*pagination) as int,
            effective_offset(*pagination) as int,
        ),
{
    let limit: u32 = match pagination.limit {
        Some(l) => l,
        None => 10,
    };
    let offset: u32 = match pagination.offset {
        Some(o) => o,
        None => 0,
    };
    let mut rows = store.joined_rows();
    let ghost rowsv = views_of(rows@);
    let off: usize = offset as usize;
    let mut page: Vec<JoinedRow> = if off >= rows.len() {
        Vec::new()
    } else {
        rows.split_off(off)
    };
    if (limit as usize) < page.len() {
        page.truncate(limit as usize);
    }
    proof {
        assert(views_of(page@) =~= page_of(rowsv, limit as int, offset as int));
    }
    let orders = group_rows(&page);
    OrderResponse { orders }
}

} // verus!
