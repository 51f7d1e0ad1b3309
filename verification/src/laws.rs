//! The service's laws, proved once and for all over the store model.
//!
//! Each proof function here states a guarantee of the pipeline as a whole —
//! across several calls or for every store — that no single contract carries
//! by itself: what a second submission of a taken uid meets, that a customer
//! is stored only once, that a stored order reads back exactly as submitted,
//! and what a paginated list holds.

use crate::errors::OrderErrorView;
use crate::handlers::create_result;
use crate::models::OrderView;
use crate::reads::{all_rows, all_rows_upto, items_for, lemma_customer_idx_is, lemma_order_idx_is,
    lemma_payment_idx_is, list_model, lookup_model, page_of, rows_for_uid};
use crate::rowmap::{group_rows_model, merged_of, order_of_row, JoinedRowView};
use crate::store::{after_submit, customer_row_of, has_customer, has_order, item_row_of,
    items_rows_of, lemma_after_submit_wf, order_row_of, payment_row_of, submit_error, wf,
    ItemRowView, StoreView};
use crate::validate::{first_blank, has_blank_required, lemma_first_blank_iff, validation_error_of};
use vstd::prelude::*;

verus! {

proof fn lemma_items_for_none(a: Seq<ItemRowView>, uid: Seq<char>)
    requires
        forall|i: int| 0 <= i < a.len() ==> (#[trigger] a[i]).order_uid != uid,
    ensures
        items_for(a, uid) == Seq::<ItemRowView>::empty(),
    decreases a.len(),
{
    if a.len() > 0 {
        lemma_items_for_none(a.drop_last(), uid);
    }
}

proof fn lemma_items_for_all(a: Seq<ItemRowView>, uid: Seq<char>)
    requires
        forall|i: int| 0 <= i < a.len() ==> (#[trigger] a[i]).order_uid == uid,
    ensures
        items_for(a, uid) == a,
    decreases a.len(),
{
    if a.len() > 0 {
        lemma_items_for_all(a.drop_last(), uid);
        assert(items_for(a, uid) =~= a);
    } else {
        assert(items_for(a, uid) =~= a);
    }
}

proof fn lemma_items_for_add(a: Seq<ItemRowView>, b: Seq<ItemRowView>, uid: Seq<char>)
    ensures
        items_for(a + b, uid) == items_for(a, uid) + items_for(b, uid),
    decreases b.len(),
{
    if b.len() == 0 {
        assert(a + b =~= a);
        assert(items_for(a, uid) + items_for(b, uid) =~= items_for(a, uid));
    } else {
        lemma_items_for_add(a, b.drop_last(), uid);
        assert((a + b).drop_last() =~= a + b.drop_last());
        assert((a + b).last() == b.last());
        if b.last().order_uid == uid {
            assert(items_for(a, uid) + items_for(b, uid) =~= (items_for(a, uid) + items_for(
                b.drop_last(),
                uid,
            )).push(b.last()));
        }
    }
}

/// After a committed submission the item rows of its uid are exactly the
/// order's own items, in order — nothing of the uid was there before (its
/// foreign key could not have resolved) and nothing else joined it.
pub proof fn lemma_items_of_submission(s: StoreView, o: OrderView)
    requires
        wf(s),
        submit_error(s, o) is None,
    ensures
        items_for(after_submit(s, o).items, o.order_uid) == items_rows_of(o),
{
    let t = after_submit(s, o);
    assert forall|i: int| 0 <= i < s.items.len() implies (#[trigger] s.items[i]).order_uid
        != o.order_uid by {
        assert(!has_order(s, o.order_uid));
    }
    lemma_items_for_none(s.items, o.order_uid);
    assert forall|i: int|
        0 <= i < items_rows_of(o).len() implies (#[trigger] items_rows_of(o)[i]).order_uid
        == o.order_uid by {
        assert(items_rows_of(o)[i] == item_row_of(o.order_uid, o.items[i]));
    }
    lemma_items_for_all(items_rows_of(o), o.order_uid);
    lemma_items_for_add(s.items, items_rows_of(o), o.order_uid);
    assert(items_for(t.items, o.order_uid) =~= items_rows_of(o));
}

/// Submitting a second order under an already stored `order_uid` is refused
/// as exactly the duplicate-uid conflict — and the first submission's order,
/// payment and item rows all stand untouched. (That the refused submission
/// changes nothing at all is the store-unchanged clause of `persist`.)
pub proof fn law_duplicate_order_uid(s: StoreView, o1: OrderView, o2: OrderView)
    requires
        wf(s),
        submit_error(s, o1) is None,
        o2.order_uid == o1.order_uid,
        first_blank(o2) is None,
        crate::datetime::parse_datetime(o2.date_created) is Some,
    ensures
        create_result(after_submit(s, o1), o2) == Some(
            OrderErrorView::Duplicate { field: "order_uid"@ },
        ),
        crate::errors::response_of_error(
            create_result(after_submit(s, o1), o2)->Some_0,
        ).status == 409,
        crate::errors::response_of_error(create_result(after_submit(s, o1), o2)->Some_0).field
            == "order_uid"@,
        after_submit(s, o1).orders.last() == order_row_of(o1),
        after_submit(s, o1).payments.last() == payment_row_of(o1),
        items_for(after_submit(s, o1).items, o1.order_uid) == items_rows_of(o1),
{
    let t = after_submit(s, o1);
    assert(t.orders[t.orders.len() - 1].order_uid == o1.order_uid);
    assert(has_order(t, o2.order_uid));
    lemma_items_of_submission(s, o1);
}

/// Two orders sharing a `customer_id` store exactly one customer row: the
/// first submission's delivery details, which the second leaves untouched.
pub proof fn law_customer_insert_idempotent(s: StoreView, o1: OrderView, o2: OrderView)
    requires
        wf(s),
        !has_customer(s, o1.customer_id),
        submit_error(s, o1) is None,
        o2.customer_id == o1.customer_id,
    ensures
        after_submit(s, o1).customers == s.customers.push(customer_row_of(o1)),
        submit_error(after_submit(s, o1), o2) is None ==> after_submit(
            after_submit(s, o1),
            o2,
        ).customers == s.customers.push(customer_row_of(o1)),
{
    let t = after_submit(s, o1);
    assert(t.customers[s.customers.len() as int].customer_id == o1.customer_id);
    assert(has_customer(t, o2.customer_id));
}

/// Round trip: an order that a submission committed reads back under its uid
/// as exactly the submitted aggregate — every scalar field, `payment_dt` as
/// the same epoch integer, `date_created` as the same wire string, the items
/// complete and in order. It needs at least one item (the read's inner join
/// yields no row for an itemless order) and a `customer_id` not already
/// stored (an existing customer row's delivery details are kept, not
/// overwritten).
pub proof fn law_round_trip(s: StoreView, o: OrderView)
    requires
        wf(s),
        submit_error(s, o) is None,
        o.items.len() > 0,
        !has_customer(s, o.customer_id),
    ensures
        lookup_model(after_submit(s, o), o.order_uid) == Some(o),
{
    let t = after_submit(s, o);
    let uid = o.order_uid;
    lemma_after_submit_wf(s, o);
    let on = s.orders.len() as int;
    let cn = s.customers.len() as int;
    let pn = s.payments.len() as int;
    assert(t.orders[on] == order_row_of(o));
    lemma_order_idx_is(t, uid, on);
    assert(t.customers[cn] == customer_row_of(o));
    lemma_customer_idx_is(t, o.customer_id, cn);
    assert(t.payments[pn] == payment_row_of(o));
    lemma_payment_idx_is(t, uid, pn);
    lemma_items_of_submission(s, o);
    let rows = rows_for_uid(t, uid);
    assert(rows.len() == o.items.len());
    assert(has_order(t, uid) && items_for(t.items, uid).len() > 0);
    let m = merged_of(rows);
    assert(rows[0] == crate::reads::joined_of(
        order_row_of(o),
        customer_row_of(o),
        payment_row_of(o),
        items_rows_of(o)[0],
    ));
    crate::datetime::lemma_format_parse(o.date_created);
    assert(m.delivery =~~= o.delivery) by {
        assert(m.delivery == o.delivery);
    };
    assert(m.payment == o.payment);
    assert(m.items =~= o.items) by {
        assert forall|i: int| 0 <= i < rows.len() implies rows[i].item == o.items[i] by {
            assert(rows[i] == crate::reads::joined_of(
                order_row_of(o),
                customer_row_of(o),
                payment_row_of(o),
                items_rows_of(o)[i],
            ));
            assert(items_rows_of(o)[i] == item_row_of(uid, o.items[i]));
        }
    };
    assert(m == o);
}

proof fn lemma_group_distinct(rows: Seq<JoinedRowView>)
    requires
        forall|i: int, j: int| 0 <= i < j < rows.len() ==> rows[i].order_uid != rows[j].order_uid,
    ensures
        group_rows_model(rows).len() == rows.len(),
        forall|k: int|
            0 <= k < rows.len() ==> group_rows_model(rows)[k] == order_of_row(rows[k]),
    decreases rows.len(),
{
    if rows.len() > 0 {
        lemma_group_distinct(rows.drop_last());
        let g = group_rows_model(rows.drop_last());
        if g.len() > 0 {
            assert(g.last() == order_of_row(rows[rows.len() - 2]));
            assert(rows[rows.len() - 2].order_uid != rows.last().order_uid);
        }
        assert forall|k: int|
            0 <= k < rows.len() implies group_rows_model(rows)[k] == order_of_row(rows[k]) by {
            if k < rows.len() - 1 {
                assert(group_rows_model(rows)[k] == g[k]);
            }
        }
    }
}

proof fn lemma_all_rows_single(s: StoreView, n: int)
    requires
        wf(s),
        0 <= n <= s.orders.len(),
        forall|i: int|
            0 <= i < s.orders.len() ==> items_for(
                s.items,
                (#[trigger] s.orders[i]).order_uid,
            ).len() == 1,
    ensures
        all_rows_upto(s, n).len() == n,
        forall|i: int|
            0 <= i < n ==> #[trigger] all_rows_upto(s, n)[i] == rows_for_uid(
                s,
                s.orders[i].order_uid,
            )[0],
    decreases n,
{
    if n > 0 {
        lemma_all_rows_single(s, n - 1);
        assert(rows_for_uid(s, s.orders[n - 1].order_uid).len() == 1);
        assert forall|i: int|
            0 <= i < n implies #[trigger] all_rows_upto(s, n)[i] == rows_for_uid(
            s,
            s.orders[i].order_uid,
        )[0] by {
            if i < n - 1 {
                assert(all_rows_upto(s, n)[i] == all_rows_upto(s, n - 1)[i]);
            }
        }
    }
}

/// Pagination over a store whose orders have one item each: the join has one
/// row per order, so the page `LIMIT limit OFFSET offset` holds exactly the
/// stored orders at positions `offset` up to `offset + limit`, each read back
/// as its own aggregate, in storage order — and, being a function of the
/// store alone, the same on every call.
pub proof fn law_pagination(s: StoreView, limit: int, offset: int)
    requires
        wf(s),
        0 <= limit,
        0 <= offset,
        forall|i: int|
            0 <= i < s.orders.len() ==> items_for(
                s.items,
                (#[trigger] s.orders[i]).order_uid,
            ).len() == 1,
    ensures
        all_rows(s).len() == s.orders.len(),
        list_model(s, limit, offset).len() == (if offset > s.orders.len() {
            0int
        } else if offset + limit <= s.orders.len() {
            limit
        } else {
            s.orders.len() - offset
        }),
        forall|k: int|
            0 <= k < list_model(s, limit, offset).len() ==> #[trigger] list_model(
                s,
                limit,
                offset,
            )[k] == merged_of(rows_for_uid(s, s.orders[offset + k].order_uid)),
{
    let n = s.orders.len() as int;
    lemma_all_rows_single(s, n);
    let rows = all_rows(s);
    let page = page_of(rows, limit, offset);
    assert forall|i: int, j: int|
        0 <= i < j < page.len() implies page[i].order_uid != page[j].order_uid by {
        assert(page[i] == rows_for_uid(s, s.orders[offset + i].order_uid)[0]);
        assert(page[j] == rows_for_uid(s, s.orders[offset + j].order_uid)[0]);
    }
    lemma_group_distinct(page);
    assert forall|k: int|
        0 <= k < list_model(s, limit, offset).len() implies #[trigger] list_model(
        s,
        limit,
        offset,
    )[k] == merged_of(rows_for_uid(s, s.orders[offset + k].order_uid)) by {
        assert(page[k] == rows_for_uid(s, s.orders[offset + k].order_uid)[0]);
        let one = rows_for_uid(s, s.orders[offset + k].order_uid);
        assert(merged_of(one).items =~= seq![one[0].item]);
        assert(merged_of(one) == order_of_row(one[0]));
    }
}

/// An order with any blank required text field is refused by validation
/// before anything runs against the store; with `create_order`'s contract,
/// no row of any table is written for it.
pub proof fn law_blank_field_rejected(s: StoreView, o: OrderView)
    requires
        has_blank_required(o),
    ensures
        create_result(s, o) == Some(validation_error_of(first_blank(o)->Some_0)),
{
    lemma_first_blank_iff(o);
}

} // verus!
