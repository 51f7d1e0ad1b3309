//! Presence validation of an order's text fields.
//!
//! Payloads arrive as loosely-typed JSON: the wire format only guarantees a
//! field is present with the right shape, not that it is non-blank. Before an
//! order is persisted, every required text field of the aggregate — the
//! nested delivery and payment records included — must be non-empty. The one
//! exception is the payment's `request_id`, which may be blank. Fields are
//! checked in the lexicographic order of their names, the fields of a nested
//! record standing where the record's own name falls; the first blank one
//! decides the reported error.

use crate::errors::{OrderError, OrderErrorView};
use crate::models::{Order, OrderView};
use vstd::prelude::*;

verus! {

/// The required text fields of an order as (name, value) pairs, in the order
/// they are checked. Numeric fields, the item list and the payment's
/// `request_id` are not subject to presence validation.
pub open spec fn required_fields(o: OrderView) -> Seq<(Seq<char>, Seq<char>)> {
    seq![
        ("customer_id"@, o.customer_id),
        ("date_created"@, o.date_created),
        ("address"@, o.delivery.address),
        ("city"@, o.delivery.city),
        ("email"@, o.delivery.email),
        ("name"@, o.delivery.name),
        ("phone"@, o.delivery.phone),
        ("region"@, o.delivery.region),
        ("zip"@, o.delivery.zip),
        ("delivery_service"@, o.delivery_service),
        ("entry"@, o.entry),
        ("oof_shard"@, o.oof_shard),
        ("order_uid"@, o.order_uid),
        ("bank"@, o.payment.bank),
        ("currency"@, o.payment.currency),
        ("provider"@, o.payment.provider),
        ("transaction"@, o.payment.transaction),
        ("shardkey"@, o.shardkey),
        ("track_number"@, o.track_number),
    ]
}

pub open spec fn first_blank_from(fs: Seq<(Seq<char>, Seq<char>)>, i: int) -> Option<Seq<char>>
    decreases fs.len() - i,
{
    if i < 0 || i >= fs.len() {
        None
    } else if fs[i].1.len() == 0 {
        Some(fs[i].0)
    } else {
        first_blank_from(fs, i + 1)
    }
}

/// The name of the first blank required field, `None` when every one is
/// filled.
pub open spec fn first_blank(o: OrderView) -> Option<Seq<char>> {
    first_blank_from(required_fields(o), 0)
}

/// Whether any required text field of the order is blank.
pub open spec fn has_blank_required(o: OrderView) -> bool {
    exists|i: int|
        0 <= i < required_fields(o).len() && required_fields(o)[i].1.len() == 0
}

/// The error reported for a blank required field.
pub open spec fn validation_error_of(f: Seq<char>) -> OrderErrorView {
    OrderErrorView::Validation { msg: f + " is empty"@, field: f }
}

proof fn lemma_first_blank_from_none(fs: Seq<(Seq<char>, Seq<char>)>, i: int)
    requires
        0 <= i <= fs.len(),
    ensures
        first_blank_from(fs, i) is None <==> (forall|j: int|
            i <= j < fs.len() ==> fs[j].1.len() != 0),
    decreases fs.len() - i,
{
    if i < fs.len() {
        lemma_first_blank_from_none(fs, i + 1);
    }
}

/// Validation fails exactly on the orders that have some blank required
/// field: no blank order passes, and no fully filled order is rejected.
pub proof fn lemma_first_blank_iff(o: OrderView)
    ensures
        first_blank(o) is Some <==> has_blank_required(o),
{
    lemma_first_blank_from_none(required_fields(o), 0);
}

fn mk_validation(name: &str) -> (e: OrderError)
    ensures
        e@ == validation_error_of(name@),
{
    let mut msg = String::from_str(name);
    msg.append(" is empty");
    OrderError::Validation { msg, field: String::from_str(name) }
}

impl Order {
    /// Walks every required text field of the aggregate (delivery and payment
    /// included, `request_id` excepted) and fails on the first blank one with
    /// a `Validation` error naming that field; a pure check, nothing is
    /// written anywhere.
    pub fn validate_fields(&self) -> (r: Result<(), OrderError>)
        ensures
            match first_blank(self@) {
                Option::None => r is Ok,
                Option::Some(f) => r matches Err(e) && e@ == validation_error_of(f),
            },
            r is Err <==> has_blank_required(self@),
    {
        proof {
            lemma_first_blank_iff(self@);
        }
        let ghost fs = required_fields(self@);
        if self.customer_id.as_str().is_empty() {
            return Err(mk_validation("customer_id"));
        }
        proof {
            assert(first_blank_from(fs, 0) == first_blank_from(fs, 1));
        }
        if self.date_created.as_str().is_empty() {
            return Err(mk_validation("date_created"));
        }
        proof {
            assert(first_blank_from(fs, 1) == first_blank_from(fs, 2));
        }
        if self.delivery.address.as_str().is_empty() {
            return Err(mk_validation("address"));
        }
        proof {
            assert(first_blank_from(fs, 2) == first_blank_from(fs, 3));
        }
        if self.delivery.city.as_str().is_empty() {
            return Err(mk_validation("city"));
        }
        proof {
            assert(first_blank_from(fs, 3) == first_blank_from(fs, 4));
        }
        if self.delivery.email.as_str().is_empty() {
            return Err(mk_validation("email"));
        }
        proof {
            assert(first_blank_from(fs, 4) == first_blank_from(fs, 5));
        }
        if self.delivery.name.as_str().is_empty() {
            return Err(mk_validation("name"));
        }
        proof {
            assert(first_blank_from(fs, 5) == first_blank_from(fs, 6));
        }
        if self.delivery.phone.as_str().is_empty() {
            return Err(mk_validation("phone"));
        }
        proof {
            assert(first_blank_from(fs, 6) == first_blank_from(fs, 7));
        }
        if self.delivery.region.as_str().is_empty() {
            return Err(mk_validation("region"));
        }
        proof {
            assert(first_blank_from(fs, 7) == first_blank_from(fs, 8));
        }
        if self.delivery.zip.as_str().is_empty() {
            return Err(mk_validation("zip"));
        }
        proof {
            assert(first_blank_from(fs, 8) == first_blank_from(fs, 9));
        }
        if self.delivery_service.as_str().is_empty() {
            return Err(mk_validation("delivery_service"));
        }
        proof {
            assert(first_blank_from(fs, 9) == first_blank_from(fs, 10));
        }
        if self.entry.as_str().is_empty() {
            return Err(mk_validation("entry"));
        }
        proof {
            assert(first_blank_from(fs, 10) == first_blank_from(fs, 11));
        }
        if self.oof_shard.as_str().is_empty() {
            return Err(mk_validation("oof_shard"));
        }
        proof {
            assert(first_blank_from(fs, 11) == first_blank_from(fs, 12));
        }
        if self.order_uid.as_str().is_empty() {
            return Err(mk_validation("order_uid"));
        }
        proof {
            assert(first_blank_from(fs, 12) == first_blank_from(fs, 13));
        }
        if self.payment.bank.as_str().is_empty() {
            return Err(mk_validation("bank"));
        }
        proof {
            assert(first_blank_from(fs, 13) == first_blank_from(fs, 14));
        }
        if self.payment.currency.as_str().is_empty() {
            return Err(mk_validation("currency"));
        }
        proof {
            assert(first_blank_from(fs, 14) == first_blank_from(fs, 15));
        }
        if self.payment.provider.as_str().is_empty() {
            return Err(mk_validation("provider"));
        }
        proof {
            assert(first_blank_from(fs, 15) == first_blank_from(fs, 16));
        }
        if self.payment.transaction.as_str().is_empty() {
            return Err(mk_validation("transaction"));
        }
        proof {
            assert(first_blank_from(fs, 16) == first_blank_from(fs, 17));
        }
        if self.shardkey.as_str().is_empty() {
            return Err(mk_validation("shardkey"));
        }
        proof {
            assert(first_blank_from(fs, 17) == first_blank_from(fs, 18));
        }
        if self.track_number.as_str().is_empty() {
            return Err(mk_validation("track_number"));
        }
        proof {
            assert(first_blank_from(fs, 18) == first_blank_from(fs, 19));
        }
        Ok(())
    }
}

} // verus!
