//! The order store: the relational model of customers, orders, line items and
//! the order-to-payment-handle mapping, with the invariants the rest of the
//! crate relies on.
//!
//! Row ids are assigned in insertion order, starting at 1, as the database's
//! rowid does. Line items and payment rows reference existing orders and
//! rooms, and the payment table holds at most one row per order: that
//! uniqueness is the sole safety net against handing two payment handles to
//! one order.

use vstd::prelude::*;
use crate::pricing::PricedItem;

verus! {

/// The error taxonomy of the core: every operation reports one of these,
/// never a panic.
#[derive(Clone, Copy, PartialEq, Eq, Structural, Debug)]
pub enum CoreError {
    /// Malformed input, or an order whose total is not representable.
    Validation,
    /// A store operation failed: a missing referenced row, or a full table.
    Persistence,
    /// A payment-handle insert was rejected because a row already exists.
    /// Expected and recoverable inside the reconciler, never surfaced.
    DuplicateHandle,
    /// The payment processor call failed or timed out.
    Gateway,
    /// Reconciliation was asked for an order with no line items or no
    /// customer.
    NotFound,
    /// A stored payment-handle id failed to parse: fatal for that call.
    MalformedHandle,
}

#[derive(Clone, Debug)]
pub struct Room {
    pub id: i64,
    pub name: String,
    pub beds: i64,
    pub pets_allowed: bool,
    pub price_in_cents: i64,
    pub hotel_id: i64,
}

#[derive(Clone, Debug)]
pub struct Customer {
    pub id: i64,
    pub email: String,
    pub billing_street: String,
    pub billing_street_add: String,
    pub billing_city: String,
    pub billing_postcode: String,
    pub billing_country: String,
}

#[derive(Clone, Copy, PartialEq, Eq, Structural, Debug)]
pub struct Order {
    pub id: i64,
    pub customer_id: i64,
}

#[derive(Clone, Debug)]
pub struct LineItem {
    pub id: i64,
    pub order_id: i64,
    pub room_id: i64,
    pub start_date: String,
    pub end_date: String,
}

#[derive(Clone, Debug)]
pub struct PaymentRow {
    pub order_id: i64,
    pub payment_intent_id: String,
}

/// One room plus date range within a submitted order.
#[derive(Clone, Debug)]
pub struct RoomOrder {
    pub room_id: i64,
    pub start_date: String,
    pub end_date: String,
}

/// The billing details submitted with an order.
#[derive(Clone, Debug)]
pub struct OrderAddress {
    pub email: String,
    pub billing_street: String,
    pub billing_street_add: Option<String>,
    pub billing_city: String,
    pub billing_postcode: String,
    pub billing_country: String,
}

pub struct Store {
    pub rooms: Vec<Room>,
    pub customers: Vec<Customer>,
    pub orders: Vec<Order>,
    pub order_items: Vec<LineItem>,
    pub order_payments: Vec<PaymentRow>,
}

/// An absent optional billing line is stored as the empty string.
pub open spec fn street_add_view(address: OrderAddress) -> Seq<char> {
    match address.billing_street_add {
        Some(s) => s@,
        None => Seq::<char>::empty(),
    }
}

/// The customer row that persisting `address` under id `id` writes.
pub open spec fn customer_matches(c: Customer, address: OrderAddress, id: i64) -> bool {
    &&& c.id == id
    &&& c.email@ == address.email@
    &&& c.billing_street@ == address.billing_street@
    &&& c.billing_street_add@ == street_add_view(address)
    &&& c.billing_city@ == address.billing_city@
    &&& c.billing_postcode@ == address.billing_postcode@
    &&& c.billing_country@ == address.billing_country@
}

/// The line item joined with its room's nightly rate.
pub open spec fn priced_row(it: LineItem, rooms: Seq<Room>) -> PricedItem {
    PricedItem {
        start_date: it.start_date,
        end_date: it.end_date,
        price_in_cents: rooms[it.room_id - 1].price_in_cents,
    }
}

/// The join of an order's line items with room pricing, in insertion order.
pub open spec fn spec_priced_items(items: Seq<LineItem>, rooms: Seq<Room>, order_id: i64) -> Seq<
    PricedItem,
>
    decreases items.len(),
{
    if items.len() == 0 {
        Seq::<PricedItem>::empty()
    } else {
        let rest = spec_priced_items(items.drop_last(), rooms, order_id);
        if items.last().order_id == order_id {
            rest.push(priced_row(items.last(), rooms))
        } else {
            rest
        }
    }
}

/// The line-item rows that persisting `ros` for order `order_id` appends,
/// with ids continuing from `base`.
pub open spec fn spec_new_items(ros: Seq<RoomOrder>, order_id: i64, base: int) -> Seq<LineItem> {
    Seq::new(
        ros.len(),
        |k: int|
            LineItem {
                id: (base + k + 1) as i64,
                order_id: order_id,
                room_id: ros[k].room_id,
                start_date: ros[k].start_date,
                end_date: ros[k].end_date,
            },
    )
}

impl Store {
    pub open spec fn room_valid(self, room_id: i64) -> bool {
        1 <= room_id && room_id <= self.rooms@.len()
    }

    pub open spec fn customer_valid(self, customer_id: i64) -> bool {
        1 <= customer_id && customer_id <= self.customers@.len()
    }

    pub open spec fn order_valid(self, order_id: i64) -> bool {
        1 <= order_id && order_id <= self.orders@.len()
    }

    /// At most one payment-handle row per order id.
    pub open spec fn payments_unique(self) -> bool {
        forall|i: int, j: int|
            0 <= i < j < self.order_payments@.len() ==> (#[trigger] self.order_payments@[i]).order_id
                != (#[trigger] self.order_payments@[j]).order_id
    }

    /// The store's well-formedness: sequential ids, referential integrity,
    /// and payment uniqueness.
    pub open spec fn wf(self) -> bool {
        &&& self.rooms@.len() <= i64::MAX
        &&& self.customers@.len() <= i64::MAX
        &&& self.orders@.len() <= i64::MAX
        &&& self.order_items@.len() <= i64::MAX
        &&& self.order_payments@.len() <= i64::MAX
        &&& forall|i: int| 0 <= i < self.rooms@.len() ==> (#[trigger] self.rooms@[i]).id == i + 1
        &&& forall|i: int|
            0 <= i < self.customers@.len() ==> (#[trigger] self.customers@[i]).id == i + 1
        &&& forall|i: int| 0 <= i < self.orders@.len() ==> (#[trigger] self.orders@[i]).id == i + 1
        &&& forall|i: int|
            0 <= i < self.order_items@.len() ==> (#[trigger] self.order_items@[i]).id == i + 1
        &&& forall|i: int|
            0 <= i < self.orders@.len() ==> self.customer_valid(
                (#[trigger] self.orders@[i]).customer_id,
            )
        &&& forall|i: int|
            0 <= i < self.order_items@.len() ==> self.order_valid(
                (#[trigger] self.order_items@[i]).order_id,
            )
        &&& forall|i: int|
            0 <= i < self.order_items@.len() ==> self.room_valid(
                (#[trigger] self.order_items@[i]).room_id,
            )
        &&& forall|i: int|
            0 <= i < self.order_payments@.len() ==> self.order_valid(
                (#[trigger] self.order_payments@[i]).order_id,
            )
        &&& self.payments_unique()
    }

    /// Every room's nightly rate is a price: non-negative.
    pub open spec fn rooms_priced(self) -> bool {
        forall|i: int| 0 <= i < self.rooms@.len() ==> (#[trigger] self.rooms@[i]).price_in_cents
            >= 0
    }

    pub open spec fn has_payment(self, order_id: i64) -> bool {
        exists|i: int|
            0 <= i < self.order_payments@.len() && (#[trigger] self.order_payments@[i]).order_id
                == order_id
    }

    pub open spec fn payment_mapped(self, order_id: i64, intent_id: Seq<char>) -> bool {
        exists|i: int|
            0 <= i < self.order_payments@.len() && (#[trigger] self.order_payments@[i]).order_id
                == order_id && self.order_payments@[i].payment_intent_id@ == intent_id
    }

    /// The receipt email of the order's customer.
    pub open spec fn spec_order_email(self, order_id: i64) -> Seq<char> {
        self.customers@[self.orders@[order_id - 1].customer_id - 1].email@
    }

    pub fn new() -> (r: Store)
        ensures
            r.wf(),
            r.rooms@.len() == 0,
            r.customers@.len() == 0,
            r.orders@.len() == 0,
            r.order_items@.len() == 0,
            r.order_payments@.len() == 0,
    {
        Store {
            rooms: Vec::new(),
            customers: Vec::new(),
            orders: Vec::new(),
            order_items: Vec::new(),
            order_payments: Vec::new(),
        }
    }

    /// Seed one room of reference data; its id continues the rowid sequence.
    pub fn insert_room(
        &mut self,
        name: String,
        beds: i64,
        pets_allowed: bool,
        price_in_cents: i64,
        hotel_id: i64,
    ) -> (r: Result<i64, CoreError>)
        requires
            old(self).wf(),
        ensures
            final(self).wf(),
            r matches Err(e) ==> *final(self) == *old(self) && e == CoreError::Persistence,
            r is Ok <==> old(self).rooms@.len() < i64::MAX,
            r matches Ok(id) ==> {
                &&& id == old(self).rooms@.len() + 1
                &&& final(self).rooms@ == old(self).rooms@.push(
                    Room { id, name, beds, pets_allowed, price_in_cents, hotel_id },
                )
                &&& final(self).customers == old(self).customers
                &&& final(self).orders == old(self).orders
                &&& final(self).order_items == old(self).order_items
                &&& final(self).order_payments == old(self).order_payments
            },
    {
        match next_id(self.rooms.len()) {
            Some(id) => {
                self.rooms.push(Room { id, name, beds, pets_allowed, price_in_cents, hotel_id });
                Ok(id)
            },
            None => Err(CoreError::Persistence),
        }
    }

    /// Write one customer row from the submitted billing details; an absent
    /// optional street line defaults to the empty string.
    pub fn insert_customer(&mut self, address: &OrderAddress) -> (r: Result<i64, CoreError>)
        requires
            old(self).wf(),
        ensures
            final(self).wf(),
            r matches Err(e) ==> *final(self) == *old(self) && e == CoreError::Persistence,
            r is Ok <==> old(self).customers@.len() < i64::MAX,
            r matches Ok(id) ==> {
                &&& id == old(self).customers@.len() + 1
                &&& final(self).customers@.len() == old(self).customers@.len() + 1
                &&& final(self).customers@.drop_last() == old(self).customers@
                &&& customer_matches(final(self).customers@.last(), *address, id)
                &&& final(self).rooms == old(self).rooms
                &&& final(self).orders == old(self).orders
                &&& final(self).order_items == old(self).order_items
                &&& final(self).order_payments == old(self).order_payments
            },
    {
        match next_id(self.customers.len()) {
            Some(id) => {
                let street_add: String = match &address.billing_street_add {
                    Some(s) => s.clone(),
                    None => String::new(),
                };
                self.customers.push(
                    Customer {
                        id,
                        email: address.email.clone(),
                        billing_street: address.billing_street.clone(),
                        billing_street_add: street_add,
                        billing_city: address.billing_city.clone(),
                        billing_postcode: address.billing_postcode.clone(),
                        billing_country: address.billing_country.clone(),
                    },
                );
                proof {
                    assert(final(self).customers@.drop_last() =~= old(self).customers@);
                }
                Ok(id)
            },
            None => Err(CoreError::Persistence),
        }
    }

    /// Write one order row referencing an existing customer.
    pub fn insert_order(&mut self, customer_id: i64) -> (r: Result<i64, CoreError>)
        requires
            old(self).wf(),
        ensures
            final(self).wf(),
            r matches Err(e) ==> *final(self) == *old(self) && e == CoreError::Persistence,
            r is Ok <==> old(self).customer_valid(customer_id) && old(self).orders@.len()
                < i64::MAX,
            r matches Ok(id) ==> {
                &&& id == old(self).orders@.len() + 1
                &&& final(self).orders@ == old(self).orders@.push(Order { id, customer_id })
                &&& final(self).rooms == old(self).rooms
                &&& final(self).customers == old(self).customers
                &&& final(self).order_items == old(self).order_items
                &&& final(self).order_payments == old(self).order_payments
            },
    {
        if !(1 <= customer_id && (customer_id as u64) <= (self.customers.len() as u64)) {
            return Err(CoreError::Persistence);
        }
        match next_id(self.orders.len()) {
            Some(id) => {
                self.orders.push(Order { id, customer_id });
                Ok(id)
            },
            None => Err(CoreError::Persistence),
        }
    }

    /// Write one line item referencing an existing order and room.
    pub fn insert_line_item(
        &mut self,
        order_id: i64,
        room_id: i64,
        start_date: String,
        end_date: String,
    ) -> (r: Result<i64, CoreError>)
        requires
            old(self).wf(),
        ensures
            final(self).wf(),
            r matches Err(e) ==> *final(self) == *old(self) && e == CoreError::Persistence,
            r is Ok <==> old(self).order_valid(order_id) && old(self).room_valid(room_id) && old(
                self,
            ).order_items@.len() < i64::MAX,
            r matches Ok(id) ==> {
                &&& id == old(self).order_items@.len() + 1
                &&& final(self).order_items@ == old(self).order_items@.push(
                    LineItem { id, order_id, room_id, start_date, end_date },
                )
                &&& final(self).rooms == old(self).rooms
                &&& final(self).customers == old(self).customers
                &&& final(self).orders == old(self).orders
                &&& final(self).order_payments == old(self).order_payments
            },
    {
        if !(1 <= order_id && (order_id as u64) <= (self.orders.len() as u64)) {
            return Err(CoreError::Persistence);
        }
        if !(1 <= room_id && (room_id as u64) <= (self.rooms.len() as u64)) {
            return Err(CoreError::Persistence);
        }
        match next_id(self.order_items.len()) {
            Some(id) => {
                self.order_items.push(LineItem { id, order_id, room_id, start_date, end_date });
                Ok(id)
            },
            None => Err(CoreError::Persistence),
        }
    }

    /// Point read of the order's payment-handle mapping.
    pub fn find_payment_handle(&self, order_id: i64) -> (r: Option<String>)
        ensures
            r is Some <==> self.has_payment(order_id),
            r matches Some(h) ==> self.payment_mapped(order_id, h@),
    {
        let mut i: usize = 0;
        while i < self.order_payments.len()
            invariant
                0 <= i <= self.order_payments@.len(),
                forall|j: int|
                    0 <= j < i ==> (#[trigger] self.order_payments@[j]).order_id != order_id,
            decreases self.order_payments@.len() - i,
        {
            if self.order_payments[i].order_id == order_id {
                return Some(self.order_payments[i].payment_intent_id.clone());
            }
            i = i + 1;
        }
        None
    }

    /// Record the order's payment handle; reject, rather than overwrite, a
    /// second mapping for the same order.
    pub fn insert_payment_handle(&mut self, order_id: i64, intent_id: String) -> (r: Result<
        (),
        CoreError,
    >)
        requires
            old(self).wf(),
        ensures
            final(self).wf(),
            r matches Err(_) ==> *final(self) == *old(self),
            !old(self).order_valid(order_id) ==> r == Err::<(), CoreError>(CoreError::Persistence),
            old(self).order_valid(order_id) && old(self).has_payment(order_id) ==> r == Err::<
                (),
                CoreError,
            >(CoreError::DuplicateHandle),
            r is Ok <==> old(self).order_valid(order_id) && !old(self).has_payment(order_id) && old(
                self,
            ).order_payments@.len() < i64::MAX,
            r is Ok ==> {
                &&& final(self).order_payments@ == old(self).order_payments@.push(
                    PaymentRow { order_id, payment_intent_id: intent_id },
                )
                &&& final(self).has_payment(order_id)
                &&& final(self).payment_mapped(order_id, intent_id@)
                &&& final(self).rooms == old(self).rooms
                &&& final(self).customers == old(self).customers
                &&& final(self).orders == old(self).orders
                &&& final(self).order_items == old(self).order_items
            },
    {
        if !(1 <= order_id && (order_id as u64) <= (self.orders.len() as u64)) {
            return Err(CoreError::Persistence);
        }
        if self.find_payment_handle(order_id).is_some() {
            return Err(CoreError::DuplicateHandle);
        }
        if !((self.order_payments.len() as u64) < (i64::MAX as u64)) {
            return Err(CoreError::Persistence);
        }
        self.order_payments.push(PaymentRow { order_id, payment_intent_id: intent_id });
        proof {
            let n = old(self).order_payments@.len() as int;
            assert(final(self).order_payments@[n].order_id == order_id);
        }
        Ok(())
    }

    /// The join of the order's line items with each room's nightly rate.
    pub fn fetch_line_items_with_price(&self, order_id: i64) -> (r: Vec<PricedItem>)
        requires
            self.wf(),
        ensures
            r@ == spec_priced_items(self.order_items@, self.rooms@, order_id),
    {
        let mut out: Vec<PricedItem> = Vec::new();
        let mut i: usize = 0;
        while i < self.order_items.len()
            invariant
                self.wf(),
                0 <= i <= self.order_items@.len(),
                out@ == spec_priced_items(self.order_items@.take(i as int), self.rooms@, order_id),
            decreases self.order_items@.len() - i,
        {
            proof {
                lemma_priced_items_take_succ(self.order_items@, self.rooms@, order_id, i as int);
                assert(self.room_valid(self.order_items@[i as int].room_id));
            }
            let it = &self.order_items[i];
            if it.order_id == order_id {
                let nrooms: usize = self.rooms.len();
                proof {
                    assert(0 <= it.room_id - 1 < nrooms);
                }
                let idx: usize = (it.room_id - 1) as usize;
                let rate: i64 = self.rooms[idx].price_in_cents;
                out.push(
                    PricedItem {
                        start_date: it.start_date.clone(),
                        end_date: it.end_date.clone(),
                        price_in_cents: rate,
                    },
                );
                proof {
                    assert(out@.last() == priced_row(self.order_items@[i as int], self.rooms@));
                    assert(out@ =~= spec_priced_items(
                        self.order_items@.take(i as int + 1),
                        self.rooms@,
                        order_id,
                    ));
                }
            }
            i = i + 1;
        }
        proof {
            assert(self.order_items@.take(self.order_items@.len() as int) =~= self.order_items@);
        }
        out
    }

    /// The receipt email of the order's customer, `None` for an unknown
    /// order id.
    pub fn fetch_customer_email(&self, order_id: i64) -> (r: Option<String>)
        requires
            self.wf(),
        ensures
            r is Some <==> self.order_valid(order_id),
            r matches Some(e) ==> e@ == self.spec_order_email(order_id),
    {
        if !(1 <= order_id && (order_id as u64) <= (self.orders.len() as u64)) {
            return None;
        }
        let norders: usize = self.orders.len();
        let ncustomers: usize = self.customers.len();
        proof {
            assert(self.order_valid(order_id));
            assert(0 <= order_id - 1 < norders);
            assert(self.customer_valid(self.orders@[order_id - 1].customer_id));
        }
        let customer_id: i64 = self.orders[(order_id - 1) as usize].customer_id;
        proof {
            assert(0 <= customer_id - 1 < ncustomers);
        }
        Some(self.customers[(customer_id - 1) as usize].email.clone())
    }

    /// Persist one submitted order atomically: one customer row, one order
    /// row, one line item per submitted room, all or nothing. The order id
    /// is handed out only when everything was written.
    pub fn persist_order(&mut self, rooms_order: &Vec<RoomOrder>, address: &OrderAddress) -> (r:
        Result<i64, CoreError>)
        requires
            old(self).wf(),
            old(self).customers@.len() < i64::MAX,
            old(self).orders@.len() < i64::MAX,
            old(self).order_items@.len() + rooms_order@.len() <= i64::MAX,
        ensures
            final(self).wf(),
            r matches Err(e) ==> *final(self) == *old(self) && e == CoreError::Persistence,
            r is Ok <==> forall|k: int|
                0 <= k < rooms_order@.len() ==> old(self).room_valid(
                    (#[trigger] rooms_order@[k]).room_id,
                ),
            r matches Ok(order_id) ==> {
                &&& order_id == old(self).orders@.len() + 1
                &&& final(self).customers@.len() == old(self).customers@.len() + 1
                &&& final(self).customers@.drop_last() == old(self).customers@
                &&& customer_matches(
                    final(self).customers@.last(),
                    *address,
                    (old(self).customers@.len() + 1) as i64,
                )
                &&& final(self).orders@ == old(self).orders@.push(
                    Order { id: order_id, customer_id: (old(self).customers@.len() + 1) as i64 },
                )
                &&& final(self).order_items@ == old(self).order_items@ + spec_new_items(
                    rooms_order@,
                    order_id,
                    old(self).order_items@.len() as int,
                )
                &&& final(self).rooms == old(self).rooms
                &&& final(self).order_payments == old(self).order_payments
            },
    {
        let ghost base: int = old(self).order_items@.len() as int;
        let mut k: usize = 0;
        while k < rooms_order.len()
            invariant
                *self == *old(self),
                old(self).wf(),
                0 <= k <= rooms_order@.len(),
                forall|j: int|
                    0 <= j < k ==> old(self).room_valid((#[trigger] rooms_order@[j]).room_id),
            decreases rooms_order@.len() - k,
        {
            let rid: i64 = rooms_order[k].room_id;
            if !(1 <= rid && (rid as u64) <= (self.rooms.len() as u64)) {
                proof {
                    assert(!old(self).room_valid(rooms_order@[k as int].room_id));
                }
                return Err(CoreError::Persistence);
            }
            k = k + 1;
        }

        let customer_id: i64 = match self.insert_customer(address) {
            Ok(id) => id,
            Err(_) => {
                proof {
                    assert(false);
                }
                return Err(CoreError::Persistence);
            },
        };
        let order_id: i64 = match self.insert_order(customer_id) {
            Ok(id) => id,
            Err(_) => {
                proof {
                    assert(false);
                }
                return Err(CoreError::Persistence);
            },
        };

        let mut k2: usize = 0;
        while k2 < rooms_order.len()
            invariant
                self.wf(),
                0 <= k2 <= rooms_order@.len(),
                rooms_order@.len() <= i64::MAX,
                base + rooms_order@.len() <= i64::MAX,
                forall|j: int|
                    0 <= j < rooms_order@.len() ==> old(self).room_valid(
                        (#[trigger] rooms_order@[j]).room_id,
                    ),
                order_id == old(self).orders@.len() + 1,
                self.customers@.len() == old(self).customers@.len() + 1,
                self.customers@.drop_last() == old(self).customers@,
                customer_matches(
                    self.customers@.last(),
                    *address,
                    (old(self).customers@.len() + 1) as i64,
                ),
                self.orders@ == old(self).orders@.push(
                    Order { id: order_id, customer_id: (old(self).customers@.len() + 1) as i64 },
                ),
                self.order_items@ == old(self).order_items@ + spec_new_items(
                    rooms_order@.take(k2 as int),
                    order_id,
                    base,
                ),
                self.order_items@.len() == base + k2,
                self.rooms == old(self).rooms,
                self.order_payments == old(self).order_payments,
            decreases rooms_order@.len() - k2,
        {
            let ro = &rooms_order[k2];
            match self.insert_line_item(
                order_id,
                ro.room_id,
                ro.start_date.clone(),
                ro.end_date.clone(),
            ) {
                Ok(_) => {
                    proof {
                        assert(self.order_items@ =~= old(self).order_items@ + spec_new_items(
                            rooms_order@.take(k2 as int + 1),
                            order_id,
                            base,
                        ));
                    }
                },
                Err(_) => {
                    proof {
                        assert(false);
                    }
                    return Err(CoreError::Persistence);
                },
            }
            k2 = k2 + 1;
        }
        proof {
            assert(rooms_order@.take(rooms_order@.len() as int) =~= rooms_order@);
        }
        Ok(order_id)
    }
}

/// The next rowid for a table of `len` rows, `None` when the table is full.
fn next_id(len: usize) -> (r: Option<i64>)
    ensures
        r matches Some(id) ==> id == len + 1,
        r is Some <==> len < i64::MAX,
{
    if (len as u64) < (i64::MAX as u64) {
        Some((len as i64) + 1)
    } else {
        None
    }
}

pub proof fn lemma_priced_items_take_succ(
    items: Seq<LineItem>,
    rooms: Seq<Room>,
    order_id: i64,
    i: int,
)
    requires
        0 <= i < items.len(),
    ensures
        spec_priced_items(items.take(i + 1), rooms, order_id) == if items[i].order_id == order_id {
            spec_priced_items(items.take(i), rooms, order_id).push(priced_row(items[i], rooms))
        } else {
            spec_priced_items(items.take(i), rooms, order_id)
        },
{
    assert(items.take(i + 1).drop_last() =~= items.take(i));
    assert(items.take(i + 1).last() == items[i]);
}

/// The joined rows of a well-formed store carry room prices: with every room
/// priced non-negatively, so is every joined row.
pub proof fn lemma_priced_items_priced(items: Seq<LineItem>, rooms: Seq<Room>, order_id: i64)
    requires
        forall|i: int| 0 <= i < items.len() ==> 1 <= (#[trigger] items[i]).room_id <= rooms.len(),
        forall|i: int| 0 <= i < rooms.len() ==> (#[trigger] rooms[i]).price_in_cents >= 0,
    ensures
        crate::pricing::items_priced(spec_priced_items(items, rooms, order_id)),
    decreases items.len(),
{
    if items.len() > 0 {
        assert(forall|i: int|
            0 <= i < items.drop_last().len() ==> 1 <= (#[trigger] items.drop_last()[i]).room_id
                <= rooms.len());
        lemma_priced_items_priced(items.drop_last(), rooms, order_id);
    }
}

/// A non-empty join means some stored line item references the order.
pub proof fn lemma_priced_items_order_exists(
    items: Seq<LineItem>,
    rooms: Seq<Room>,
    order_id: i64,
)
    requires
        spec_priced_items(items, rooms, order_id).len() > 0,
    ensures
        exists|i: int| 0 <= i < items.len() && (#[trigger] items[i]).order_id == order_id,
    decreases items.len(),
{
    if items.len() > 0 {
        if items.last().order_id == order_id {
            assert(items[items.len() - 1].order_id == order_id);
        } else {
            lemma_priced_items_order_exists(items.drop_last(), rooms, order_id);
            let i = choose|i: int|
                0 <= i < items.drop_last().len() && (#[trigger] items.drop_last()[i]).order_id
                    == order_id;
            assert(items[i].order_id == order_id);
        }
    }
}

/// Payment-handle uniqueness: in a well-formed store, two payment rows for
/// one order id are the same row.
pub proof fn lemma_payment_row_unique(s: Store, order_id: i64, i: int, j: int)
    requires
        s.wf(),
        0 <= i < s.order_payments@.len(),
        0 <= j < s.order_payments@.len(),
        s.order_payments@[i].order_id == order_id,
        s.order_payments@[j].order_id == order_id,
    ensures
        i == j,
{
}

/// A well-formed store maps an order to at most one handle id: any two
/// mapped ids are the same text, so every caller that completes sees the
/// same recorded handle.
pub proof fn lemma_mapped_handle_unique(s: Store, order_id: i64, a: Seq<char>, b: Seq<char>)
    requires
        s.wf(),
        s.payment_mapped(order_id, a),
        s.payment_mapped(order_id, b),
    ensures
        a == b,
{
    let i = choose|i: int|
        0 <= i < s.order_payments@.len() && (#[trigger] s.order_payments@[i]).order_id == order_id
            && s.order_payments@[i].payment_intent_id@ == a;
    let j = choose|j: int|
        0 <= j < s.order_payments@.len() && (#[trigger] s.order_payments@[j]).order_id == order_id
            && s.order_payments@[j].payment_intent_id@ == b;
    lemma_payment_row_unique(s, order_id, i, j);
}

} // verus!
