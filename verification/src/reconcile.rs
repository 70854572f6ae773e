//! The payment reconciler: for an order id, obtain exactly one payment
//! handle. A recorded mapping is re-used; otherwise the order is priced, a
//! handle is created with the processor, and the mapping is recorded — the
//! store's duplicate rejection being the only safety net under racing calls.
//!
//! Two layers: `ensure_payment_handle` runs the whole decision against the
//! store model, with the processor's reply passed in; `reconcile_step` is the
//! same state machine one event at a time, for a caller that performs each
//! store and processor call itself between steps.

use vstd::prelude::*;
use vstd::string::StrSliceExecFns;
use crate::store::Store;
use crate::store::CoreError;
use crate::store::PaymentRow;
use crate::store::spec_priced_items;
use crate::store::lemma_priced_items_priced;
use crate::store::lemma_priced_items_order_exists;
use crate::store::lemma_payment_row_unique;
use crate::pricing::PricedItem;
use crate::pricing::compute_price;
use crate::pricing::items_priced;
use crate::pricing::spec_resolved;
use crate::pricing::spec_total_price;
use crate::pricing::lemma_total_nonneg;
use crate::pricing::lemma_resolved_priced;

verus! {

/// A payment handle as the processor issues it: an opaque id and the
/// client-facing secret.
#[derive(Clone, Debug)]
pub struct PaymentHandle {
    pub id: String,
    pub client_secret: String,
}

/// What a completed reconciliation produced.
#[derive(Debug)]
pub enum HandleOutcome {
    /// A handle was created with the processor for this amount and receipt
    /// email, and its mapping recorded.
    Created { handle: PaymentHandle, amount: i64, receipt_email: String },
    /// A mapping already existed; its stored handle id is returned for
    /// retrieval, with no processor-side creation.
    Existing { id: String },
}

/// A processor payment-intent id as the processor's client library accepts
/// it: text beginning with `pi_`.
pub open spec fn spec_intent_id_ok(s: Seq<char>) -> bool {
    s.len() >= 3 && s[0] == 'p' && s[1] == 'i' && s[2] == '_'
}

pub fn intent_id_ok(s: &str) -> (r: bool)
    ensures
        r == spec_intent_id_ok(s@),
{
    let n: usize = s.unicode_len();
    if n < 3 {
        return false;
    }
    let c0: char = s.get_char(0);
    let c1: char = s.get_char(1);
    let c2: char = s.get_char(2);
    c0 == 'p' && c1 == 'i' && c2 == '_'
}

/// Every stored mapping for the order carries a well-formed handle id.
pub open spec fn stored_intent_ok(s: Store, order_id: i64) -> bool {
    forall|i: int|
        0 <= i < s.order_payments@.len() && (#[trigger] s.order_payments@[i]).order_id == order_id
            ==> spec_intent_id_ok(s.order_payments@[i].payment_intent_id@)
}

/// The order's total as priced from its stored line items.
pub open spec fn spec_order_total(s: Store, order_id: i64) -> int {
    spec_total_price(spec_resolved(spec_priced_items(s.order_items@, s.rooms@, order_id)))
}

pub open spec fn order_has_items(s: Store, order_id: i64) -> bool {
    spec_priced_items(s.order_items@, s.rooms@, order_id).len() > 0
}

/// Obtain the order's payment handle against the store model: return the
/// recorded mapping if one exists, otherwise price the order, take `fresh`
/// as the processor's newly created handle, and record its mapping. After a
/// success the store holds exactly one mapping for the order, and the result
/// references it.
pub fn ensure_payment_handle(store: &mut Store, order_id: i64, fresh: &PaymentHandle) -> (r:
    Result<HandleOutcome, CoreError>)
    requires
        old(store).wf(),
        old(store).rooms_priced(),
        old(store).order_payments@.len() < i64::MAX,
    ensures
        final(store).wf(),
        r matches Err(_) ==> *final(store) == *old(store),
        r is Ok ==> final(store).has_payment(order_id),
        old(store).has_payment(order_id) ==> *final(store) == *old(store),
        old(store).has_payment(order_id) && stored_intent_ok(*old(store), order_id) ==> match r {
            Ok(HandleOutcome::Existing { id }) => old(store).payment_mapped(order_id, id@)
                && spec_intent_id_ok(id@),
            _ => false,
        },
        old(store).has_payment(order_id) && !stored_intent_ok(*old(store), order_id) ==> r
            == Err::<HandleOutcome, CoreError>(CoreError::MalformedHandle),
        !old(store).has_payment(order_id) && !order_has_items(*old(store), order_id) ==> r
            == Err::<HandleOutcome, CoreError>(CoreError::NotFound),
        !old(store).has_payment(order_id) && order_has_items(*old(store), order_id)
            && spec_order_total(*old(store), order_id) > i64::MAX ==> r == Err::<
            HandleOutcome,
            CoreError,
        >(CoreError::Validation),
        !old(store).has_payment(order_id) && order_has_items(*old(store), order_id)
            && spec_order_total(*old(store), order_id) <= i64::MAX ==> match r {
            Ok(HandleOutcome::Created { handle, amount, receipt_email }) => {
                &&& handle.id@ == fresh.id@
                &&& handle.client_secret@ == fresh.client_secret@
                &&& amount == spec_order_total(*old(store), order_id)
                &&& receipt_email@ == old(store).spec_order_email(order_id)
                &&& final(store).order_payments@ == old(store).order_payments@.push(
                    PaymentRow { order_id, payment_intent_id: fresh.id },
                )
                &&& final(store).payment_mapped(order_id, fresh.id@)
                &&& final(store).rooms == old(store).rooms
                &&& final(store).customers == old(store).customers
                &&& final(store).orders == old(store).orders
                &&& final(store).order_items == old(store).order_items
            },
            _ => false,
        },
{
    match store.find_payment_handle(order_id) {
        Some(id) => {
            proof {
                let i = choose|i: int|
                    0 <= i < store.order_payments@.len() && (
                    #[trigger] store.order_payments@[i]).order_id == order_id
                        && store.order_payments@[i].payment_intent_id@ == id@;
                assert(store.order_payments@[i].order_id == order_id);
            }
            if intent_id_ok(id.as_str()) {
                proof {
                    let i = choose|i: int|
                        0 <= i < store.order_payments@.len() && (
                        #[trigger] store.order_payments@[i]).order_id == order_id
                            && store.order_payments@[i].payment_intent_id@ == id@;
                    assert forall|j: int|
                        0 <= j < store.order_payments@.len() && (
                        #[trigger] store.order_payments@[j]).order_id
                            == order_id implies spec_intent_id_ok(
                        store.order_payments@[j].payment_intent_id@,
                    ) by {
                        lemma_payment_row_unique(*store, order_id, i, j);
                    }
                }
                Ok(HandleOutcome::Existing { id })
            } else {
                proof {
                    let i = choose|i: int|
                        0 <= i < store.order_payments@.len() && (
                        #[trigger] store.order_payments@[i]).order_id == order_id
                            && store.order_payments@[i].payment_intent_id@ == id@;
                    assert(!spec_intent_id_ok(store.order_payments@[i].payment_intent_id@));
                    assert(!stored_intent_ok(*store, order_id));
                }
                Err(CoreError::MalformedHandle)
            }
        },
        None => {
            let items: Vec<PricedItem> = store.fetch_line_items_with_price(order_id);
            if items.len() == 0 {
                return Err(CoreError::NotFound);
            }
            proof {
                assert forall|i: int| 0 <= i < store.order_items@.len() implies 1 <= (
                #[trigger] store.order_items@[i]).room_id <= store.rooms@.len() by {
                    assert(store.room_valid(store.order_items@[i].room_id));
                }
                lemma_priced_items_priced(store.order_items@, store.rooms@, order_id);
                lemma_priced_items_order_exists(store.order_items@, store.rooms@, order_id);
                let w = choose|i: int|
                    0 <= i < store.order_items@.len() && (
                    #[trigger] store.order_items@[i]).order_id == order_id;
                assert(store.order_valid(store.order_items@[w].order_id));
            }
            let amount: i64 = match compute_price(&items) {
                Some(a) => a,
                None => {
                    return Err(CoreError::Validation);
                },
            };
            let receipt_email: String = match store.fetch_customer_email(order_id) {
                Some(e) => e,
                None => {
                    proof {
                        assert(false);
                    }
                    return Err(CoreError::NotFound);
                },
            };
            match store.insert_payment_handle(order_id, fresh.id.clone()) {
                Ok(_) => Ok(
                    HandleOutcome::Created {
                        handle: PaymentHandle {
                            id: fresh.id.clone(),
                            client_secret: fresh.client_secret.clone(),
                        },
                        amount,
                        receipt_email,
                    },
                ),
                Err(_) => {
                    proof {
                        assert(false);
                    }
                    return Err(CoreError::Persistence);
                },
            }
        },
    }
}

/// Where a reconciliation run stands between two I/O calls.
#[derive(Debug)]
pub enum RecState {
    /// Waiting for the order's mapping to be read.
    AwaitMapping,
    /// No mapping: waiting for the order's priced line items.
    AwaitItems,
    /// Waiting for the customer's receipt email.
    AwaitEmail { amount: i64 },
    /// Waiting for the processor to create the handle.
    AwaitCreate { amount: i64 },
    /// Waiting for the created handle's mapping to be inserted.
    AwaitInsert { handle: PaymentHandle },
    /// The insert lost against a concurrent mapping: re-read it.
    AwaitReread,
    /// Waiting for the processor to retrieve the recorded handle.
    AwaitRetrieve,
    /// Finished with a handle; `created` says whether this run created it.
    Done { handle: PaymentHandle, created: bool },
    Failed { err: CoreError },
}

/// What the last requested call returned.
#[derive(Debug)]
pub enum RecEvent {
    MappingRead { id: Option<String> },
    ItemsFetched { items: Vec<PricedItem> },
    EmailFetched { email: String },
    HandleCreated { handle: PaymentHandle },
    HandleRetrieved { handle: PaymentHandle },
    InsertOk,
    InsertDuplicate,
    StoreFailed,
    GatewayFailed,
}

/// The next call the caller is to perform.
#[derive(Debug)]
pub enum RecAction {
    /// Read the order's payment-handle mapping from the store.
    ReadMapping,
    /// Fetch the order's line items joined with room pricing.
    FetchItems,
    /// Fetch the order's customer email.
    FetchEmail,
    /// Create a handle with the processor for this amount and email.
    CreateHandle { amount: i64, email: String },
    /// Retrieve the handle with this id from the processor.
    RetrieveHandle { id: String },
    /// Insert the order's mapping to this handle id; a duplicate rejection
    /// is the expected outcome of losing a race, not a failure.
    InsertMapping { intent_id: String },
    /// The run is over; the state holds the outcome.
    Stop,
}

/// The reconciler's transition function: from the state and the last call's
/// result to the next state and the next call. An event that does not answer
/// the pending call fails the run.
pub open spec fn spec_step(state: RecState, event: RecEvent) -> (RecState, RecAction) {
    match state {
        RecState::AwaitMapping => match event {
            RecEvent::MappingRead { id } => match id {
                Some(id) => if spec_intent_id_ok(id@) {
                    (RecState::AwaitRetrieve, RecAction::RetrieveHandle { id })
                } else {
                    (RecState::Failed { err: CoreError::MalformedHandle }, RecAction::Stop)
                },
                None => (RecState::AwaitItems, RecAction::FetchItems),
            },
            RecEvent::StoreFailed => (
                RecState::Failed { err: CoreError::Persistence },
                RecAction::Stop,
            ),
            _ => (RecState::Failed { err: CoreError::Validation }, RecAction::Stop),
        },
        RecState::AwaitItems => match event {
            RecEvent::ItemsFetched { items } => {
                if items@.len() == 0 {
                    (RecState::Failed { err: CoreError::NotFound }, RecAction::Stop)
                } else {
                    let total = spec_total_price(spec_resolved(items@));
                    if total > i64::MAX || total < 0 {
                        (RecState::Failed { err: CoreError::Validation }, RecAction::Stop)
                    } else {
                        (RecState::AwaitEmail { amount: total as i64 }, RecAction::FetchEmail)
                    }
                }
            },
            RecEvent::StoreFailed => (
                RecState::Failed { err: CoreError::Persistence },
                RecAction::Stop,
            ),
            _ => (RecState::Failed { err: CoreError::Validation }, RecAction::Stop),
        },
        RecState::AwaitEmail { amount } => match event {
            RecEvent::EmailFetched { email } => (
                RecState::AwaitCreate { amount },
                RecAction::CreateHandle { amount, email },
            ),
            RecEvent::StoreFailed => (
                RecState::Failed { err: CoreError::Persistence },
                RecAction::Stop,
            ),
            _ => (RecState::Failed { err: CoreError::Validation }, RecAction::Stop),
        },
        RecState::AwaitCreate { amount } => match event {
            RecEvent::HandleCreated { handle } => {
                let intent_id = handle.id;
                (RecState::AwaitInsert { handle }, RecAction::InsertMapping { intent_id })
            },
            RecEvent::GatewayFailed => (
                RecState::Failed { err: CoreError::Gateway },
                RecAction::Stop,
            ),
            _ => (RecState::Failed { err: CoreError::Validation }, RecAction::Stop),
        },
        RecState::AwaitInsert { handle } => match event {
            RecEvent::InsertOk => (RecState::Done { handle, created: true }, RecAction::Stop),
            RecEvent::InsertDuplicate => (RecState::AwaitReread, RecAction::ReadMapping),
            RecEvent::StoreFailed => (
                RecState::Failed { err: CoreError::Persistence },
                RecAction::Stop,
            ),
            _ => (RecState::Failed { err: CoreError::Validation }, RecAction::Stop),
        },
        RecState::AwaitReread => match event {
            RecEvent::MappingRead { id } => match id {
                Some(id) => if spec_intent_id_ok(id@) {
                    (RecState::AwaitRetrieve, RecAction::RetrieveHandle { id })
                } else {
                    (RecState::Failed { err: CoreError::MalformedHandle }, RecAction::Stop)
                },
                // a lost duplicate race always leaves a mapping to re-read
                None => (RecState::Failed { err: CoreError::Persistence }, RecAction::Stop),
            },
            RecEvent::StoreFailed => (
                RecState::Failed { err: CoreError::Persistence },
                RecAction::Stop,
            ),
            _ => (RecState::Failed { err: CoreError::Validation }, RecAction::Stop),
        },
        RecState::AwaitRetrieve => match event {
            RecEvent::HandleRetrieved { handle } => (
                RecState::Done { handle, created: false },
                RecAction::Stop,
            ),
            RecEvent::GatewayFailed => (
                RecState::Failed { err: CoreError::Gateway },
                RecAction::Stop,
            ),
            _ => (RecState::Failed { err: CoreError::Validation }, RecAction::Stop),
        },
        RecState::Done { handle, created } => (RecState::Done { handle, created }, RecAction::Stop),
        RecState::Failed { err } => (RecState::Failed { err }, RecAction::Stop),
    }
}

/// A reconciliation run opens by reading the order's mapping.
pub fn reconcile_begin() -> (r: (RecState, RecAction))
    ensures
        r.0 == RecState::AwaitMapping,
        r.1 == RecAction::ReadMapping,
{
    (RecState::AwaitMapping, RecAction::ReadMapping)
}

/// One transition of the reconciler, exactly as `spec_step` lays it down.
pub fn reconcile_step(state: RecState, event: RecEvent) -> (r: (RecState, RecAction))
    requires
        event matches RecEvent::ItemsFetched { items } ==> items_priced(items@),
    ensures
        r == spec_step(state, event),
{
    match state {
        RecState::AwaitMapping => match event {
            RecEvent::MappingRead { id } => match id {
                Some(id) => {
                    if intent_id_ok(id.as_str()) {
                        (RecState::AwaitRetrieve, RecAction::RetrieveHandle { id })
                    } else {
                        (RecState::Failed { err: CoreError::MalformedHandle }, RecAction::Stop)
                    }
                },
                None => (RecState::AwaitItems, RecAction::FetchItems),
            },
            RecEvent::StoreFailed => (
                RecState::Failed { err: CoreError::Persistence },
                RecAction::Stop,
            ),
            _ => (RecState::Failed { err: CoreError::Validation }, RecAction::Stop),
        },
        RecState::AwaitItems => match event {
            RecEvent::ItemsFetched { items } => {
                if items.len() == 0 {
                    (RecState::Failed { err: CoreError::NotFound }, RecAction::Stop)
                } else {
                    proof {
                        lemma_resolved_priced(items@);
                        lemma_total_nonneg(spec_resolved(items@));
                    }
                    match compute_price(&items) {
                        Some(amount) => (
                            RecState::AwaitEmail { amount },
                            RecAction::FetchEmail,
                        ),
                        None => (
                            RecState::Failed { err: CoreError::Validation },
                            RecAction::Stop,
                        ),
                    }
                }
            },
            RecEvent::StoreFailed => (
                RecState::Failed { err: CoreError::Persistence },
                RecAction::Stop,
            ),
            _ => (RecState::Failed { err: CoreError::Validation }, RecAction::Stop),
        },
        RecState::AwaitEmail { amount } => match event {
            RecEvent::EmailFetched { email } => (
                RecState::AwaitCreate { amount },
                RecAction::CreateHandle { amount, email },
            ),
            RecEvent::StoreFailed => (
                RecState::Failed { err: CoreError::Persistence },
                RecAction::Stop,
            ),
            _ => (RecState::Failed { err: CoreError::Validation }, RecAction::Stop),
        },
        RecState::AwaitCreate { amount } => match event {
            RecEvent::HandleCreated { handle } => {
                let intent_id: String = handle.id.clone();
                (RecState::AwaitInsert { handle }, RecAction::InsertMapping { intent_id })
            },
            RecEvent::GatewayFailed => (
                RecState::Failed { err: CoreError::Gateway },
                RecAction::Stop,
            ),
            _ => (RecState::Failed { err: CoreError::Validation }, RecAction::Stop),
        },
        RecState::AwaitInsert { handle } => match event {
            RecEvent::InsertOk => (RecState::Done { handle, created: true }, RecAction::Stop),
            RecEvent::InsertDuplicate => (RecState::AwaitReread, RecAction::ReadMapping),
            RecEvent::StoreFailed => (
                RecState::Failed { err: CoreError::Persistence },
                RecAction::Stop,
            ),
            _ => (RecState::Failed { err: CoreError::Validation }, RecAction::Stop),
        },
        RecState::AwaitReread => match event {
            RecEvent::MappingRead { id } => match id {
                Some(id) => {
                    if intent_id_ok(id.as_str()) {
                        (RecState::AwaitRetrieve, RecAction::RetrieveHandle { id })
                    } else {
                        (RecState::Failed { err: CoreError::MalformedHandle }, RecAction::Stop)
                    }
                },
                None => (RecState::Failed { err: CoreError::Persistence }, RecAction::Stop),
            },
            RecEvent::StoreFailed => (
                RecState::Failed { err: CoreError::Persistence },
                RecAction::Stop,
            ),
            _ => (RecState::Failed { err: CoreError::Validation }, RecAction::Stop),
        },
        RecState::AwaitRetrieve => match event {
            RecEvent::HandleRetrieved { handle } => (
                RecState::Done { handle, created: false },
                RecAction::Stop,
            ),
            RecEvent::GatewayFailed => (
                RecState::Failed { err: CoreError::Gateway },
                RecAction::Stop,
            ),
            _ => (RecState::Failed { err: CoreError::Validation }, RecAction::Stop),
        },
        RecState::Done { handle, created } => (RecState::Done { handle, created }, RecAction::Stop),
        RecState::Failed { err } => (RecState::Failed { err }, RecAction::Stop),
    }
}

/// States from which the run can only retrieve: it will never ask the
/// processor to create a handle, and never claim to have created one.
pub open spec fn retrieval_phase(s: RecState) -> bool {
    match s {
        RecState::AwaitReread => true,
        RecState::AwaitRetrieve => true,
        RecState::Done { created, .. } => !created,
        RecState::Failed { .. } => true,
        _ => false,
    }
}

pub open spec fn action_creates(a: RecAction) -> bool {
    a matches RecAction::CreateHandle { .. }
}

/// The state after running a sequence of events through the machine.
pub open spec fn spec_run(s: RecState, events: Seq<RecEvent>) -> RecState
    decreases events.len(),
{
    if events.len() == 0 {
        s
    } else {
        spec_run(spec_step(s, events[0]).0, events.drop_first())
    }
}

/// The retrieval phase is closed: from it, no step ever issues a processor
/// creation, and the run stays in the phase.
pub proof fn lemma_retrieval_phase_closed(s: RecState, e: RecEvent)
    requires
        retrieval_phase(s),
    ensures
        retrieval_phase(spec_step(s, e).0),
        !action_creates(spec_step(s, e).1),
{
}

/// A run that finds an existing mapping enters the retrieval phase at once:
/// the second of two sequential calls only retrieves.
pub proof fn lemma_found_mapping_retrieves(id: String)
    ensures
        retrieval_phase(spec_step(RecState::AwaitMapping, RecEvent::MappingRead { id: Some(id) }).0),
        !action_creates(
            spec_step(RecState::AwaitMapping, RecEvent::MappingRead { id: Some(id) }).1,
        ),
{
}

/// The loser of the duplicate-insert race re-reads the winning mapping and
/// enters the retrieval phase: it never returns the handle it created.
pub proof fn lemma_duplicate_loser_retrieves(handle: PaymentHandle)
    ensures
        spec_step(RecState::AwaitInsert { handle }, RecEvent::InsertDuplicate).0
            == RecState::AwaitReread,
        spec_step(RecState::AwaitInsert { handle }, RecEvent::InsertDuplicate).1
            == RecAction::ReadMapping,
        retrieval_phase(spec_step(RecState::AwaitInsert { handle }, RecEvent::InsertDuplicate).0),
{
}

/// Once in the retrieval phase, a run stays there for any sequence of
/// events: whatever handle it ends with was not created by this run.
pub proof fn lemma_retrieval_phase_run(s: RecState, events: Seq<RecEvent>)
    requires
        retrieval_phase(s),
    ensures
        retrieval_phase(spec_run(s, events)),
        spec_run(s, events) matches RecState::Done { created, .. } ==> !created,
    decreases events.len(),
{
    if events.len() > 0 {
        lemma_retrieval_phase_closed(s, events[0]);
        lemma_retrieval_phase_run(spec_step(s, events[0]).0, events.drop_first());
    }
}

/// Idempotent retrieval: a run whose opening read finds a recorded mapping
/// stays in the retrieval phase whatever events follow — it never asks the
/// processor for a creation, and any handle it finishes with was not created
/// by this run.
pub proof fn lemma_second_call_only_retrieves(id: String, events: Seq<RecEvent>)
    ensures
        retrieval_phase(
            spec_run(
                spec_step(RecState::AwaitMapping, RecEvent::MappingRead { id: Some(id) }).0,
                events,
            ),
        ),
        spec_run(
            spec_step(RecState::AwaitMapping, RecEvent::MappingRead { id: Some(id) }).0,
            events,
        ) matches RecState::Done { created, .. } ==> !created,
{
    lemma_found_mapping_retrieves(id);
    lemma_retrieval_phase_run(
        spec_step(RecState::AwaitMapping, RecEvent::MappingRead { id: Some(id) }).0,
        events,
    );
}

} // verus!
