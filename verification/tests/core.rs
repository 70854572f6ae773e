use hotel_orders::pricing::{compute_price, total_price, PricedItem, PricedStay};
use hotel_orders::reconcile::{
    ensure_payment_handle, intent_id_ok, reconcile_begin, reconcile_step, HandleOutcome,
    PaymentHandle, RecAction, RecEvent, RecState,
};
use hotel_orders::store::{CoreError, OrderAddress, RoomOrder, Store};

fn item(start: &str, end: &str, rate: i64) -> PricedItem {
    PricedItem {
        start_date: String::from(start),
        end_date: String::from(end),
        price_in_cents: rate,
    }
}

fn address(email: &str) -> OrderAddress {
    OrderAddress {
        email: String::from(email),
        billing_street: String::from("Main St"),
        billing_street_add: None,
        billing_city: String::from("X"),
        billing_postcode: String::from("00-000"),
        billing_country: String::from("PL"),
    }
}

fn seeded_store(rate: i64) -> Store {
    let mut store = Store::new();
    let id = store
        .insert_room(String::from("Room"), 2, false, rate, 1)
        .unwrap();
    assert_eq!(id, 1);
    store
}

#[test]
fn price_three_nights() {
    let items = vec![item("2024-01-01", "2024-01-04", 10000)];
    assert_eq!(compute_price(&items), Some(30000));
}

#[test]
fn price_zero_night_floor() {
    // end before start, end equal to start: zero, never negative
    let items = vec![
        item("2024-01-04", "2024-01-01", 10000),
        item("2024-01-01", "2024-01-01", 10000),
    ];
    assert_eq!(compute_price(&items), Some(0));
}

#[test]
fn price_malformed_date_contributes_zero() {
    // one bad item must not fail the whole computation
    let items = vec![
        item("not-a-date", "2024-01-04", 10000),
        item("2024-01-01", "2024-01-03", 5000),
    ];
    assert_eq!(compute_price(&items), Some(10000));
}

#[test]
fn price_multi_item_additivity() {
    let a = vec![item("2024-01-01", "2024-01-04", 10000)];
    let b = vec![item("2024-02-01", "2024-02-03", 7000)];
    let both = vec![
        item("2024-01-01", "2024-01-04", 10000),
        item("2024-02-01", "2024-02-03", 7000),
    ];
    let pa = compute_price(&a).unwrap();
    let pb = compute_price(&b).unwrap();
    assert_eq!(compute_price(&both), Some(pa + pb));
    assert_eq!(pa + pb, 44000);
}

#[test]
fn price_deterministic() {
    let items = vec![
        item("2024-01-01", "2024-01-04", 10000),
        item("2024-02-01", "2024-02-03", 7000),
    ];
    assert_eq!(compute_price(&items), compute_price(&items));
}

#[test]
fn price_empty_order() {
    let items: Vec<PricedItem> = Vec::new();
    assert_eq!(compute_price(&items), Some(0));
}

#[test]
fn price_overflow_is_reported() {
    let stays = vec![PricedStay {
        start_day: Some(0),
        end_day: Some(3),
        price_in_cents: i64::MAX,
    }];
    assert_eq!(total_price(&stays), None);
}

#[test]
fn persist_order_writes_all_rows() {
    let mut store = seeded_store(5000);
    let rooms_order = vec![RoomOrder {
        room_id: 1,
        start_date: String::from("2024-03-01"),
        end_date: String::from("2024-03-03"),
    }];
    let order_id = store.persist_order(&rooms_order, &address("a@b.com")).unwrap();
    assert_eq!(order_id, 1);
    assert_eq!(store.customers.len(), 1);
    assert_eq!(store.customers[0].email, "a@b.com");
    assert_eq!(store.customers[0].billing_street_add, "");
    assert_eq!(store.orders.len(), 1);
    assert_eq!(store.orders[0].customer_id, 1);
    assert_eq!(store.order_items.len(), 1);
    assert_eq!(store.order_items[0].order_id, 1);
    assert_eq!(store.order_items[0].room_id, 1);
    assert_eq!(store.order_items[0].start_date, "2024-03-01");
    assert_eq!(store.order_items[0].end_date, "2024-03-03");
    assert_eq!(store.order_payments.len(), 0);
}

#[test]
fn persist_order_atomic_on_bad_room() {
    // three line items, the third referencing a room that does not exist:
    // nothing of the attempt may remain visible
    let mut store = seeded_store(5000);
    let rooms_order = vec![
        RoomOrder {
            room_id: 1,
            start_date: String::from("2024-03-01"),
            end_date: String::from("2024-03-02"),
        },
        RoomOrder {
            room_id: 1,
            start_date: String::from("2024-03-02"),
            end_date: String::from("2024-03-03"),
        },
        RoomOrder {
            room_id: 99,
            start_date: String::from("2024-03-03"),
            end_date: String::from("2024-03-04"),
        },
    ];
    let r = store.persist_order(&rooms_order, &address("a@b.com"));
    assert_eq!(r, Err(CoreError::Persistence));
    assert_eq!(store.customers.len(), 0);
    assert_eq!(store.orders.len(), 0);
    assert_eq!(store.order_items.len(), 0);
}

#[test]
fn fetch_joins_line_items_to_room_price() {
    let mut store = seeded_store(5000);
    store.insert_room(String::from("Suite"), 3, true, 9000, 1).unwrap();
    let rooms_order = vec![
        RoomOrder {
            room_id: 1,
            start_date: String::from("2024-03-01"),
            end_date: String::from("2024-03-02"),
        },
        RoomOrder {
            room_id: 2,
            start_date: String::from("2024-04-01"),
            end_date: String::from("2024-04-03"),
        },
    ];
    let order_id = store.persist_order(&rooms_order, &address("a@b.com")).unwrap();
    let items = store.fetch_line_items_with_price(order_id);
    assert_eq!(items.len(), 2);
    assert_eq!(items[0].price_in_cents, 5000);
    assert_eq!(items[1].price_in_cents, 9000);
    assert_eq!(items[0].start_date, "2024-03-01");
    assert_eq!(compute_price(&items), Some(5000 + 18000));
}

#[test]
fn fetch_customer_email_by_order() {
    let mut store = seeded_store(5000);
    let rooms_order = vec![RoomOrder {
        room_id: 1,
        start_date: String::from("2024-03-01"),
        end_date: String::from("2024-03-02"),
    }];
    let order_id = store.persist_order(&rooms_order, &address("a@b.com")).unwrap();
    assert_eq!(store.fetch_customer_email(order_id), Some(String::from("a@b.com")));
    assert_eq!(store.fetch_customer_email(42), None);
}

#[test]
fn payment_handle_insert_rejects_duplicate() {
    let mut store = seeded_store(5000);
    let rooms_order = vec![RoomOrder {
        room_id: 1,
        start_date: String::from("2024-03-01"),
        end_date: String::from("2024-03-02"),
    }];
    let order_id = store.persist_order(&rooms_order, &address("a@b.com")).unwrap();
    assert_eq!(store.find_payment_handle(order_id), None);
    store
        .insert_payment_handle(order_id, String::from("pi_first"))
        .unwrap();
    let r = store.insert_payment_handle(order_id, String::from("pi_second"));
    assert_eq!(r, Err(CoreError::DuplicateHandle));
    assert_eq!(store.order_payments.len(), 1);
    assert_eq!(store.order_payments[0].payment_intent_id, "pi_first");
    assert_eq!(store.find_payment_handle(order_id), Some(String::from("pi_first")));
}

#[test]
fn payment_handle_insert_requires_order() {
    let mut store = seeded_store(5000);
    let r = store.insert_payment_handle(7, String::from("pi_x"));
    assert_eq!(r, Err(CoreError::Persistence));
    assert_eq!(store.order_payments.len(), 0);
}

#[test]
fn intent_id_prefix() {
    assert!(intent_id_ok("pi_123"));
    assert!(!intent_id_ok("x_123"));
    assert!(!intent_id_ok("pi"));
}

fn fresh_handle(id: &str) -> PaymentHandle {
    PaymentHandle {
        id: String::from(id),
        client_secret: String::from("secret_of_the_handle"),
    }
}

#[test]
fn reconcile_end_to_end() {
    // submit an order for two nights at 5000 a night, then reconcile twice:
    // the first call creates a handle for 10000, the second only retrieves it
    let mut store = seeded_store(5000);
    let rooms_order = vec![RoomOrder {
        room_id: 1,
        start_date: String::from("2024-03-01"),
        end_date: String::from("2024-03-03"),
    }];
    let order_id = store.persist_order(&rooms_order, &address("a@b.com")).unwrap();
    assert_eq!(store.order_items.len(), 1);

    let first = ensure_payment_handle(&mut store, order_id, &fresh_handle("pi_1")).unwrap();
    match first {
        HandleOutcome::Created {
            handle,
            amount,
            receipt_email,
        } => {
            assert_eq!(handle.id, "pi_1");
            assert_eq!(amount, 10000);
            assert_eq!(receipt_email, "a@b.com");
        }
        other => panic!("expected a created handle, got {:?}", other),
    }
    assert_eq!(store.order_payments.len(), 1);
    assert_eq!(store.order_payments[0].payment_intent_id, "pi_1");

    // a retried call must not create a second handle or a second row
    let second = ensure_payment_handle(&mut store, order_id, &fresh_handle("pi_2")).unwrap();
    match second {
        HandleOutcome::Existing { id } => assert_eq!(id, "pi_1"),
        other => panic!("expected the recorded handle, got {:?}", other),
    }
    assert_eq!(store.order_payments.len(), 1);
    assert_eq!(store.order_payments[0].payment_intent_id, "pi_1");
}

#[test]
fn reconcile_unknown_order_not_found() {
    let mut store = seeded_store(5000);
    let r = ensure_payment_handle(&mut store, 9, &fresh_handle("pi_1"));
    assert_eq!(r.unwrap_err(), CoreError::NotFound);
    assert_eq!(store.order_payments.len(), 0);
}

#[test]
fn reconcile_malformed_stored_handle_fails() {
    let mut store = seeded_store(5000);
    let rooms_order = vec![RoomOrder {
        room_id: 1,
        start_date: String::from("2024-03-01"),
        end_date: String::from("2024-03-02"),
    }];
    let order_id = store.persist_order(&rooms_order, &address("a@b.com")).unwrap();
    store
        .insert_payment_handle(order_id, String::from("bogus"))
        .unwrap();
    let r = ensure_payment_handle(&mut store, order_id, &fresh_handle("pi_1"));
    assert_eq!(r.unwrap_err(), CoreError::MalformedHandle);
    assert_eq!(store.order_payments.len(), 1);
}

#[test]
fn reconcile_overflowing_total_rejected() {
    let mut store = seeded_store(i64::MAX);
    let rooms_order = vec![RoomOrder {
        room_id: 1,
        start_date: String::from("2024-03-01"),
        end_date: String::from("2024-03-04"),
    }];
    let order_id = store.persist_order(&rooms_order, &address("a@b.com")).unwrap();
    let r = ensure_payment_handle(&mut store, order_id, &fresh_handle("pi_1"));
    assert_eq!(r.unwrap_err(), CoreError::Validation);
    assert_eq!(store.order_payments.len(), 0);
}

#[test]
fn step_machine_creates_when_no_mapping() {
    let (state, action) = reconcile_begin();
    assert!(matches!(action, RecAction::ReadMapping));

    let (state, action) = reconcile_step(state, RecEvent::MappingRead { id: None });
    assert!(matches!(action, RecAction::FetchItems));

    let items = vec![item("2024-03-01", "2024-03-03", 5000)];
    let (state, action) = reconcile_step(state, RecEvent::ItemsFetched { items });
    assert!(matches!(action, RecAction::FetchEmail));

    let (state, action) = reconcile_step(
        state,
        RecEvent::EmailFetched {
            email: String::from("a@b.com"),
        },
    );
    match &action {
        RecAction::CreateHandle { amount, email } => {
            assert_eq!(*amount, 10000);
            assert_eq!(email, "a@b.com");
        }
        other => panic!("expected a creation request, got {:?}", other),
    }

    let (state, action) = reconcile_step(
        state,
        RecEvent::HandleCreated {
            handle: fresh_handle("pi_1"),
        },
    );
    match &action {
        RecAction::InsertMapping { intent_id } => assert_eq!(intent_id, "pi_1"),
        other => panic!("expected an insert request, got {:?}", other),
    }

    let (state, action) = reconcile_step(state, RecEvent::InsertOk);
    assert!(matches!(action, RecAction::Stop));
    match state {
        RecState::Done { handle, created } => {
            assert!(created);
            assert_eq!(handle.id, "pi_1");
        }
        other => panic!("expected a finished run, got {:?}", other),
    }
}

#[test]
fn step_machine_found_mapping_only_retrieves() {
    let (state, _) = reconcile_begin();
    let (state, action) = reconcile_step(
        state,
        RecEvent::MappingRead {
            id: Some(String::from("pi_7")),
        },
    );
    match &action {
        RecAction::RetrieveHandle { id } => assert_eq!(id, "pi_7"),
        other => panic!("expected a retrieval, got {:?}", other),
    }
    let (state, action) = reconcile_step(
        state,
        RecEvent::HandleRetrieved {
            handle: fresh_handle("pi_7"),
        },
    );
    assert!(matches!(action, RecAction::Stop));
    match state {
        RecState::Done { handle, created } => {
            assert!(!created);
            assert_eq!(handle.id, "pi_7");
        }
        other => panic!("expected a finished run, got {:?}", other),
    }
}

#[test]
fn step_machine_duplicate_loser_returns_winner() {
    // the run loses the insert race: it must re-read and return the winning
    // mapping's handle, never the one it created
    let (state, _) = reconcile_begin();
    let (state, _) = reconcile_step(state, RecEvent::MappingRead { id: None });
    let items = vec![item("2024-03-01", "2024-03-03", 5000)];
    let (state, _) = reconcile_step(state, RecEvent::ItemsFetched { items });
    let (state, _) = reconcile_step(
        state,
        RecEvent::EmailFetched {
            email: String::from("a@b.com"),
        },
    );
    let (state, _) = reconcile_step(
        state,
        RecEvent::HandleCreated {
            handle: fresh_handle("pi_loser"),
        },
    );
    let (state, action) = reconcile_step(state, RecEvent::InsertDuplicate);
    assert!(matches!(action, RecAction::ReadMapping));
    let (state, action) = reconcile_step(
        state,
        RecEvent::MappingRead {
            id: Some(String::from("pi_winner")),
        },
    );
    match &action {
        RecAction::RetrieveHandle { id } => assert_eq!(id, "pi_winner"),
        other => panic!("expected a retrieval, got {:?}", other),
    }
    let (state, _) = reconcile_step(
        state,
        RecEvent::HandleRetrieved {
            handle: fresh_handle("pi_winner"),
        },
    );
    match state {
        RecState::Done { handle, created } => {
            assert!(!created);
            assert_eq!(handle.id, "pi_winner");
        }
        other => panic!("expected a finished run, got {:?}", other),
    }
}

#[test]
fn step_machine_malformed_mapping_fails() {
    let (state, _) = reconcile_begin();
    let (state, action) = reconcile_step(
        state,
        RecEvent::MappingRead {
            id: Some(String::from("bogus")),
        },
    );
    assert!(matches!(action, RecAction::Stop));
    assert!(matches!(
        state,
        RecState::Failed {
            err: CoreError::MalformedHandle
        }
    ));
}

#[test]
fn step_machine_gateway_failure_aborts() {
    let (state, _) = reconcile_begin();
    let (state, _) = reconcile_step(state, RecEvent::MappingRead { id: None });
    let items = vec![item("2024-03-01", "2024-03-03", 5000)];
    let (state, _) = reconcile_step(state, RecEvent::ItemsFetched { items });
    let (state, _) = reconcile_step(
        state,
        RecEvent::EmailFetched {
            email: String::from("a@b.com"),
        },
    );
    let (state, action) = reconcile_step(state, RecEvent::GatewayFailed);
    assert!(matches!(action, RecAction::Stop));
    assert!(matches!(
        state,
        RecState::Failed {
            err: CoreError::Gateway
        }
    ));
}

#[test]
fn step_machine_empty_order_not_found() {
    let (state, _) = reconcile_begin();
    let (state, _) = reconcile_step(state, RecEvent::MappingRead { id: None });
    let (state, action) = reconcile_step(state, RecEvent::ItemsFetched { items: Vec::new() });
    assert!(matches!(action, RecAction::Stop));
    assert!(matches!(
        state,
        RecState::Failed {
            err: CoreError::NotFound
        }
    ));
}
