use fardels::commission::StoredFee;
use fardels::engine::{Payment, UnpackOutcome};
use fardels::errors::FardelError;
use fardels::store::Store;
use fardels::validation::default_limits;

const OPERATOR: u64 = 999;
const OWNER: u64 = 1;
const ALICE: u64 = 2;
const BOB: u64 = 3;

fn new_store() -> Store {
    Store::new(
        OPERATOR,
        StoredFee { commission_rate_nom: 3, commission_rate_denom: 1000 },
        default_limits(),
    )
}

fn carry(
    store: &mut Store,
    cost: u128,
    countable: u16,
    approval_req: bool,
    seal_time: Option<i32>,
) -> u128 {
    store
        .try_carry_fardel(
            OWNER,
            b"hello".to_vec(),
            vec![b"tag".to_vec()],
            b"secret payload".to_vec(),
            cost,
            countable,
            approval_req,
            None,
            seal_time,
            7,
            100,
        )
        .unwrap()
}

#[test]
fn direct_unpack_then_sold_out_seals() {
    // listing with price 100, one unit, no approval: the first purchase
    // settles directly, the second is sold out and seals the listing
    let mut store = new_store();
    let hash_id = carry(&mut store, 100, 1, false, None);
    let global_id = store.get_global_id_by_hash(hash_id).unwrap();

    let outcome = store.try_unpack_fardel(ALICE, hash_id, 100, 200, false).unwrap();
    match outcome {
        UnpackOutcome::Unpacked { contents_data, payments } => {
            assert_eq!(contents_data, b"secret payload".to_vec());
            // commission of floor(100 * 3 / 1000) is zero: one instruction
            assert_eq!(payments, vec![Payment { to: OWNER, amount: 100 }]);
        }
        UnpackOutcome::Pending => panic!("expected a direct settlement"),
    }
    assert_eq!(store.get_fardel_unpack_count(global_id), 1);
    assert!(!store.get_sealed_status(global_id));

    let second = store.try_unpack_fardel(BOB, hash_id, 100, 201, false);
    assert_eq!(second.unwrap_err(), FardelError::SoldOut);
    assert!(store.get_sealed_status(global_id));
}

#[test]
fn pending_approval_settles_with_commission() {
    // unlimited inventory, approval required, price 1000: the request is
    // queued, and approval emits payment and commission summing to 1000
    let mut store = new_store();
    let hash_id = carry(&mut store, 1000, 0, true, None);
    let global_id = store.get_global_id_by_hash(hash_id).unwrap();

    let outcome = store.try_unpack_fardel(ALICE, hash_id, 1000, 200, false).unwrap();
    assert!(matches!(outcome, UnpackOutcome::Pending));
    assert!(!store.get_unpacked_status_by_fardel_id(ALICE, global_id).unpacked);
    assert!(store.get_pending_unpacked_status_by_fardel_id(ALICE, global_id).value);
    assert_eq!(store.get_fardel_unpack_count(global_id), 1);

    let payments = store.try_approve_pending_unpacks(OWNER, 10).unwrap();
    assert_eq!(
        payments,
        vec![
            Payment { to: OWNER, amount: 997 },
            Payment { to: OPERATOR, amount: 3 },
        ]
    );
    assert_eq!(payments.iter().map(|p| p.amount).sum::<u128>(), 1000);
    assert!(store.get_unpacked_status_by_fardel_id(ALICE, global_id).unpacked);
    assert!(!store.get_pending_unpacked_status_by_fardel_id(ALICE, global_id).value);
    assert_eq!(store.get_pending_start(OWNER), 1);
}

#[test]
fn cancel_pending_refunds_and_releases_unit() {
    // canceling before approval refunds the held amount and releases the
    // reserved unit
    let mut store = new_store();
    let hash_id = carry(&mut store, 1000, 0, true, None);
    let global_id = store.get_global_id_by_hash(hash_id).unwrap();

    store.try_unpack_fardel(ALICE, hash_id, 1000, 200, false).unwrap();
    assert_eq!(store.get_fardel_unpack_count(global_id), 1);

    let refund = store.try_cancel_pending(ALICE, hash_id).unwrap();
    assert_eq!(refund, Payment { to: ALICE, amount: 1000 });
    assert_eq!(store.get_fardel_unpack_count(global_id), 0);
    assert!(!store.get_pending_unpacked_status_by_fardel_id(ALICE, global_id).value);

    // the canceled entry is skipped by approval with no payment
    let payments = store.try_approve_pending_unpacks(OWNER, 10).unwrap();
    assert!(payments.is_empty());
    assert_eq!(store.get_pending_start(OWNER), 1);
    assert!(!store.get_unpacked_status_by_fardel_id(ALICE, global_id).unpacked);
}

#[test]
fn cancel_then_fresh_request_reserves_again() {
    // a canceled slot reopens: the same purchaser can request anew and the
    // counter climbs back
    let mut store = new_store();
    let hash_id = carry(&mut store, 50, 1, true, None);
    let global_id = store.get_global_id_by_hash(hash_id).unwrap();

    store.try_unpack_fardel(ALICE, hash_id, 50, 200, false).unwrap();
    store.try_cancel_pending(ALICE, hash_id).unwrap();
    assert_eq!(store.get_fardel_unpack_count(global_id), 0);

    let again = store.try_unpack_fardel(ALICE, hash_id, 50, 201, false).unwrap();
    assert!(matches!(again, UnpackOutcome::Pending));
    assert_eq!(store.get_fardel_unpack_count(global_id), 1);
}

#[test]
fn unpack_error_order_and_variants() {
    let mut store = new_store();
    let hash_id = carry(&mut store, 100, 0, false, None);

    // unknown public id
    assert_eq!(
        store.try_unpack_fardel(ALICE, hash_id ^ 1, 100, 200, false).unwrap_err(),
        FardelError::NotFound
    );
    // wrong amount is rejected before anything else about the purchaser
    assert_eq!(
        store.try_unpack_fardel(ALICE, hash_id, 99, 200, true).unwrap_err(),
        FardelError::PaymentMismatch
    );
    // blocked purchaser
    assert_eq!(
        store.try_unpack_fardel(ALICE, hash_id, 100, 200, true).unwrap_err(),
        FardelError::Unauthorized
    );
    // settled once, a second request is refused
    store.try_unpack_fardel(ALICE, hash_id, 100, 200, false).unwrap();
    assert_eq!(
        store.try_unpack_fardel(ALICE, hash_id, 100, 201, false).unwrap_err(),
        FardelError::AlreadyUnpacked
    );
}

#[test]
fn pending_twice_is_refused() {
    let mut store = new_store();
    let hash_id = carry(&mut store, 100, 0, true, None);
    store.try_unpack_fardel(ALICE, hash_id, 100, 200, false).unwrap();
    assert_eq!(
        store.try_unpack_fardel(ALICE, hash_id, 100, 201, false).unwrap_err(),
        FardelError::AlreadyPending
    );
}

#[test]
fn sealed_listing_rejects_unpack() {
    let mut store = new_store();
    let hash_id = carry(&mut store, 100, 0, false, None);
    let global_id = store.get_global_id_by_hash(hash_id).unwrap();

    assert_eq!(
        store.try_seal_fardel(ALICE, hash_id).unwrap_err(),
        FardelError::Unauthorized
    );
    store.try_seal_fardel(OWNER, hash_id).unwrap();
    assert!(store.get_sealed_status(global_id));
    assert_eq!(
        store.try_unpack_fardel(ALICE, hash_id, 100, 200, false).unwrap_err(),
        FardelError::Sealed
    );
}

#[test]
fn deadline_seals_lazily() {
    // seal_time 150, first access at 200 latches the seal
    let mut store = new_store();
    let hash_id = carry(&mut store, 100, 0, false, Some(150));
    let global_id = store.get_global_id_by_hash(hash_id).unwrap();

    assert!(!store.get_sealed_status(global_id));
    assert_eq!(
        store.try_unpack_fardel(ALICE, hash_id, 100, 200, false).unwrap_err(),
        FardelError::Sealed
    );
    assert!(store.get_sealed_status(global_id));
}

#[test]
fn seal_is_monotonic_across_operations() {
    // once sealed, no later operation reads the listing unsealed again
    let mut store = new_store();
    let hash_id = carry(&mut store, 100, 0, false, None);
    let global_id = store.get_global_id_by_hash(hash_id).unwrap();

    store.try_seal_fardel(OWNER, hash_id).unwrap();
    store.try_hide_fardel(OWNER, hash_id).unwrap();
    store.try_unhide_fardel(OWNER, hash_id).unwrap();
    store.try_remove_fardel(OPERATOR, hash_id, true).unwrap();
    store.try_remove_fardel(OPERATOR, hash_id, false).unwrap();
    let _ = store.try_unpack_fardel(ALICE, hash_id, 100, 300, false);
    let _ = store.try_cancel_pending(ALICE, hash_id);
    let _ = store.try_approve_pending_unpacks(OWNER, 5);
    assert!(store.get_sealed_status(global_id));
}

#[test]
fn approve_skips_canceled_and_settles_live() {
    // two pending requests, the first canceled: approval settles only the
    // second and the cursor passes both
    let mut store = new_store();
    let hash_id = carry(&mut store, 1000, 0, true, None);
    let global_id = store.get_global_id_by_hash(hash_id).unwrap();

    store.try_unpack_fardel(ALICE, hash_id, 1000, 200, false).unwrap();
    store.try_unpack_fardel(BOB, hash_id, 1000, 201, false).unwrap();
    store.try_cancel_pending(ALICE, hash_id).unwrap();

    let payments = store.try_approve_pending_unpacks(OWNER, 10).unwrap();
    assert_eq!(
        payments,
        vec![
            Payment { to: OWNER, amount: 997 },
            Payment { to: OPERATOR, amount: 3 },
        ]
    );
    assert_eq!(store.get_pending_start(OWNER), 2);
    assert!(!store.get_unpacked_status_by_fardel_id(ALICE, global_id).unpacked);
    assert!(store.get_unpacked_status_by_fardel_id(BOB, global_id).unpacked);
}

#[test]
fn approve_zero_is_invalid_and_batch_is_bounded() {
    let mut store = new_store();
    let hash_id = carry(&mut store, 1000, 0, true, None);
    assert_eq!(
        store.try_approve_pending_unpacks(OWNER, 0).unwrap_err(),
        FardelError::InvalidInput
    );

    store.try_unpack_fardel(ALICE, hash_id, 1000, 200, false).unwrap();
    store.try_unpack_fardel(BOB, hash_id, 1000, 201, false).unwrap();
    // a batch of one settles only the first entry
    let payments = store.try_approve_pending_unpacks(OWNER, 1).unwrap();
    assert_eq!(payments.len(), 2);
    assert_eq!(store.get_pending_start(OWNER), 1);
    let payments = store.try_approve_pending_unpacks(OWNER, 1).unwrap();
    assert_eq!(payments.len(), 2);
    assert_eq!(store.get_pending_start(OWNER), 2);
}

#[test]
fn approve_combines_commission_over_the_batch() {
    // two live entries settle in queue order: one owner payment each, and
    // one combined commission instruction at the end
    let mut store = new_store();
    let hash_id = carry(&mut store, 1000, 0, true, None);

    store.try_unpack_fardel(ALICE, hash_id, 1000, 200, false).unwrap();
    store.try_unpack_fardel(BOB, hash_id, 1000, 201, false).unwrap();
    let payments = store.try_approve_pending_unpacks(OWNER, 10).unwrap();
    assert_eq!(
        payments,
        vec![
            Payment { to: OWNER, amount: 997 },
            Payment { to: OWNER, amount: 997 },
            Payment { to: OPERATOR, amount: 6 },
        ]
    );
    assert_eq!(payments.iter().map(|p| p.amount).sum::<u128>(), 2000);
}

#[test]
fn cancel_without_pending_is_not_found() {
    let mut store = new_store();
    let hash_id = carry(&mut store, 100, 0, false, None);
    assert_eq!(
        store.try_cancel_pending(ALICE, hash_id).unwrap_err(),
        FardelError::NotFound
    );
    assert_eq!(
        store.try_cancel_pending(ALICE, hash_id ^ 1).unwrap_err(),
        FardelError::NotFound
    );
}

#[test]
fn cancel_after_approval_is_not_found() {
    // a settled entry is terminal: it can no longer be canceled for a
    // refund
    let mut store = new_store();
    let hash_id = carry(&mut store, 1000, 0, true, None);
    store.try_unpack_fardel(ALICE, hash_id, 1000, 200, false).unwrap();
    store.try_approve_pending_unpacks(OWNER, 10).unwrap();
    assert_eq!(
        store.try_cancel_pending(ALICE, hash_id).unwrap_err(),
        FardelError::NotFound
    );
}

#[test]
fn remove_requires_operator() {
    let mut store = new_store();
    let hash_id = carry(&mut store, 100, 0, false, None);
    let global_id = store.get_global_id_by_hash(hash_id).unwrap();
    assert_eq!(
        store.try_remove_fardel(OWNER, hash_id, true).unwrap_err(),
        FardelError::Unauthorized
    );
    store.try_remove_fardel(OPERATOR, hash_id, true).unwrap();
    assert!(store.is_fardel_removed(global_id));
    store.try_remove_fardel(OPERATOR, hash_id, false).unwrap();
    assert!(!store.is_fardel_removed(global_id));
}

#[test]
fn payload_is_gated_behind_unlock() {
    let mut store = new_store();
    let hash_id = carry(&mut store, 100, 0, false, None);
    let global_id = store.get_global_id_by_hash(hash_id).unwrap();

    assert!(store.get_contents_data(ALICE, global_id).is_none());
    // the owner reads their own payload from creation on
    assert_eq!(
        store.get_contents_data(OWNER, global_id).unwrap(),
        b"secret payload".to_vec()
    );
    store.try_unpack_fardel(ALICE, hash_id, 100, 200, false).unwrap();
    assert_eq!(
        store.get_contents_data(ALICE, global_id).unwrap(),
        b"secret payload".to_vec()
    );
}

#[test]
fn owner_cannot_purchase_own_listing() {
    let mut store = new_store();
    let hash_id = carry(&mut store, 100, 0, false, None);
    assert_eq!(
        store.try_unpack_fardel(OWNER, hash_id, 100, 200, false).unwrap_err(),
        FardelError::AlreadyUnpacked
    );
}
