use fardels::commission::StoredFee;
use fardels::store::Store;
use fardels::unpack::UnpackedFardel;
use fardels::validation::default_limits;

const OPERATOR: u64 = 999;
const OWNER: u64 = 1;
const ALICE: u64 = 2;

fn new_store() -> Store {
    Store::new(
        OPERATOR,
        StoredFee { commission_rate_nom: 3, commission_rate_denom: 1000 },
        default_limits(),
    )
}

fn carry(store: &mut Store, msg: &[u8]) -> u128 {
    store
        .try_carry_fardel(
            OWNER,
            msg.to_vec(),
            Vec::new(),
            b"payload".to_vec(),
            10,
            0,
            false,
            None,
            None,
            7,
            100,
        )
        .unwrap()
}

#[test]
fn unlock_history_pages_most_recent_first() {
    let mut store = new_store();
    let h0 = carry(&mut store, b"m0");
    let h1 = carry(&mut store, b"m1");
    let h2 = carry(&mut store, b"m2");
    let id0 = store.get_global_id_by_hash(h0).unwrap();
    let id1 = store.get_global_id_by_hash(h1).unwrap();
    let id2 = store.get_global_id_by_hash(h2).unwrap();

    store.try_unpack_fardel(ALICE, h0, 10, 200, false).unwrap();
    store.try_unpack_fardel(ALICE, h1, 10, 201, false).unwrap();
    store.try_unpack_fardel(ALICE, h2, 10, 202, false).unwrap();

    assert_eq!(store.get_number_of_unpacked_by_unpacker(ALICE), 3);
    let page0 = store.get_unpacked_by_unpacker(ALICE, 0, 2);
    assert_eq!(
        page0,
        vec![
            UnpackedFardel { fardel_id: id2 },
            UnpackedFardel { fardel_id: id1 },
        ]
    );
    let page1 = store.get_unpacked_by_unpacker(ALICE, 1, 2);
    assert_eq!(page1, vec![UnpackedFardel { fardel_id: id0 }]);
    assert!(store.get_unpacked_by_unpacker(42, 0, 10).is_empty());

    // the owner's history holds the three auto-unlocks from creation
    assert_eq!(store.get_number_of_unpacked_by_unpacker(OWNER), 3);
}

#[test]
fn pending_queue_reads_from_cursor() {
    let mut store = new_store();
    let h = store
        .try_carry_fardel(
            OWNER,
            b"gated".to_vec(),
            Vec::new(),
            b"payload".to_vec(),
            10,
            0,
            true,
            None,
            None,
            7,
            100,
        )
        .unwrap();
    let id = store.get_global_id_by_hash(h).unwrap();

    store.try_unpack_fardel(ALICE, h, 10, 205, false).unwrap();
    let pending = store.get_pending_approvals_from_start(OWNER, 10);
    assert_eq!(pending.len(), 1);
    assert_eq!(pending[0].fardel_id, id);
    assert_eq!(pending[0].unpacker, ALICE);
    assert_eq!(pending[0].amount, 10);
    assert_eq!(pending[0].timestamp, 205);
    assert!(!pending[0].canceled);

    let entry = store.get_pending_unpack_approval(OWNER, 0).unwrap();
    assert_eq!(entry, pending[0]);
    assert!(store.get_pending_unpack_approval(OWNER, 1).is_none());

    store.try_approve_pending_unpacks(OWNER, 10).unwrap();
    // the cursor passed the entry: nothing is pending any more
    assert!(store.get_pending_approvals_from_start(OWNER, 10).is_empty());
    assert_eq!(store.get_pending_start(OWNER), 1);
}
