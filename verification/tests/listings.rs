use fardels::commission::StoredFee;
use fardels::errors::FardelError;
use fardels::store::Store;
use fardels::validation::{default_limits, has_whitespace, valid_seal_time, Limits};

const OPERATOR: u64 = 999;
const OWNER: u64 = 1;

fn new_store() -> Store {
    Store::new(
        OPERATOR,
        StoredFee { commission_rate_nom: 3, commission_rate_denom: 1000 },
        default_limits(),
    )
}

fn carry_msg(store: &mut Store, msg: &[u8], cost: u128) -> u128 {
    store
        .try_carry_fardel(
            OWNER,
            msg.to_vec(),
            Vec::new(),
            b"payload".to_vec(),
            cost,
            0,
            false,
            None,
            None,
            7,
            100,
        )
        .unwrap()
}

#[test]
fn creation_assigns_sequential_internal_ids() {
    let mut store = new_store();
    assert_eq!(store.get_total_fardel_count(), 0);
    let h0 = carry_msg(&mut store, b"first", 10);
    let h1 = carry_msg(&mut store, b"second", 20);
    assert_eq!(store.get_total_fardel_count(), 2);
    assert_eq!(store.get_global_id_by_hash(h0).unwrap(), 0);
    assert_eq!(store.get_global_id_by_hash(h1).unwrap(), 1);
    assert_eq!(store.get_fardel_owner(0), OWNER);
    let f = store.get_fardel_by_hash(h0).unwrap();
    assert_eq!(f.public_message, b"first".to_vec());
    assert_eq!(f.cost, 10);
    assert_eq!(f.global_id, 0);
    assert_eq!(f.hash_id, h0);
}

#[test]
fn public_ids_are_opaque_and_deterministic() {
    // the public id is a keyed hash of the creation context: it is not any
    // of the plain inputs, and the same context yields the same id
    let mut store_a = new_store();
    let mut store_b = new_store();
    let ha = carry_msg(&mut store_a, b"same message", 42);
    let hb = carry_msg(&mut store_b, b"same message", 42);
    assert_eq!(ha, hb);
    assert_ne!(ha, 0);
    assert_ne!(ha, 42);

    // a different context gives a different id
    let hc = carry_msg(&mut store_a, b"same message", 42);
    assert_ne!(ha, hc); // the internal counter differs
}

#[test]
fn pagination_is_most_recent_first() {
    let mut store = new_store();
    let h0 = carry_msg(&mut store, b"m0", 1);
    let h1 = carry_msg(&mut store, b"m1", 2);
    let h2 = carry_msg(&mut store, b"m2", 3);

    let page0 = store.get_fardels(OWNER, 0, 2);
    assert_eq!(page0.len(), 2);
    assert_eq!(page0[0].hash_id, h2);
    assert_eq!(page0[1].hash_id, h1);
    let page1 = store.get_fardels(OWNER, 1, 2);
    assert_eq!(page1.len(), 1);
    assert_eq!(page1[0].hash_id, h0);
    assert!(store.get_fardels(OWNER, 2, 2).is_empty());
    assert!(store.get_fardels(42, 0, 2).is_empty());
    assert_eq!(store.get_number_of_fardels(OWNER), 3);
    assert_eq!(store.get_number_of_fardels(42), 0);
}

#[test]
fn batch_read_skips_removed_and_hidden() {
    let mut store = new_store();
    let h0 = carry_msg(&mut store, b"m0", 1);
    let h1 = carry_msg(&mut store, b"m1", 2);
    let h2 = carry_msg(&mut store, b"m2", 3);
    let h3 = carry_msg(&mut store, b"m3", 4);

    store.try_remove_fardel(OPERATOR, h1, true).unwrap();
    store.try_hide_fardel(OWNER, h2).unwrap();

    let batch = store.get_fardels_batch(0, 10);
    assert_eq!(batch.len(), 2);
    assert_eq!(batch[0].hash_id, h0);
    assert_eq!(batch[1].hash_id, h3);

    let tail = store.get_fardels_batch(3, 10);
    assert_eq!(tail.len(), 1);
    assert_eq!(tail[0].hash_id, h3);
    assert!(store.get_fardels_batch(4, 10).is_empty());
}

#[test]
fn creation_bounds_are_enforced() {
    let mut store = Store::new(
        OPERATOR,
        StoredFee { commission_rate_nom: 3, commission_rate_denom: 1000 },
        Limits {
            max_cost: 100,
            max_public_message_len: 5,
            max_tag_len: 3,
            max_number_of_tags: 2,
            max_fardel_img_size: 4,
            max_contents_data_len: 8,
        },
    );
    let ok = store.try_carry_fardel(
        OWNER,
        b"hello".to_vec(),
        vec![b"abc".to_vec(), b"de".to_vec()],
        b"payload!".to_vec(),
        100,
        0,
        false,
        Some(b"img".to_vec()),
        None,
        7,
        100,
    );
    assert!(ok.is_ok());

    let too_long_msg = store.try_carry_fardel(
        OWNER, b"hello!".to_vec(), Vec::new(), b"p".to_vec(), 1, 0, false, None, None, 7, 100,
    );
    assert_eq!(too_long_msg.unwrap_err(), FardelError::InvalidInput);

    let too_many_tags = store.try_carry_fardel(
        OWNER,
        b"hi".to_vec(),
        vec![b"a".to_vec(), b"b".to_vec(), b"c".to_vec()],
        b"p".to_vec(),
        1,
        0,
        false,
        None,
        None,
        7,
        100,
    );
    assert_eq!(too_many_tags.unwrap_err(), FardelError::InvalidInput);

    let tag_too_long = store.try_carry_fardel(
        OWNER, b"hi".to_vec(), vec![b"abcd".to_vec()], b"p".to_vec(), 1, 0, false, None, None, 7,
        100,
    );
    assert_eq!(tag_too_long.unwrap_err(), FardelError::InvalidInput);

    let too_costly = store.try_carry_fardel(
        OWNER, b"hi".to_vec(), Vec::new(), b"p".to_vec(), 101, 0, false, None, None, 7, 100,
    );
    assert_eq!(too_costly.unwrap_err(), FardelError::InvalidInput);

    let payload_too_big = store.try_carry_fardel(
        OWNER, b"hi".to_vec(), Vec::new(), b"payload!!".to_vec(), 1, 0, false, None, None, 7, 100,
    );
    assert_eq!(payload_too_big.unwrap_err(), FardelError::InvalidInput);

    let img_too_big = store.try_carry_fardel(
        OWNER,
        b"hi".to_vec(),
        Vec::new(),
        b"p".to_vec(),
        1,
        0,
        false,
        Some(b"image".to_vec()),
        None,
        7,
        100,
    );
    assert_eq!(img_too_big.unwrap_err(), FardelError::InvalidInput);

    let negative_seal = store.try_carry_fardel(
        OWNER, b"hi".to_vec(), Vec::new(), b"p".to_vec(), 1, 0, false, None, Some(-1), 7, 100,
    );
    assert_eq!(negative_seal.unwrap_err(), FardelError::InvalidInput);
}

#[test]
fn thumbnail_images_are_stored_per_listing() {
    let mut store = new_store();
    let h0 = store
        .try_carry_fardel(
            OWNER,
            b"with img".to_vec(),
            Vec::new(),
            b"p".to_vec(),
            1,
            0,
            false,
            Some(b"png bytes".to_vec()),
            None,
            7,
            100,
        )
        .unwrap();
    let id0 = store.get_global_id_by_hash(h0).unwrap();
    assert_eq!(store.get_fardel_img(id0), b"png bytes".to_vec());
    let h1 = carry_msg(&mut store, b"no img", 1);
    let id1 = store.get_global_id_by_hash(h1).unwrap();
    assert!(store.get_fardel_img(id1).is_empty());
}

#[test]
fn hide_toggles_both_ways() {
    let mut store = new_store();
    let h = carry_msg(&mut store, b"m", 1);
    let id = store.get_global_id_by_hash(h).unwrap();
    assert!(!store.is_fardel_hidden(id));
    store.try_hide_fardel(OWNER, h).unwrap();
    assert!(store.is_fardel_hidden(id));
    store.try_unhide_fardel(OWNER, h).unwrap();
    assert!(!store.is_fardel_hidden(id));
    assert_eq!(
        store.try_hide_fardel(OPERATOR, h).unwrap_err(),
        FardelError::Unauthorized
    );
    assert_eq!(
        store.try_unhide_fardel(OPERATOR, h).unwrap_err(),
        FardelError::Unauthorized
    );
}

#[test]
fn seal_time_conversion() {
    assert_eq!(valid_seal_time(None).unwrap(), 0);
    assert_eq!(valid_seal_time(Some(0)).unwrap(), 0);
    assert_eq!(valid_seal_time(Some(12345)).unwrap(), 12345);
    assert_eq!(valid_seal_time(Some(-7)).unwrap_err(), FardelError::InvalidInput);
}

#[test]
fn whitespace_detection() {
    assert!(!has_whitespace(&String::from("abc")));
    assert!(!has_whitespace(&String::from("")));
    assert!(has_whitespace(&String::from("a c")));
    assert!(has_whitespace(&String::from(" abc")));
    assert!(has_whitespace(&String::from("abc\t")));
    assert!(has_whitespace(&String::from("abc\n")));
    // U+00A0 NO-BREAK SPACE has the Unicode White_Space property
    assert!(has_whitespace(&String::from("a\u{00A0}b")));
    // U+200B ZERO WIDTH SPACE does not
    assert!(!has_whitespace(&String::from("a\u{200B}b")));
}
