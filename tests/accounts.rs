use hylo_jupiter::{account_map_get, account_spl_get, AccountError, AccountMap, Address};

fn key(b: u8) -> Address {
    Address::new([b; 32])
}

/// Reads a little-endian u64 after an eight-byte tag.
fn tagged(b: &[u8]) -> Result<u64, String> {
    if b.len() != 16 || b[..8] != [1u8; 8] {
        return Err("unexpected layout".to_string());
    }
    let mut v = [0u8; 8];
    v.copy_from_slice(&b[8..]);
    Ok(u64::from_le_bytes(v))
}

fn snapshot() -> AccountMap {
    let mut m = AccountMap::new();
    let mut good = vec![1u8; 8];
    good.extend_from_slice(&42u64.to_le_bytes());
    m.insert(key(1), good);
    m.insert(key(2), vec![9, 9, 9]);
    m
}

#[test]
fn missing_key_is_not_found_for_both_layouts() {
    let m = snapshot();
    match account_map_get(&m, &key(3), tagged) {
        Err(AccountError::NotFound { key: k }) => assert_eq!(k.bytes, [3u8; 32]),
        other => panic!("unexpected {:?}", other),
    }
    match account_spl_get(&m, &key(3), tagged) {
        Err(AccountError::NotFound { key: k }) => assert_eq!(k.bytes, [3u8; 32]),
        other => panic!("unexpected {:?}", other),
    }
}

#[test]
fn bad_bytes_are_a_decode_error() {
    let m = snapshot();
    match account_map_get(&m, &key(2), tagged) {
        Err(AccountError::Decode { key: k, cause }) => {
            assert_eq!(k.bytes, [2u8; 32]);
            assert_eq!(cause, "unexpected layout");
        }
        other => panic!("unexpected {:?}", other),
    }
    assert!(matches!(account_spl_get(&m, &key(2), tagged), Err(AccountError::Decode { .. })));
}

#[test]
fn present_account_decodes() {
    let m = snapshot();
    assert_eq!(account_map_get(&m, &key(1), tagged).unwrap(), 42);
    assert_eq!(account_spl_get(&m, &key(1), tagged).unwrap(), 42);
}

#[test]
fn insert_replaces_stored_bytes() {
    let mut m = snapshot();
    m.insert(key(2), vec![7]);
    assert_eq!(m.get(&key(2)).unwrap(), &vec![7u8]);
    assert!(m.get(&key(4)).is_none());
    assert!(AccountMap::new().get(&key(1)).is_none());
}

#[test]
fn addresses_compare_by_bytes() {
    let mut b = [5u8; 32];
    assert!(Address::new(b).same(&key(5)));
    b[31] = 6;
    assert!(!Address::new(b).same(&key(5)));
}

#[test]
fn not_found_message_names_the_address_in_base58() {
    let m = AccountMap::new();
    let e = account_map_get(&m, &key(0), tagged).unwrap_err();
    assert_eq!(e.message(), "Account not found 11111111111111111111111111111111");
    let e = account_spl_get(&m, &key(9), tagged).unwrap_err();
    let text = anchor_lang::prelude::Pubkey::new_from_array([9u8; 32]).to_string();
    assert_eq!(e.message(), format!("Account not found {}", text));
}

#[test]
fn decode_message_names_address_and_cause() {
    let mut m = AccountMap::new();
    m.insert(key(0), vec![1, 2]);
    let e = account_map_get(&m, &key(0), tagged).unwrap_err();
    assert_eq!(
        e.message(),
        "Account 11111111111111111111111111111111 could not be decoded: unexpected layout"
    );
}
