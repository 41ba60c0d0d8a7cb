use serp_tokens::account::{same_bytes, AccountId};
use serp_tokens::storage::{AccountKey, StorageMap};

#[test]
fn map_holds_what_was_inserted_last() {
    let mut map: StorageMap<u32, u8> = StorageMap::new();
    assert_eq!(map.get(&1), None);
    map.insert(1, 10);
    map.insert(2, 20);
    map.insert(1, 11);
    assert_eq!(map.get(&1), Some(&11));
    assert_eq!(map.get(&2), Some(&20));
    assert_eq!(map.keys(), vec![1, 2]);
    map.remove(&1);
    map.remove(&3);
    assert!(!map.contains_key(&1));
    assert!(map.contains_key(&2));
    assert_eq!(map.keys(), vec![2]);
}

#[test]
fn duplicates_go_their_own_way() {
    let mut map: StorageMap<u32, u8> = StorageMap::new();
    map.insert(1, 10);
    let copy = map.duplicate();
    map.remove(&1);
    assert_eq!(copy.get(&1), Some(&10));
    assert_eq!(map.get(&1), None);
}

#[test]
fn keys_are_told_apart_by_account_and_currency() {
    let alice = AccountId([1; 32]);
    let mut almost = alice;
    almost.0[31] = 2;
    let mut map: StorageMap<AccountKey, u8> = StorageMap::new();
    map.insert(
        AccountKey {
            who: alice,
            currency_id: 1,
        },
        1,
    );
    map.insert(
        AccountKey {
            who: alice,
            currency_id: 2,
        },
        2,
    );
    map.insert(
        AccountKey {
            who: almost,
            currency_id: 1,
        },
        3,
    );
    assert_eq!(map.keys().len(), 3);
    assert!(alice.same(&alice));
    assert!(!alice.same(&almost));
    assert!(same_bytes(b"same", b"same"));
    assert!(!same_bytes(b"same", b"sane"));
}
