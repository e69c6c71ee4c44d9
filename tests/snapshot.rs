use cosmwasm_std::{MemoryStorage, Storage};
use ownable_std::snapshot::{IdbStateDump, IdbStorage};

fn dump(pairs: &[(&[u8], &[u8])]) -> IdbStateDump {
    IdbStateDump {
        state_dump: pairs.iter().map(|(k, v)| (k.to_vec(), v.to_vec())).collect(),
    }
}

#[test]
fn empty_dump_exports_empty() {
    let store = IdbStorage::load(dump(&[]));
    assert_eq!(IdbStateDump::from(store.storage).state_dump, Vec::<(Vec<u8>, Vec<u8>)>::new());
}

#[test]
fn duplicate_keys_keep_last_value() {
    let store = IdbStorage::load(dump(&[(b"k", b"v1"), (b"k", b"v2")]));
    assert_eq!(
        IdbStateDump::from(store.storage).state_dump,
        vec![(b"k".to_vec(), b"v2".to_vec())]
    );
}

#[test]
fn export_is_in_ascending_key_order() {
    let store = IdbStorage::load(dump(&[(b"b", b"2"), (b"a", b"1"), (b"ab", b"3")]));
    assert_eq!(
        IdbStateDump::from(store.storage).state_dump,
        vec![
            (b"a".to_vec(), b"1".to_vec()),
            (b"ab".to_vec(), b"3".to_vec()),
            (b"b".to_vec(), b"2".to_vec()),
        ]
    );
}

#[test]
fn load_of_export_keeps_every_entry() {
    let mut original = MemoryStorage::new();
    original.set(b"\x00\xff", b"bin");
    original.set(b"zeta", b"last");
    original.set(b"alpha", b"first");
    let exported = IdbStateDump::from(original);
    let restored = IdbStorage::load(exported.clone());
    assert_eq!(restored.storage.get(b"\x00\xff"), Some(b"bin".to_vec()));
    assert_eq!(restored.storage.get(b"zeta"), Some(b"last".to_vec()));
    assert_eq!(restored.storage.get(b"alpha"), Some(b"first".to_vec()));
    assert_eq!(IdbStateDump::from(restored.storage), exported);
}

#[test]
fn load_into_existing_store_overwrites() {
    let mut store = IdbStorage::load(dump(&[(b"a", b"1"), (b"b", b"2")]));
    store.load_to_mem_storage(dump(&[(b"b", b"3"), (b"c", b"4")]));
    assert_eq!(
        IdbStateDump::from(store.storage).state_dump,
        vec![
            (b"a".to_vec(), b"1".to_vec()),
            (b"b".to_vec(), b"3".to_vec()),
            (b"c".to_vec(), b"4".to_vec()),
        ]
    );
}
