use collection_purchases::addr::Address;
use collection_purchases::errors::ErrorCode;
use collection_purchases::issuance::IssuanceState;
use collection_purchases::ops;
use collection_purchases::record::Funder;
use collection_purchases::record::funding_requirement;
use collection_purchases::store::RecordStore;

fn addr(fill: u8) -> Address {
    Address::from_bytes(vec![fill; 32]).unwrap()
}

fn tag() -> Vec<u8> {
    b"purchases".to_vec()
}

#[test]
fn derive_is_stable() {
    let program = addr(7);
    let owner = addr(1);
    let a = collection_purchases::addr::derive(&program, &tag(), &owner).unwrap();
    let b = collection_purchases::addr::derive(&program, &tag(), &owner).unwrap();
    assert_eq!(a.0.bytes, b.0.bytes);
    assert_eq!(a.1, b.1);
}

#[test]
fn derive_transforms_its_input() {
    let program = addr(7);
    let owner = addr(1);
    let (address, _) = collection_purchases::addr::derive(&program, &tag(), &owner).unwrap();
    assert_eq!(address.bytes.len(), 32);
    assert_ne!(address.bytes, owner.bytes);
    assert_ne!(address.bytes, program.bytes);
}

#[test]
fn derivation_mismatch_is_rejected() {
    let program = addr(7);
    let owner = addr(1);
    let wrong = addr(9);
    let r = collection_purchases::addr::verify_derivation(&program, &tag(), &owner, &wrong);
    assert_eq!(r.err().unwrap(), ErrorCode::InvalidAddressDerivation);
}

#[test]
fn derivation_match_is_accepted() {
    let program = addr(7);
    let owner = addr(1);
    let (address, bump) = collection_purchases::addr::derive(&program, &tag(), &owner).unwrap();
    let tok = collection_purchases::addr::verify_derivation(&program, &tag(), &owner, &address)
        .unwrap();
    assert_eq!(tok.bump, bump);
    assert_eq!(tok.owner.bytes, owner.bytes);
}

#[test]
fn funding_requirement_reflects_the_record_size() {
    // 40 items back a 5-byte bitmask: 8 + 32 + 4 + 5 = 49 persisted bytes.
    let req = funding_requirement(40).unwrap();
    assert!(req > 49);
    let larger = funding_requirement(2000).unwrap();
    assert!(larger > req);
    assert_eq!(funding_requirement(0).err().unwrap(), ErrorCode::InvalidCollectionSize);
    assert_eq!(funding_requirement(-1).err().unwrap(), ErrorCode::InvalidCollectionSize);
    assert_eq!(funding_requirement(2001).err().unwrap(), ErrorCode::InvalidCollectionSize);
}

#[test]
fn zero_collection_size_fails_without_debit() {
    let program = addr(7);
    let owner = addr(1);
    let mut store = RecordStore::new();
    let (address, _) = collection_purchases::addr::derive(&program, &tag(), &owner).unwrap();
    let mut funder = Funder { balance: 1_000_000_000 };
    let r = store.create(&address, &owner, 0, &mut funder);
    assert_eq!(r.err().unwrap(), ErrorCode::InvalidCollectionSize);
    assert_eq!(funder.balance, 1_000_000_000);
    assert!(!store.has_record(&address));
}

#[test]
fn oversized_collection_fails_regardless_of_funding() {
    let program = addr(7);
    let owner = addr(1);
    let mut store = RecordStore::new();
    let (address, _) = collection_purchases::addr::derive(&program, &tag(), &owner).unwrap();
    let mut funder = Funder { balance: u64::MAX };
    let r = store.create(&address, &owner, 2001, &mut funder);
    assert_eq!(r.err().unwrap(), ErrorCode::InvalidCollectionSize);
    assert_eq!(funder.balance, u64::MAX);
}

#[test]
fn underfunded_creation_fails_without_record() {
    let program = addr(7);
    let owner = addr(1);
    let mut store = RecordStore::new();
    let (address, _) = collection_purchases::addr::derive(&program, &tag(), &owner).unwrap();
    let req = funding_requirement(40).unwrap();
    let mut funder = Funder { balance: req - 1 };
    let r = store.create(&address, &owner, 40, &mut funder);
    assert_eq!(r.err().unwrap(), ErrorCode::InsufficientFunding);
    assert_eq!(funder.balance, req - 1);
    assert!(!store.has_record(&address));
}

#[test]
fn creation_succeeds_at_exact_requirement() {
    let program = addr(7);
    let owner = addr(1);
    let mut store = RecordStore::new();
    let (address, _) = collection_purchases::addr::derive(&program, &tag(), &owner).unwrap();
    let req = funding_requirement(40).unwrap();
    let mut funder = Funder { balance: req };
    let rec = store.create(&address, &owner, 40, &mut funder).unwrap();
    assert_eq!(rec.capacity, 5);
    assert_eq!(rec.data, vec![0u8; 5]);
    assert_eq!(rec.owner.bytes, owner.bytes);
    assert_eq!(funder.balance, 0);
}

#[test]
fn creation_succeeds_at_the_largest_collection_size() {
    let program = addr(7);
    let owner = addr(1);
    let mut store = RecordStore::new();
    let (address, _) = collection_purchases::addr::derive(&program, &tag(), &owner).unwrap();
    let req = funding_requirement(2000).unwrap();
    let mut funder = Funder { balance: req };
    let rec = store.create(&address, &owner, 2000, &mut funder).unwrap();
    assert_eq!(rec.capacity, 250);
    assert_eq!(funder.balance, 0);
}

#[test]
fn size_validation_precedes_the_existence_skip() {
    let program = addr(7);
    let owner = addr(1);
    let mut store = RecordStore::new();
    let (address, _) = collection_purchases::addr::derive(&program, &tag(), &owner).unwrap();
    let req = funding_requirement(40).unwrap();
    let mut funder = Funder { balance: req };
    store.create(&address, &owner, 40, &mut funder).unwrap();
    let r = store.create(&address, &owner, 0, &mut funder);
    assert_eq!(r.err().unwrap(), ErrorCode::InvalidCollectionSize);
    let r = store.create(&address, &owner, 2001, &mut funder);
    assert_eq!(r.err().unwrap(), ErrorCode::InvalidCollectionSize);
    assert!(store.has_record(&address));
}

#[test]
fn creation_is_idempotent() {
    let program = addr(7);
    let owner = addr(1);
    let mut store = RecordStore::new();
    let (address, _) = collection_purchases::addr::derive(&program, &tag(), &owner).unwrap();
    let req = funding_requirement(40).unwrap();
    let mut funder = Funder { balance: 2 * req };
    store.create(&address, &owner, 40, &mut funder).unwrap();
    store.write(&address, &vec![0xAA]).unwrap();
    let rec = store.create(&address, &owner, 40, &mut funder).unwrap();
    assert_eq!(rec.data[0], 0xAA);
    assert_eq!(funder.balance, req);
}

#[test]
fn initialize_zeroes_a_hundred_bytes() {
    let program = addr(7);
    let cnft = addr(3);
    let mut store = RecordStore::new();
    ops::initialize(&mut store, &program, &tag(), &cnft).unwrap();
    let data = ops::fetch_data(&store, &program, &tag(), &cnft).unwrap();
    assert_eq!(data, vec![0u8; 100]);
}

#[test]
fn small_write_keeps_the_tail_zero() {
    let program = addr(7);
    let cnft = addr(3);
    let mut store = RecordStore::new();
    ops::initialize(&mut store, &program, &tag(), &cnft).unwrap();
    ops::add_purchase(&mut store, &program, &tag(), &cnft, &vec![1, 0, 1]).unwrap();
    let data = ops::fetch_data(&store, &program, &tag(), &cnft).unwrap();
    assert_eq!(&data[0..3], &[1, 0, 1]);
    assert!(data[3..100].iter().all(|b| *b == 0));
    assert_eq!(data.len(), 100);
}

#[test]
fn oversized_write_is_clamped_without_error() {
    let program = addr(7);
    let cnft = addr(3);
    let mut store = RecordStore::new();
    ops::initialize(&mut store, &program, &tag(), &cnft).unwrap();
    let items: Vec<u8> = (0..150u32).map(|i| (i % 251) as u8).collect();
    ops::add_purchase(&mut store, &program, &tag(), &cnft, &items).unwrap();
    let data = ops::fetch_data(&store, &program, &tag(), &cnft).unwrap();
    assert_eq!(data.len(), 100);
    assert_eq!(&data[..], &items[0..100]);
}

#[test]
fn missing_record_is_reported() {
    let program = addr(7);
    let owner = addr(5);
    let store = RecordStore::new();
    let r = ops::fetch_data(&store, &program, &tag(), &owner);
    assert_eq!(r.err().unwrap(), ErrorCode::RecordNotFound);
    let mut store = store;
    let r = ops::add_purchase(&mut store, &program, &tag(), &owner, &vec![1]);
    assert_eq!(r.err().unwrap(), ErrorCode::RecordNotFound);
}

#[test]
fn purchase_mints_at_most_once() {
    let program = addr(7);
    let owner = addr(1);
    let tree = addr(4);
    let mut store = RecordStore::new();
    let mut funder = Funder { balance: u64::MAX };
    let (state, invoked) = ops::purchase_items(
        &mut store,
        &program,
        &tag(),
        &owner,
        IssuanceState::NotIssued,
        &tree,
        0,
        &mut funder,
        100,
        true,
        &vec![1, 0, 1],
    )
    .unwrap();
    assert!(invoked);
    let expected = collection_purchases::issuance::derive_asset_id(&tree, 0);
    match &state {
        IssuanceState::Issued(a) => assert_eq!(a.bytes, expected.bytes),
        IssuanceState::NotIssued => panic!("asset not issued"),
    }
    let balance_after_first = funder.balance;
    let (state2, invoked2) = ops::purchase_items(
        &mut store,
        &program,
        &tag(),
        &owner,
        state,
        &tree,
        0,
        &mut funder,
        100,
        true,
        &vec![1, 1, 1],
    )
    .unwrap();
    assert!(!invoked2);
    assert!(matches!(state2, IssuanceState::Issued(_)));
    assert_eq!(funder.balance, balance_after_first);
    let (pda, _) = collection_purchases::addr::derive(&program, &tag(), &owner).unwrap();
    let rec = store.read(&pda).unwrap();
    assert_eq!(&rec.data[0..3], &[1, 1, 1]);
    assert_eq!(rec.data.len(), 13);
}

#[test]
fn rejected_mint_aborts_a_purchase() {
    let program = addr(7);
    let owner = addr(1);
    let tree = addr(4);
    let mut store = RecordStore::new();
    let mut funder = Funder { balance: u64::MAX };
    let r = ops::purchase_items(
        &mut store,
        &program,
        &tag(),
        &owner,
        IssuanceState::NotIssued,
        &tree,
        0,
        &mut funder,
        100,
        false,
        &vec![1],
    );
    assert_eq!(r.err().unwrap(), ErrorCode::IssuanceFailed);
    assert_eq!(funder.balance, u64::MAX);
    let (pda, _) = collection_purchases::addr::derive(&program, &tag(), &owner).unwrap();
    assert!(!store.has_record(&pda));
}

#[test]
fn asset_id_transforms_the_tree_address() {
    let tree = addr(4);
    let id0 = collection_purchases::issuance::derive_asset_id(&tree, 0);
    let id1 = collection_purchases::issuance::derive_asset_id(&tree, 1);
    assert_eq!(id0.bytes.len(), 32);
    assert_ne!(id0.bytes, tree.bytes);
    assert_ne!(id0.bytes, id1.bytes);
}
