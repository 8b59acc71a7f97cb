use xcontract_core::calls::{need_more_than, Address, Call, XAssets, XContracts};
use xcontract_core::types::AccountId;

#[test]
fn account_index_serialization() {
    let account_index = 0u32;

    let ink_address = Address::Index(account_index);
    let ink_encoded = ink_address.encode();

    // The runtime spells index 0 as the single byte 0.
    assert_eq!(ink_encoded, vec![0u8]);

    let (ink_decoded, consumed) = Address::decode(&ink_encoded, 0)
        .expect("Account Index decodes back to ink type");
    assert_eq!(consumed, ink_encoded.len());
    assert_eq!(ink_address, ink_decoded);
}

#[test]
fn account_id_serialization() {
    let account_id = AccountId::from_bytes(&[0u8; 32]);

    let ink_address = Address::Id(account_id);
    let ink_encoded = ink_address.encode();

    // The runtime spells a full account ID as 0xff followed by its 32 bytes.
    let mut expected = vec![0xffu8];
    expected.extend(std::iter::repeat(0u8).take(32));
    assert_eq!(ink_encoded, expected);

    let (ink_decoded, consumed) = Address::decode(&ink_encoded, 0)
        .expect("Account Id decodes back to ink type");
    assert_eq!(consumed, ink_encoded.len());
    assert_eq!(ink_address, ink_decoded);
}

#[test]
fn call_balance_transfer() {
    let balance = 10_000u64;
    let account_index = 0u32;

    let contract_address = Address::Index(account_index);
    let contract_transfer = XAssets::transfer(
        contract_address,
        b"PCX".to_vec(),
        balance,
        b"memo".to_vec(),
    );
    let contract_call = Call::XAssets(contract_transfer);

    let contract_call_encoded = contract_call.encode();

    // The exact bytes the runtime expects: module 8, dispatchable 3, the
    // address, the compact-length-prefixed token, the 8-byte balance and
    // the compact-length-prefixed memo.
    let expected: Vec<u8> = vec![
        8, 3, 0, 12, b'P', b'C', b'X', 0x10, 0x27, 0, 0, 0, 0, 0, 0, 16, b'm', b'e', b'm',
        b'o',
    ];
    assert_eq!(contract_call_encoded, expected);

    let (contract_call_decoded, consumed) = Call::decode(&contract_call_encoded, 0)
        .expect("Balances transfer call decodes back to contract type");
    assert_eq!(consumed, contract_call_encoded.len());
    assert_eq!(contract_call, contract_call_decoded);
}

#[test]
fn call_convert_to_asset_round_trip() {
    let dest = AccountId::from_bytes(&[7u8; 32]);
    let call = Call::XContracts(XContracts::convert_to_asset(dest, 10_000));
    let encoded = call.encode();

    // Module 20, dispatchable 8, the raw account bytes, then the compact
    // balance: 10_000 * 4 + 1 = 40_001 = 0x9c41, little endian.
    assert_eq!(encoded[0], 20);
    assert_eq!(encoded[1], 8);
    assert_eq!(&encoded[2..34], &[7u8; 32]);
    assert_eq!(&encoded[34..], &[0x41, 0x9c]);

    let (decoded, consumed) = Call::decode(&encoded, 0).expect("convert_to_asset decodes");
    assert_eq!(consumed, encoded.len());
    assert_eq!(call, decoded);
}

#[test]
fn address_medium_and_large_index_round_trip() {
    for &index in &[0xef_u32, 0xf0, 0xffff, 0x1_0000, u32::MAX] {
        let addr = Address::Index(index);
        let encoded = addr.encode();
        let (decoded, consumed) = Address::decode(&encoded, 0).expect("index decodes");
        assert_eq!(consumed, encoded.len());
        assert_eq!(addr, decoded);
    }
    // The width tags: one byte up to 0xef, 0xfc + two bytes up to 0xffff,
    // 0xfd + four bytes above.
    assert_eq!(Address::Index(0xef).encode(), vec![0xef]);
    assert_eq!(Address::Index(0xf0).encode(), vec![0xfc, 0xf0, 0x00]);
    assert_eq!(Address::Index(0x1_0000).encode(), vec![0xfd, 0x00, 0x00, 0x01, 0x00]);
}

#[test]
fn address_rejects_malformed_spellings() {
    // Unused tag bytes decode to nothing.
    assert!(Address::decode(&vec![0xf0u8, 1, 2, 3, 4], 0).is_none());
    // A two-byte index that would fit a single byte is rejected.
    assert!(Address::decode(&vec![0xfcu8, 0x10, 0x00], 0).is_none());
    // A four-byte index that would fit two bytes is rejected.
    assert!(Address::decode(&vec![0xfdu8, 0x10, 0x00, 0x00, 0x00], 0).is_none());
    // Truncated input decodes to nothing.
    assert!(Address::decode(&vec![0xffu8, 1, 2, 3], 0).is_none());
    assert!(Address::decode(&Vec::new(), 0).is_none());
}

#[test]
fn call_rejects_unknown_modules() {
    assert!(Call::decode(&vec![9u8, 3, 0], 0).is_none());
    assert!(Call::decode(&vec![8u8, 4, 0], 0).is_none());
    assert!(Call::decode(&vec![8u8], 0).is_none());
}

#[test]
fn need_more_than_keeps_only_larger_values() {
    assert_eq!(need_more_than(0xef, 0xf0), Some(0xf0));
    assert_eq!(need_more_than(0xef, 0xef), None);
    assert_eq!(need_more_than(0xef, 0), None);
}
