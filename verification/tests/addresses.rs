use qkc_mining_assistant::types::{AddressError, QkcAddress};

#[test]
fn address_test() {
    let address_with_chain =
        QkcAddress::new("0xF0c9A075c4386ab8F08CF4529FDF77F6D2748d02", 7, 0).unwrap();

    println!("{}", address_with_chain.to_string());
}

#[test]
fn address_with_chain_renders_lower_case_with_key() {
    let address = QkcAddress::new("0xF0c9A075c4386ab8F08CF4529FDF77F6D2748d02", 7, 0).unwrap();
    assert_eq!(address.to_string(), "0xf0c9a075c4386ab8f08cf4529fdf77f6d2748d0200070000");
    assert_eq!(address.coinbase(), "0xf0c9a075c4386ab8f08cf4529fdf77f6d2748d02");
    assert_eq!(address.full_shard_key(), "0x00070000");
    assert_eq!(address.chain_id(), 7);
    assert!(address.has_chain());
}

#[test]
fn chain_and_shard_are_written_high_byte_first() {
    let address = QkcAddress::new("0x00", 0x0102, 0xa0b0).unwrap();
    assert_eq!(address.full_shard_key(), "0x0102a0b0");
    assert_eq!(address.chain_id(), 0x0102);
    assert_eq!(address.coinbase, vec![0u8]);
    assert_eq!(address.coinbase_bytes(), &[0u8][..]);
}

#[test]
fn full_address_is_read_by_position() {
    let text = "0x13d041434910ad2c1893c6a77537b16cb7b8ef5b00030001";
    let address = QkcAddress::new_full(text).unwrap();
    assert_eq!(address.to_string(), text);
    assert_eq!(address.chain_id(), 3);
    assert_eq!(address.full_shard_key(), "0x00030001");
    assert_eq!(address.coinbase.len(), 20);
    assert_eq!(address.coinbase[0], 0x13);
    assert_eq!(address.coinbase[19], 0x5b);
}

#[test]
fn full_address_does_not_read_its_first_two_bytes() {
    let a = QkcAddress::new_full("0x13d041434910ad2c1893c6a77537b16cb7b8ef5b00030001").unwrap();
    let b = QkcAddress::new_full("zz13D041434910AD2C1893C6A77537B16CB7B8EF5B00030001").unwrap();
    assert_eq!(a, b);
}

#[test]
fn full_address_ignores_what_follows() {
    let a = QkcAddress::new_full("0x13d041434910ad2c1893c6a77537b16cb7b8ef5b00030001").unwrap();
    let b = QkcAddress::new_full("0x13d041434910ad2c1893c6a77537b16cb7b8ef5b00030001tail").unwrap();
    assert_eq!(a, b);
}

#[test]
fn short_full_address_is_refused() {
    assert_eq!(
        QkcAddress::new_full("0x13d041434910ad2c1893c6a77537b16cb7b8ef5b0003000"),
        Err(AddressError::TooShort)
    );
    assert_eq!(QkcAddress::new_full(""), Err(AddressError::TooShort));
}

#[test]
fn full_address_with_a_stray_character_is_refused() {
    assert_eq!(
        QkcAddress::new_full("0x13d041434910ad2c1893c6a77537b16cb7b8ef5b0003000g"),
        Err(AddressError::InvalidHex)
    );
    assert_eq!(
        QkcAddress::new_full("0xg3d041434910ad2c1893c6a77537b16cb7b8ef5b00030001"),
        Err(AddressError::InvalidHex)
    );
}

#[test]
fn coinbase_alone_gives_single_byte_chain_and_shard() {
    let address = QkcAddress::new_from_coinbase("0xabcd").unwrap();
    assert_eq!(address.coinbase, vec![0xab, 0xcd]);
    assert_eq!(address.to_string(), "0xabcd0000");
    assert_eq!(address.full_shard_key(), "0x0000");
    assert!(!address.has_chain());
}

#[test]
fn coinbase_errors() {
    assert_eq!(QkcAddress::new_from_coinbase("0"), Err(AddressError::TooShort));
    assert_eq!(QkcAddress::new_from_coinbase("0xabc"), Err(AddressError::InvalidHex));
    assert_eq!(QkcAddress::new("0xzz", 1, 1), Err(AddressError::InvalidHex));
    assert_eq!(QkcAddress::new("", 1, 1), Err(AddressError::TooShort));
}

#[test]
fn empty_coinbase_is_an_address() {
    let address = QkcAddress::new("0x", 1, 2).unwrap();
    assert_eq!(address.coinbase.len(), 0);
    assert_eq!(address.to_string(), "0x00010002");
}
