use orasrs_core_sdk::address::{encode, InvalidAddress};

#[test]
fn encode_packs_octets_big_endian() {
    assert_eq!(encode("192.168.1.1"), Ok(0xC0A80101));
    assert_eq!(encode("8.8.8.8"), Ok(0x08080808));
    assert_eq!(encode("1.2.3.4"), Ok(0x01020304));
    assert_eq!(encode("10.20.30.40"), Ok((10 << 24) | (20 << 16) | (30 << 8) | 40));
}

#[test]
fn encode_covers_the_ends_of_the_address_space() {
    assert_eq!(encode("0.0.0.0"), Ok(0));
    assert_eq!(encode("255.255.255.255"), Ok(u32::MAX));
    assert_eq!(encode("0.0.0.1"), Ok(1));
    assert_eq!(encode("128.0.0.0"), Ok(0x8000_0000));
}

#[test]
fn encode_orders_keys_as_addresses() {
    let low = encode("9.255.255.255").unwrap();
    let high = encode("10.0.0.0").unwrap();
    assert!(low < high);
    assert_eq!(high - low, 1);
}

#[test]
fn encode_is_deterministic() {
    assert_eq!(encode("172.16.254.3"), encode("172.16.254.3"));
}

#[test]
fn encode_tells_distinct_addresses_apart() {
    let texts = ["1.1.1.1", "1.1.1.2", "1.1.2.1", "1.2.1.1", "2.1.1.1", "11.1.1.1", "1.11.1.1"];
    for (i, first) in texts.iter().enumerate() {
        for (j, second) in texts.iter().enumerate() {
            assert_eq!(encode(first) == encode(second), i == j);
        }
    }
}

#[test]
fn encode_refuses_a_wrong_number_of_fields() {
    assert_eq!(encode(""), Err(InvalidAddress));
    assert_eq!(encode("1"), Err(InvalidAddress));
    assert_eq!(encode("1.2"), Err(InvalidAddress));
    assert_eq!(encode("1.2.3"), Err(InvalidAddress));
    assert_eq!(encode("1.2.3.4.5"), Err(InvalidAddress));
    assert_eq!(encode("1.2.3.4."), Err(InvalidAddress));
    assert_eq!(encode(".1.2.3.4"), Err(InvalidAddress));
    assert_eq!(encode("1..2.3"), Err(InvalidAddress));
    assert_eq!(encode("..."), Err(InvalidAddress));
}

#[test]
fn encode_refuses_an_octet_above_255() {
    assert_eq!(encode("256.1.1.1"), Err(InvalidAddress));
    assert_eq!(encode("1.256.1.1"), Err(InvalidAddress));
    assert_eq!(encode("1.1.256.1"), Err(InvalidAddress));
    assert_eq!(encode("1.1.1.256"), Err(InvalidAddress));
    assert_eq!(encode("1.1.1.999"), Err(InvalidAddress));
    assert_eq!(encode("1.1.1.1000"), Err(InvalidAddress));
    assert_eq!(encode("300.300.300.300"), Err(InvalidAddress));
}

#[test]
fn encode_refuses_what_is_not_a_number() {
    assert_eq!(encode("a.b.c.d"), Err(InvalidAddress));
    assert_eq!(encode("1.2.3.x"), Err(InvalidAddress));
    assert_eq!(encode("1.2.3.-4"), Err(InvalidAddress));
    assert_eq!(encode("1.2.3.+4"), Err(InvalidAddress));
    assert_eq!(encode(" 1.2.3.4"), Err(InvalidAddress));
    assert_eq!(encode("1.2.3.4 "), Err(InvalidAddress));
    assert_eq!(encode("1.2.3.4\n"), Err(InvalidAddress));
    assert_eq!(encode("1,2,3,4"), Err(InvalidAddress));
    assert_eq!(encode("0x1.2.3.4"), Err(InvalidAddress));
    assert_eq!(encode("example.com"), Err(InvalidAddress));
    assert_eq!(encode("::1"), Err(InvalidAddress));
}

#[test]
fn encode_refuses_leading_zeros() {
    assert_eq!(encode("01.2.3.4"), Err(InvalidAddress));
    assert_eq!(encode("1.02.3.4"), Err(InvalidAddress));
    assert_eq!(encode("1.2.3.004"), Err(InvalidAddress));
    assert_eq!(encode("00.0.0.0"), Err(InvalidAddress));
    assert_eq!(encode("0.0.0.0"), Ok(0));
}

#[test]
fn encode_refuses_text_outside_ascii() {
    assert_eq!(encode("1.2.3.４"), Err(InvalidAddress));
    assert_eq!(encode("١.٢.٣.٤"), Err(InvalidAddress));
    assert_eq!(encode("1.2.3.4é"), Err(InvalidAddress));
}

#[test]
fn encode_accepts_exactly_the_canonical_texts() {
    let cases: [(&str, Option<u32>); 12] = [
        ("127.0.0.1", Some(0x7F000001)),
        ("192.168.1.100", Some(0xC0A80164)),
        ("100.200.100.200", Some(0x64C864C8)),
        ("99.99.99.99", Some(0x63636363)),
        ("9.9.9.9", Some(0x09090909)),
        ("249.250.251.252", Some(0xF9FAFBFC)),
        ("1.1.1.0255", None),
        ("1.1.1.1.1", None),
        ("1.1.1", None),
        ("1.1.1.1 ", None),
        ("1234.1.1.1", None),
        ("1.1.1.1/24", None),
    ];
    for (text, expected) in cases {
        assert_eq!(encode(text).ok(), expected, "{}", text);
    }
}
