use shop_token::codec::{decode_product, encode_product, payload_fits, MAX_SIZE};
use shop_token::record::{Product, ProductPayload};

fn sample(updated_at: Option<u64>) -> Product {
    Product {
        id: 7,
        name: "Mug".to_string(),
        description: "Ceramic mug".to_string(),
        price: 1000,
        cashback_percentage: 5,
        created_at: 123_456,
        updated_at,
    }
}

#[test]
fn round_trip_without_update_time() {
    let p = sample(None);
    let bytes = encode_product(&p);
    assert_eq!(decode_product(&bytes), Some(p));
}

#[test]
fn round_trip_with_update_time() {
    let p = sample(Some(u64::MAX));
    let bytes = encode_product(&p);
    assert_eq!(decode_product(&bytes), Some(p));
}

#[test]
fn round_trip_non_ascii_and_empty_texts() {
    let p = Product {
        id: u64::MAX,
        name: "Tasse à café ☕".to_string(),
        description: String::new(),
        price: 0,
        cashback_percentage: 100,
        created_at: 0,
        updated_at: Some(1),
    };
    let bytes = encode_product(&p);
    assert_eq!(decode_product(&bytes), Some(p));
}

#[test]
fn encoding_has_exact_layout() {
    let p = Product {
        id: 1,
        name: "ab".to_string(),
        description: "c".to_string(),
        price: 258,
        cashback_percentage: 5,
        created_at: 9,
        updated_at: None,
    };
    let expected: Vec<u8> = vec![
        1, 0, 0, 0, 0, 0, 0, 0, // id
        2, 0, 0, 0, b'a', b'b', // name
        1, 0, 0, 0, b'c', // description
        2, 1, 0, 0, 0, 0, 0, 0, // price
        5, // cashback
        9, 0, 0, 0, 0, 0, 0, 0, // created_at
        0, // no update time
    ];
    assert_eq!(encode_product(&p), expected);
}

#[test]
fn encoding_with_update_time_is_eight_bytes_longer() {
    let a = encode_product(&sample(None));
    let b = encode_product(&sample(Some(3)));
    assert_eq!(b.len(), a.len() + 8);
    assert_eq!(a.len(), 34 + 3 + 11);
}

#[test]
fn decode_rejects_short_input() {
    assert_eq!(decode_product(&[]), None);
    assert_eq!(decode_product(&[1, 2, 3]), None);
}

#[test]
fn decode_rejects_truncated_and_extended_input() {
    let bytes = encode_product(&sample(Some(5)));
    assert_eq!(decode_product(&bytes[..bytes.len() - 1]), None);
    let mut longer = bytes.clone();
    longer.push(0);
    assert_eq!(decode_product(&longer), None);
}

#[test]
fn decode_rejects_bad_tag() {
    let mut bytes = encode_product(&sample(None));
    let last = bytes.len() - 1;
    bytes[last] = 2;
    assert_eq!(decode_product(&bytes), None);
}

#[test]
fn decode_rejects_invalid_utf8() {
    let mut bytes = encode_product(&sample(None));
    bytes[12] = 0xff;
    assert_eq!(decode_product(&bytes), None);
}

#[test]
fn payload_bound_edges() {
    let fits = ProductPayload {
        name: "n".repeat(500),
        description: "d".repeat(MAX_SIZE - 42 - 500),
        price: 1,
        cashback_percentage: 1,
    };
    assert!(payload_fits(&fits));
    let too_big = ProductPayload {
        name: "n".repeat(501),
        description: "d".repeat(MAX_SIZE - 42 - 500),
        price: 1,
        cashback_percentage: 1,
    };
    assert!(!payload_fits(&too_big));
    let product = Product {
        id: u64::MAX,
        name: fits.name.clone(),
        description: fits.description.clone(),
        price: 1,
        cashback_percentage: 1,
        created_at: 2,
        updated_at: Some(3),
    };
    assert_eq!(encode_product(&product).len(), MAX_SIZE);
}
