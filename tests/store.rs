use shop_token::record::{Error, Product, ProductPayload};
use shop_token::service::ProductStore;

fn payload(name: &str, description: &str, price: u64, cashback: u8) -> ProductPayload {
    ProductPayload {
        name: name.to_string(),
        description: description.to_string(),
        price,
        cashback_percentage: cashback,
    }
}

fn not_found_msg(r: Result<Product, Error>) -> String {
    match r {
        Err(Error::NotFound { msg }) => msg,
        Ok(p) => panic!("expected NotFound, got {:?}", p),
    }
}

#[test]
fn fresh_store_issues_zero_first() {
    let mut store = ProductStore::init().unwrap();
    assert_eq!(store.counter(), 0);
    let p = store.add_product(payload("a", "b", 1, 2), 10).unwrap();
    assert_eq!(p.id, 0);
    assert_eq!(store.counter(), 1);
}

#[test]
fn ids_strictly_increase() {
    let mut store = ProductStore::init().unwrap();
    let mut last: Option<u64> = None;
    for i in 0..20u64 {
        let p = store.add_product(payload("x", "y", i, 0), i).unwrap();
        if let Some(prev) = last {
            assert!(p.id > prev);
        }
        last = Some(p.id);
        if i % 3 == 0 {
            store.delete_product(p.id).unwrap();
        }
    }
    assert_eq!(last, Some(19));
}

#[test]
fn get_after_create() {
    let mut store = ProductStore::init().unwrap();
    let p = store.add_product(payload("Lamp", "Desk lamp", 2500, 10), 77).unwrap();
    assert_eq!(p.name, "Lamp");
    assert_eq!(p.description, "Desk lamp");
    assert_eq!(p.price, 2500);
    assert_eq!(p.cashback_percentage, 10);
    assert_eq!(p.created_at, 77);
    assert_eq!(p.updated_at, None);
    assert_eq!(store.get_product(p.id), Ok(p));
}

#[test]
fn update_preserves_identity() {
    let mut store = ProductStore::init().unwrap();
    let p = store.add_product(payload("Pen", "Blue pen", 100, 1), 5).unwrap();
    let u1 = store.update_product(p.id, payload("Pen+", "Red pen", 150, 2), 6).unwrap();
    assert_eq!(u1.id, p.id);
    assert_eq!(u1.created_at, 5);
    assert_eq!(u1.name, "Pen+");
    assert_eq!(u1.description, "Red pen");
    assert_eq!(u1.price, 150);
    assert_eq!(u1.cashback_percentage, 2);
    assert_eq!(u1.updated_at, Some(6));
    let u2 = store.update_product(p.id, payload("Pen++", "Red pen", 150, 2), 9).unwrap();
    assert_eq!(u2.updated_at, Some(9));
    assert_ne!(u2.updated_at, u1.updated_at);
    assert_eq!(store.get_product(p.id), Ok(u2));
    assert_eq!(store.counter(), 1);
}

#[test]
fn delete_removes_visibility() {
    let mut store = ProductStore::init().unwrap();
    let p = store.add_product(payload("Cup", "Tea cup", 300, 0), 1).unwrap();
    assert_eq!(store.delete_product(p.id), Ok(p.clone()));
    let msg = not_found_msg(store.get_product(p.id));
    assert!(msg.contains(&p.id.to_string()));
    let msg = not_found_msg(store.delete_product(p.id));
    assert_eq!(msg, "Couldn't delete a product with id=0. Product not found.");
}

#[test]
fn not_found_on_absent_id() {
    let mut store = ProductStore::init().unwrap();
    store.add_product(payload("a", "b", 1, 1), 1).unwrap();
    assert_eq!(
        not_found_msg(store.get_product(42)),
        "A product with id=42 not found"
    );
    assert_eq!(
        not_found_msg(store.update_product(42, payload("c", "d", 2, 2), 3)),
        "Couldn't update a product with id=42. Product not found"
    );
    assert_eq!(
        not_found_msg(store.delete_product(42)),
        "Couldn't delete a product with id=42. Product not found."
    );
    assert_eq!(store.counter(), 1);
}

#[test]
fn update_of_absent_id_changes_nothing() {
    let mut store = ProductStore::init().unwrap();
    let p = store.add_product(payload("a", "b", 1, 1), 1).unwrap();
    assert!(store.update_product(p.id + 1, payload("c", "d", 2, 2), 3).is_err());
    assert_eq!(store.get_product(p.id), Ok(p));
}

// The counter starts at 0 and each creation issues its current value, so the
// second product created is the one with identifier 1.
#[test]
fn mug_scenario() {
    let mut store = ProductStore::init().unwrap();
    let first = store.add_product(payload("Plate", "Ceramic plate", 800, 5), 50).unwrap();
    assert_eq!(first.id, 0);
    let t0 = 100;
    let mug = store.add_product(payload("Mug", "Ceramic mug", 1000, 5), t0).unwrap();
    assert_eq!(
        mug,
        Product {
            id: 1,
            name: "Mug".to_string(),
            description: "Ceramic mug".to_string(),
            price: 1000,
            cashback_percentage: 5,
            created_at: t0,
            updated_at: None,
        }
    );
    let t1 = 200;
    let deluxe = store.update_product(1, payload("Mug Deluxe", "Ceramic mug", 1200, 5), t1).unwrap();
    assert_eq!(
        deluxe,
        Product {
            id: 1,
            name: "Mug Deluxe".to_string(),
            description: "Ceramic mug".to_string(),
            price: 1200,
            cashback_percentage: 5,
            created_at: t0,
            updated_at: Some(t1),
        }
    );
    assert_eq!(store.delete_product(1), Ok(deluxe));
    let msg = not_found_msg(store.get_product(1));
    assert!(msg.contains('1'));
    assert_eq!(store.get_product(0), Ok(first));
}

#[test]
fn fresh_store_is_empty_until_a_creation() {
    let mut store = ProductStore::init().unwrap();
    assert!(store.is_empty());
    let p = store.add_product(payload("a", "b", 1, 1), 1).unwrap();
    assert!(!store.is_empty());
    store.delete_product(p.id).unwrap();
    assert!(store.is_empty());
}

#[test]
fn not_found_messages_of_large_ids() {
    let store = ProductStore::init().unwrap();
    assert_eq!(
        not_found_msg(store.get_product(u64::MAX)),
        "A product with id=18446744073709551615 not found"
    );
    assert_eq!(not_found_msg(store.get_product(10)), "A product with id=10 not found");
    assert_eq!(not_found_msg(store.get_product(0)), "A product with id=0 not found");
}
