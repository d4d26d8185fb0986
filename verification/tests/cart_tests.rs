use mercado::cart::Cart;
use mercado::catalog::{get_product_by_id, list_products};
use mercado::errors::StoreError;

#[test]
fn cart_flow() {
    let products = list_products();
    assert!(products.len() >= 1, "the catalog holds at least one product");
    let first = &products[0];
    assert!(first.id > 0, "a product carries an id");
    let mut cart = Cart::new();
    cart.add(first.id, 1).unwrap();
    let summary = cart.summary();
    assert!(summary.subtotal_cents > 0, "subtotal is positive after one add");
    assert_eq!(summary.total_cents, summary.subtotal_cents);
    assert_eq!(summary.shipping_cents, 0);
    cart.clear();
    let summary = cart.summary();
    assert_eq!(summary.items.len(), 0, "the cart is empty after clear");
    assert_eq!(summary.subtotal_cents, 0);
}

#[test]
fn adding_twice_accumulates_the_line_total() {
    let mut cart = Cart::new();
    cart.add(1, 2).unwrap();
    cart.add(1, 3).unwrap();
    let (items, subtotal) = cart.snapshot();
    assert_eq!(items.len(), 1);
    assert_eq!(items[0].qty, 5);
    assert_eq!(items[0].unit_price_cents, 799);
    assert_eq!(items[0].line_total_cents, 799 * 5);
    assert_eq!(items[0].line_total(), 799 * 5);
    assert_eq!(subtotal, 799 * 5);
}

#[test]
fn set_quantity_zero_removes_the_line() {
    let mut cart = Cart::new();
    cart.add(1, 2).unwrap();
    cart.add(2, 1).unwrap();
    cart.set_quantity(1, 0).unwrap();
    let (items, subtotal) = cart.snapshot();
    assert_eq!(items.len(), 1, "the snapshot excludes the removed line");
    assert_eq!(items[0].product_id, 2);
    assert_eq!(subtotal, 899);
    // removing an absent line has no visible effect
    cart.set_quantity(1, 0).unwrap();
    assert_eq!(cart.snapshot().0.len(), 1);
}

#[test]
fn set_quantity_overwrites_and_revalidates() {
    let mut cart = Cart::new();
    cart.add(1, 2).unwrap();
    cart.set_quantity(1, 7).unwrap();
    let (items, subtotal) = cart.snapshot();
    assert_eq!(items[0].qty, 7);
    assert_eq!(items[0].line_total_cents, 799 * 7);
    assert_eq!(subtotal, 799 * 7);
    assert_eq!(cart.set_quantity(1, 51), Err(StoreError::InsufficientStock));
    assert_eq!(cart.set_quantity(3, 1), Err(StoreError::NotFound));
    assert_eq!(cart.set_quantity(999, 1), Err(StoreError::NotFound));
}

#[test]
fn stock_is_a_ceiling() {
    // product 1 has stock 50
    let mut cart = Cart::new();
    assert_eq!(cart.add(1, 51), Err(StoreError::InsufficientStock));
    assert_eq!(cart.snapshot().0.len(), 0);
    cart.add(1, 50).unwrap();
    let (items, subtotal) = cart.snapshot();
    assert_eq!(items.len(), 1);
    assert_eq!(subtotal, 799 * 50);
}

#[test]
fn add_rejects_bad_requests() {
    let mut cart = Cart::new();
    assert_eq!(cart.add(1, 0), Err(StoreError::InvalidInput));
    assert_eq!(cart.add(999, 1), Err(StoreError::NotFound));
    assert_eq!(cart.snapshot().0.len(), 0);
}

#[test]
fn catalog_lookup_matches_listing() {
    let products = list_products();
    assert_eq!(products.len(), 20);
    for p in &products {
        let q = get_product_by_id(p.id).unwrap();
        assert_eq!(q.id, p.id);
        assert_eq!(q.name, p.name);
        assert_eq!(q.price_cents, p.price_cents);
        assert_eq!(q.stock, p.stock);
        assert_eq!(q.image_url, p.image_url);
    }
    assert!(get_product_by_id(0).is_none());
    assert!(get_product_by_id(21).is_none());
    let arroz = get_product_by_id(1).unwrap();
    assert_eq!(arroz.name, "Arroz 1kg");
    assert_eq!(arroz.price_cents, 799);
    assert_eq!(arroz.stock, 50);
}
