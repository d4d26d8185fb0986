use mercado::cart::Cart;
use mercado::checkout::{checkout as run_checkout, CheckoutInput, CheckoutPaymentInput};
use mercado::errors::StoreError;

fn pix_input(email: &str) -> CheckoutInput {
    CheckoutInput {
        payment_method: None,
        payment: Some(CheckoutPaymentInput { method: "pix".to_string(), installments: None }),
        customer_email: Some(email.to_string()),
    }
}

#[test]
fn checkout() {
    let mut cart = Cart::new();
    cart.add(1, 1).unwrap();
    let resp = run_checkout(&mut cart, &pix_input("teste@exemplo.com")).unwrap();
    assert!(!resp.order_id.is_empty(), "the confirmation carries an order id");
    assert_eq!(resp.status, "paid");
    assert!(resp.total_cents > 0);
    assert_eq!(resp.total_cents, 799);
    assert_eq!(resp.items.len(), 1);
    assert_eq!(cart.snapshot().0.len(), 0, "the cart is empty after checkout");
}

#[test]
fn checkout_on_empty_cart_fails() {
    let mut cart = Cart::new();
    let r = run_checkout(&mut cart, &pix_input("a@b.cd"));
    assert!(matches!(r, Err(StoreError::EmptyCart)));
}

#[test]
fn checkout_always_empties_the_cart_on_success() {
    let mut cart = Cart::new();
    cart.add(2, 3).unwrap();
    cart.add(7, 1).unwrap();
    let resp = run_checkout(&mut cart, &pix_input("a@b.cd")).unwrap();
    assert_eq!(resp.items.len(), 2);
    assert_eq!(cart.snapshot().0.len(), 0);
    // and a second checkout finds it empty
    assert!(matches!(run_checkout(&mut cart, &pix_input("a@b.cd")), Err(StoreError::EmptyCart)));
}

#[test]
fn checkout_rejects_bad_emails() {
    let mut cart = Cart::new();
    cart.add(1, 1).unwrap();
    let mut input = pix_input("not-an-email");
    assert!(matches!(run_checkout(&mut cart, &input), Err(StoreError::InvalidEmail)));
    input.customer_email = None;
    assert!(matches!(run_checkout(&mut cart, &input), Err(StoreError::InvalidEmail)));
    input.customer_email = Some("user@domain".to_string());
    assert!(matches!(run_checkout(&mut cart, &input), Err(StoreError::InvalidEmail)));
    assert_eq!(cart.snapshot().0.len(), 1, "a failed checkout leaves the cart as it was");
}

#[test]
fn checkout_validates_installments() {
    let mut cart = Cart::new();
    cart.add(1, 1).unwrap();
    let bad = CheckoutInput {
        payment_method: None,
        payment: Some(CheckoutPaymentInput {
            method: "credit".to_string(),
            installments: Some(13),
        }),
        customer_email: Some("a@b.cd".to_string()),
    };
    assert!(matches!(run_checkout(&mut cart, &bad), Err(StoreError::InvalidInstallments)));
    let zero = CheckoutInput {
        payment_method: None,
        payment: Some(CheckoutPaymentInput {
            method: "credit".to_string(),
            installments: Some(0),
        }),
        customer_email: Some("a@b.cd".to_string()),
    };
    assert!(matches!(run_checkout(&mut cart, &zero), Err(StoreError::InvalidInstallments)));
    // the instant variant ignores any supplied count
    let pix = CheckoutInput {
        payment_method: None,
        payment: Some(CheckoutPaymentInput { method: "pix".to_string(), installments: Some(13) }),
        customer_email: Some("a@b.cd".to_string()),
    };
    let resp = run_checkout(&mut cart, &pix).unwrap();
    assert_eq!(resp.installments, None);
}

#[test]
fn checkout_with_three_installments_on_10000() {
    // 2 x 599 + 18 x 489 = 10000 cents
    let mut cart = Cart::new();
    cart.add(3, 2).unwrap();
    cart.add(6, 18).unwrap();
    let input = CheckoutInput {
        payment_method: None,
        payment: Some(CheckoutPaymentInput {
            method: "installment".to_string(),
            installments: Some(3),
        }),
        customer_email: Some("cliente@exemplo.com".to_string()),
    };
    let resp = run_checkout(&mut cart, &input).unwrap();
    assert_eq!(resp.total_cents, 10000);
    assert_eq!(resp.interest_cents, Some(200));
    assert_eq!(resp.total_with_interest_cents, Some(10200));
    assert_eq!(resp.installment_value_cents, Some(3400));
    assert_eq!(resp.installments, Some(3));
    assert_eq!(resp.payment_method.as_deref(), Some("installment"));
    assert_eq!(cart.snapshot().0.len(), 0);
}

#[test]
fn checkout_defaults_the_method_by_total() {
    // no method anywhere: totals above 5000 default to installments
    let mut cart = Cart::new();
    cart.add(5, 3).unwrap(); // 3 x 1899 = 5697
    let input = CheckoutInput {
        payment_method: None,
        payment: None,
        customer_email: Some("a@b.cd".to_string()),
    };
    let resp = run_checkout(&mut cart, &input).unwrap();
    assert_eq!(resp.payment_method.as_deref(), Some("credit"));
    assert_eq!(resp.installments, Some(1));

    let mut cart = Cart::new();
    cart.add(1, 1).unwrap(); // 799
    let resp = run_checkout(&mut cart, &input).unwrap();
    assert_eq!(resp.payment_method.as_deref(), Some("pix"));
    assert_eq!(resp.installments, None);
    assert_eq!(resp.mensagem_pagamento.as_deref(), Some("Pago R$ 7,99 via PIX"));
}

#[test]
fn checkout_honours_the_flat_method_field() {
    let mut cart = Cart::new();
    cart.add(1, 1).unwrap();
    let input = CheckoutInput {
        payment_method: Some("credit".to_string()),
        payment: None,
        customer_email: Some("a@b.cd".to_string()),
    };
    let resp = run_checkout(&mut cart, &input).unwrap();
    assert_eq!(resp.payment_method.as_deref(), Some("credit"));
    assert_eq!(resp.installments, Some(1));
    assert_eq!(resp.total_with_interest_cents, Some(799));
}
