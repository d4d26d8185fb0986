use mercado::money::format_brl;
use mercado::payment::{escolher_pagamento, Cartao, PaymentKind, Pix};

#[test]
fn format_brl_renders_cents() {
    assert_eq!(format_brl(799), "R$ 7,99");
    assert_eq!(format_brl(0), "R$ 0,00");
    assert_eq!(format_brl(5), "R$ 0,05");
    assert_eq!(format_brl(100), "R$ 1,00");
    assert_eq!(format_brl(123456), "R$ 1234,56");
}

#[test]
fn pix_keeps_amount() {
    let pr = Pix.processar(10000, Some(5));
    assert_eq!(pr.installments, None);
    assert_eq!(pr.interest_cents, 0);
    assert_eq!(pr.total_with_interest_cents, 10000);
    assert_eq!(pr.installment_value_cents, None);
    assert_eq!(pr.message, "Pago R$ 100,00 via PIX");
}

#[test]
fn one_or_two_installments_bear_no_interest() {
    let pr1 = Cartao.processar(10000, Some(1));
    assert_eq!(pr1.total_with_interest_cents, 10000);
    assert_eq!(pr1.interest_cents, 0);
    assert_eq!(pr1.installment_value_cents, Some(10000));
    let pr2 = Cartao.processar(10000, Some(2));
    assert_eq!(pr2.total_with_interest_cents, 10000);
    assert_eq!(pr2.interest_cents, 0);
    assert_eq!(pr2.installment_value_cents, Some(5000));
}

#[test]
fn three_installments_charge_one_month_of_interest() {
    let pr = Cartao.processar(10000, Some(3));
    assert_eq!(pr.installments, Some(3));
    assert_eq!(pr.total_with_interest_cents, 10200);
    assert_eq!(pr.interest_cents, 200);
    assert_eq!(pr.installment_value_cents, Some(3400));
    assert_eq!(pr.message, "Pago R$ 100,00 via Cartão");
}

#[test]
fn twelve_installments_charge_ten_months_of_interest() {
    let pr = Cartao.processar(10000, Some(12));
    assert_eq!(pr.total_with_interest_cents, 12000);
    assert_eq!(pr.interest_cents, 2000);
    assert_eq!(pr.installment_value_cents, Some(1000));
}

#[test]
fn interest_rounds_half_away_from_zero() {
    // 101 * 1.02 = 103.02 -> 103; 99 * 1.02 = 100.98 -> 101
    assert_eq!(Cartao.processar(101, Some(3)).total_with_interest_cents, 103);
    assert_eq!(Cartao.processar(99, Some(3)).total_with_interest_cents, 101);
    // 25 * 1.02 = 25.5 rounds away from zero -> 26
    assert_eq!(Cartao.processar(25, Some(3)).total_with_interest_cents, 26);
}

#[test]
fn installment_value_never_under_collects() {
    let pr = Cartao.processar(10001, Some(2));
    let v = pr.installment_value_cents.unwrap();
    assert_eq!(v, 5001);
    assert!(v * 2 >= pr.total_with_interest_cents);
    assert!(v * 2 - pr.total_with_interest_cents < 2);
    for n in 1u8..=12 {
        let pr = Cartao.processar(9999, Some(n));
        let v = pr.installment_value_cents.unwrap();
        assert!(v * n as u64 >= pr.total_with_interest_cents);
        assert!(v * n as u64 - pr.total_with_interest_cents < n as u64);
    }
}

#[test]
fn missing_installment_count_means_one() {
    let pr = Cartao.processar(7000, None);
    assert_eq!(pr.installments, Some(1));
    assert_eq!(pr.total_with_interest_cents, 7000);
    assert_eq!(pr.interest_cents, 0);
}

#[test]
fn method_strings_select_the_variant() {
    assert_eq!(escolher_pagamento("pix"), PaymentKind::Instant);
    assert_eq!(escolher_pagamento("credit"), PaymentKind::Installment);
    assert_eq!(escolher_pagamento("installment"), PaymentKind::Installment);
    assert_eq!(escolher_pagamento("boleto"), PaymentKind::Instant);
    assert_eq!(escolher_pagamento(""), PaymentKind::Instant);
}

#[test]
fn kind_dispatch_matches_variants() {
    let instant = PaymentKind::Instant.processar(500, Some(4));
    assert_eq!(instant.total_with_interest_cents, 500);
    assert_eq!(instant.installments, None);
    let card = PaymentKind::Installment.processar(500, Some(4));
    assert_eq!(card.installments, Some(4));
    // 500 * 1.04 = 520
    assert_eq!(card.total_with_interest_cents, 520);
    assert_eq!(card.interest_cents, 20);
    assert_eq!(card.installment_value_cents, Some(130));
}
