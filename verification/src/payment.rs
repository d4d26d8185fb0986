//! The payment strategy engine: a pure function of amount, method and
//! installment count. Two variants: instant transfer ("pix") and card
//! installments, with simple interest from the third installment on.

use vstd::prelude::*;
use vstd::arithmetic::div_mod::{
    lemma_div_is_ordered, lemma_div_multiples_vanish, lemma_fundamental_div_mod, lemma_mod_bound,
};
use crate::money::{brl_spec, format_brl};

verus! {

/// Monthly simple-interest rate, in percent, charged per installment
/// from the third one on.
pub const JUROS_PERCENT_A_M: u64 = 2;

/// The breakdown produced by the engine; its fields are copied into the
/// order confirmation.
pub struct PaymentResult {
    pub installments: Option<u8>,
    pub interest_cents: u64,
    pub total_with_interest_cents: u64,
    pub installment_value_cents: Option<u64>,
    pub message: String,
}

/// The installment count the card variant effectively uses: the given
/// one, or a single installment when none was supplied.
pub open spec fn effective_installments(installments: Option<u8>) -> int {
    match installments {
        Some(k) => k as int,
        None => 1,
    }
}

/// The payable total for `amount` over `n` installments: the amount
/// itself below three installments; otherwise the amount bearing 2%
/// simple interest per month from the third installment on, rounded
/// half-away-from-zero to a whole number of cents.
pub open spec fn installment_total_spec(amount: int, n: int) -> int {
    if n >= 3 {
        (amount * (100 + JUROS_PERCENT_A_M * (n - 2)) + 50) / 100
    } else {
        amount
    }
}

/// Ceiling division: the per-installment charge, so that `n` charges
/// never under-collect the payable total.
pub open spec fn ceil_div(total: int, n: int) -> int {
    (total + n - 1) / n
}

/// The confirmation message of the instant variant.
pub open spec fn pix_message(amount: int) -> Seq<char> {
    "Pago "@ + brl_spec(amount) + " via PIX"@
}

/// The confirmation message of the card variant.
pub open spec fn cartao_message(amount: int) -> Seq<char> {
    "Pago "@ + brl_spec(amount) + " via Cartão"@
}

/// The payable total never falls below the amount: the interest factor
/// is at least one.
pub proof fn lemma_total_at_least_amount(amount: int, n: int)
    requires
        amount >= 0,
    ensures
        installment_total_spec(amount, n) >= amount,
{
    if n >= 3 {
        assert(100 * amount <= amount * (100 + 2 * (n - 2)) + 50) by (nonlinear_arith)
            requires
                amount >= 0,
                n >= 3,
        ;
        lemma_div_is_ordered(100 * amount, amount * (100 + 2 * (n - 2)) + 50, 100);
        lemma_div_multiples_vanish(amount, 100);
    }
}

/// One or two installments bear no interest: the payable total is the
/// amount itself.
pub proof fn lemma_no_interest_below_three(amount: int, n: int)
    requires
        1 <= n <= 2,
    ensures
        installment_total_spec(amount, n) == amount,
{
}

/// Three installments bear one month of interest: the total is the
/// amount times 1.02, rounded to whole cents.
pub proof fn lemma_total_at_three(amount: int)
    ensures
        installment_total_spec(amount, 3) == (amount * 102 + 50) / 100,
{
}

/// Twelve installments bear ten months of interest: the total is the
/// amount times 1.20, rounded to whole cents.
pub proof fn lemma_total_at_twelve(amount: int)
    ensures
        installment_total_spec(amount, 12) == (amount * 120 + 50) / 100,
{
}

/// The ceiling-division property of the per-installment charge: `n`
/// installments of `ceil_div(total, n)` cover `total`, and overshoot it
/// by less than one installment's worth of cents.
pub proof fn lemma_installments_cover_total(total: int, n: int)
    requires
        total >= 0,
        n >= 1,
    ensures
        ceil_div(total, n) * n >= total,
        ceil_div(total, n) * n - total < n,
{
    let x = total + n - 1;
    lemma_fundamental_div_mod(x, n);
    lemma_mod_bound(x, n);
    vstd::arithmetic::mul::lemma_mul_is_commutative(x / n, n);
}

/// Instant payment: no installments, no interest, the payable total is
/// the amount itself.
pub struct Pix;

impl Pix {
    pub fn processar(&self, valor_cents: u64, _installments: Option<u8>) -> (r: PaymentResult)
        requires
            valor_cents <= u32::MAX,
        ensures
            r.installments is None,
            r.interest_cents == 0,
            r.total_with_interest_cents == valor_cents,
            r.installment_value_cents is None,
            r.message@ == pix_message(valor_cents as int),
    {
        let mut message = String::from_str("Pago ");
        let brl = format_brl(valor_cents as u32);
        message.append(brl.as_str());
        message.append(" via PIX");
        PaymentResult {
            installments: None,
            interest_cents: 0,
            total_with_interest_cents: valor_cents,
            installment_value_cents: None,
            message,
        }
    }
}

/// Card payment: the amount is split over installments, with simple
/// interest from the third installment on and a ceiling-divided
/// per-installment charge.
pub struct Cartao;

impl Cartao {
    pub fn processar(&self, valor_cents: u64, installments: Option<u8>) -> (r: PaymentResult)
        requires
            valor_cents <= u32::MAX,
            installments matches Some(k) ==> k >= 1,
        ensures
            ({
                let n = effective_installments(installments);
                let total = installment_total_spec(valor_cents as int, n);
                &&& r.installments matches Some(m) && m as int == n
                &&& r.total_with_interest_cents == total
                &&& r.interest_cents == total - valor_cents
                &&& r.installment_value_cents matches Some(v) && v as int == ceil_div(total, n)
                &&& r.message@ == cartao_message(valor_cents as int)
            }),
    {
        let n: u8 = match installments {
            Some(k) => k,
            None => 1,
        };
        let total_with_interest_cents: u64 = if n >= 3 {
            let meses: u64 = (n - 2) as u64;
            proof {
                assert(valor_cents * (100 + JUROS_PERCENT_A_M * meses) + 50 <= u64::MAX)
                    by (nonlinear_arith)
                    requires
                        valor_cents <= u32::MAX,
                        meses <= 253,
                ;
            }
            (valor_cents * (100 + JUROS_PERCENT_A_M * meses) + 50) / 100
        } else {
            valor_cents
        };
        proof {
            lemma_total_at_least_amount(valor_cents as int, n as int);
        }
        let interest_cents = if total_with_interest_cents > valor_cents {
            total_with_interest_cents - valor_cents
        } else {
            0
        };
        let nn = n as u64;
        let installment_value = (total_with_interest_cents + nn - 1) / nn;
        let mut message = String::from_str("Pago ");
        let brl = format_brl(valor_cents as u32);
        message.append(brl.as_str());
        message.append(" via Cartão");
        PaymentResult {
            installments: Some(n),
            interest_cents,
            total_with_interest_cents,
            installment_value_cents: Some(installment_value),
            message,
        }
    }
}

/// The closed set of payment variants, selected by the method string.
#[derive(Clone, Copy, Debug, PartialEq, Eq, Structural)]
pub enum PaymentKind {
    Instant,
    Installment,
}

/// Whether a method string names the card-installment variant; every
/// unrecognized method falls back to the instant variant.
pub open spec fn method_kind(metodo: Seq<char>) -> PaymentKind {
    if metodo == "credit"@ || metodo == "installment"@ {
        PaymentKind::Installment
    } else {
        PaymentKind::Instant
    }
}

/// Selects the payment variant for a method string.
pub fn escolher_pagamento(metodo: &str) -> (r: PaymentKind)
    ensures
        r == method_kind(metodo@),
{
    if crate::strings::str_eq(metodo, "credit") || crate::strings::str_eq(metodo, "installment") {
        PaymentKind::Installment
    } else {
        PaymentKind::Instant
    }
}

impl PaymentKind {
    /// Runs the variant's arithmetic on `valor_cents`.
    pub fn processar(&self, valor_cents: u64, installments: Option<u8>) -> (r: PaymentResult)
        requires
            valor_cents <= u32::MAX,
            *self is Installment ==> effective_installments(installments) >= 1,
        ensures
            *self is Instant ==> {
                &&& r.installments is None
                &&& r.interest_cents == 0
                &&& r.total_with_interest_cents == valor_cents
                &&& r.installment_value_cents is None
                &&& r.message@ == pix_message(valor_cents as int)
            },
            *self is Installment ==> ({
                let n = effective_installments(installments);
                let total = installment_total_spec(valor_cents as int, n);
                &&& r.installments matches Some(m) && m as int == n
                &&& r.total_with_interest_cents == total
                &&& r.interest_cents == total - valor_cents
                &&& r.installment_value_cents matches Some(v) && v as int == ceil_div(total, n)
                &&& r.message@ == cartao_message(valor_cents as int)
            }),
    {
        match *self {
            PaymentKind::Instant => Pix.processar(valor_cents, installments),
            PaymentKind::Installment => Cartao.processar(valor_cents, installments),
        }
    }
}

} // verus!
