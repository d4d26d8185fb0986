//! The checkout orchestrator: validates the cart and the request,
//! resolves the effective payment method, runs the payment engine on
//! the cart subtotal, and clears the cart once a confirmation has been
//! computed. Persisting the order is the caller's concern and never
//! blocks the confirmation.

use vstd::prelude::*;
use crate::cart::{item_matches, subtotal_of, Cart, CartItem};
use crate::email::{email_spec, is_valid_email};
use crate::errors::StoreError;
use crate::ids::fresh_token;
use crate::payment::{
    cartao_message, ceil_div, effective_installments, escolher_pagamento, installment_total_spec,
    method_kind, pix_message, PaymentKind,
};
use crate::strings::{trim_spec, trim_str};

verus! {

/// The payment selection of a checkout request.
pub struct CheckoutPaymentInput {
    pub method: String,
    pub installments: Option<u8>,
}

/// A checkout request: the payment selection (the older flat field is
/// honoured when the structured one is absent) and the customer email.
pub struct CheckoutInput {
    pub payment_method: Option<String>,
    pub payment: Option<CheckoutPaymentInput>,
    pub customer_email: Option<String>,
}

/// The order confirmation returned to the caller.
pub struct CheckoutResponse {
    pub order_id: String,
    pub status: String,
    pub total_cents: u32,
    pub message: String,
    pub items: Vec<CartItem>,
    pub mensagem_pagamento: Option<String>,
    pub payment_method: Option<String>,
    pub installments: Option<u8>,
    pub interest_cents: Option<u64>,
    pub total_with_interest_cents: Option<u64>,
    pub installment_value_cents: Option<u64>,
}

/// The method string the checkout effectively uses: the structured
/// selection, else the flat field, else a default by total — above
/// 5000 cents installments, otherwise instant.
pub open spec fn effective_method(input: CheckoutInput, total: int) -> Seq<char> {
    match input.payment {
        Some(p) => p.method@,
        None => match input.payment_method {
            Some(m) => m@,
            None => if total > 5000 {
                "credit"@
            } else {
                "pix"@
            },
        },
    }
}

/// The installment count the request supplies, if any; only the
/// structured selection carries one.
pub open spec fn requested_installments(input: CheckoutInput) -> Option<u8> {
    match input.payment {
        Some(p) => p.installments,
        None => None,
    }
}

/// Whether the request carries an email of the accepted shape, after
/// trimming.
pub open spec fn email_ok(input: CheckoutInput) -> bool {
    match input.customer_email {
        Some(e) => email_spec(trim_spec(e@)),
        None => false,
    }
}

/// Whether the installment count is acceptable for the effective
/// method: the installment variant takes 1 to 12, the instant variant
/// ignores it.
pub open spec fn installments_ok(input: CheckoutInput, total: int) -> bool {
    method_kind(effective_method(input, total)) is Installment ==> 1 <= effective_installments(
        requested_installments(input),
    ) <= 12
}

/// Checkout: fails on an empty cart, a missing or malformed email, and
/// an out-of-range installment count, in that order; otherwise runs the
/// payment engine on the subtotal, empties the cart, and returns the
/// confirmation.
pub fn checkout(cart: &mut Cart, input: &CheckoutInput) -> (r: Result<
    CheckoutResponse,
    StoreError,
>)
    requires
        old(cart).wf(),
    ensures
        final(cart).wf(),
        (r == Err::<CheckoutResponse, StoreError>(StoreError::EmptyCart)) <==> old(cart)@.len()
            == 0,
        (r == Err::<CheckoutResponse, StoreError>(StoreError::InvalidEmail)) <==> (old(
            cart,
        )@.len() > 0 && !email_ok(*input)),
        (r == Err::<CheckoutResponse, StoreError>(StoreError::InvalidInstallments)) <==> (old(
            cart,
        )@.len() > 0 && email_ok(*input) && !installments_ok(*input, subtotal_of(old(cart)@))),
        r is Ok <==> (old(cart)@.len() > 0 && email_ok(*input) && installments_ok(
            *input,
            subtotal_of(old(cart)@),
        )),
        r is Err ==> final(cart)@ == old(cart)@,
        r is Ok ==> final(cart)@.len() == 0,
        r matches Ok(resp) ==> ({
            let total = subtotal_of(old(cart)@);
            let kind = method_kind(effective_method(*input, total));
            let n = effective_installments(requested_installments(*input));
            let with_interest = installment_total_spec(total, n);
            &&& resp.total_cents == total
            &&& resp.status@ == "paid"@
            &&& resp.message@ == "Pedido processado com sucesso"@
            &&& resp.order_id@.len() > 0
            &&& resp.items@.len() == old(cart)@.len()
            &&& forall|i: int|
                0 <= i < old(cart)@.len() ==> item_matches(#[trigger] resp.items@[i], old(cart)@[i])
            &&& resp.payment_method matches Some(m) && m@ == effective_method(*input, total)
            &&& kind is Instant ==> resp.installments is None && resp.interest_cents == Some(0u64)
                && resp.total_with_interest_cents == Some(total as u64)
                && resp.installment_value_cents is None && (resp.mensagem_pagamento matches Some(
                pm,
            ) && pm@ == pix_message(total))
            &&& kind is Installment ==> (resp.installments matches Some(m) && m as int == n) && (
            resp.interest_cents matches Some(ic) && ic == with_interest - total) && (
            resp.total_with_interest_cents matches Some(tw) && tw == with_interest) && (
            resp.installment_value_cents matches Some(iv) && iv as int == ceil_div(
                with_interest,
                n,
            )) && (resp.mensagem_pagamento matches Some(pm) && pm@ == cartao_message(total))
        }),
{
    if cart.is_empty() {
        return Err(StoreError::EmptyCart);
    }
    let email_valid = match &input.customer_email {
        Some(e) => is_valid_email(trim_str(e.as_str())),
        None => false,
    };
    if !email_valid {
        return Err(StoreError::InvalidEmail);
    }
    let (items, total_cents) = cart.snapshot();
    let metodo: String = match &input.payment {
        Some(p) => p.method.clone(),
        None => match &input.payment_method {
            Some(m) => m.clone(),
            None => {
                if total_cents > 5000 {
                    String::from_str("credit")
                } else {
                    String::from_str("pix")
                }
            },
        },
    };
    let kind = escolher_pagamento(metodo.as_str());
    let requested: Option<u8> = match &input.payment {
        Some(p) => p.installments,
        None => None,
    };
    let installments: Option<u8> = match kind {
        PaymentKind::Installment => {
            let n: u8 = match requested {
                Some(k) => k,
                None => 1,
            };
            if n == 0 || n > 12 {
                return Err(StoreError::InvalidInstallments);
            }
            Some(n)
        },
        PaymentKind::Instant => None,
    };
    let pr = kind.processar(total_cents as u64, installments);
    let order_id = fresh_token();
    cart.clear();
    Ok(
        CheckoutResponse {
            order_id,
            status: String::from_str("paid"),
            total_cents,
            message: String::from_str("Pedido processado com sucesso"),
            items,
            mensagem_pagamento: Some(pr.message),
            payment_method: Some(metodo),
            installments: pr.installments,
            interest_cents: Some(pr.interest_cents),
            total_with_interest_cents: Some(pr.total_with_interest_cents),
            installment_value_cents: pr.installment_value_cents,
        },
    )
}

} // verus!
