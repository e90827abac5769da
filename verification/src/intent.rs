//! The payment-intent record and its wire-side input form.

use crate::parse::u128_or_zero;
use crate::parse::u64_or_zero;
use vstd::prelude::*;

verus! {

/// A payout to be performed on a destination chain, awaiting solver execution.
///
/// `id` is caller-supplied and not checked for uniqueness; lookups return the
/// first match in insertion order. The intended invariant
/// `payout_tx_hash is Some <==> fulfilled` is not enforced at creation time:
/// the input form lets a caller create an intent that is already fulfilled,
/// with or without a hash.
pub struct PaymentIntent {
    /// Opaque identifier for this intent.
    pub id: String,
    /// Backend payment record this intent correlates to.
    pub payment_id: String,
    /// Destination chain, e.g. "ethereum-sepolia".
    pub dest_chain: String,
    /// Destination asset, e.g. "ETH".
    pub dest_asset: String,
    /// Recipient address on the destination chain.
    pub dest_address: String,
    /// Amount in the smallest representable unit of `dest_asset`.
    pub amount_atomic: u128,
    /// Decimal places of `dest_asset`; any value is accepted.
    pub decimals: u8,
    /// Optional burn provenance reference, opaque to the registry.
    pub zcash_burn_txid: String,
    /// Milliseconds since epoch, caller-supplied and not checked.
    pub created_at: u64,
    /// Whether the solver has paid out.
    pub fulfilled: bool,
    /// Set when fulfilled through the normal transition; absent otherwise.
    pub payout_tx_hash: Option<String>,
}

/// The mathematical value of a [`PaymentIntent`].
#[verifier::ext_equal]
pub ghost struct IntentView {
    pub id: Seq<char>,
    pub payment_id: Seq<char>,
    pub dest_chain: Seq<char>,
    pub dest_asset: Seq<char>,
    pub dest_address: Seq<char>,
    pub amount_atomic: u128,
    pub decimals: u8,
    pub zcash_burn_txid: Seq<char>,
    pub created_at: u64,
    pub fulfilled: bool,
    pub payout_tx_hash: Option<Seq<char>>,
}

/// The view of an optional string.
pub open spec fn opt_str_view(o: Option<String>) -> Option<Seq<char>> {
    match o {
        Some(s) => Some(s@),
        None => None,
    }
}

impl View for PaymentIntent {
    type V = IntentView;

    open spec fn view(&self) -> IntentView {
        IntentView {
            id: self.id@,
            payment_id: self.payment_id@,
            dest_chain: self.dest_chain@,
            dest_asset: self.dest_asset@,
            dest_address: self.dest_address@,
            amount_atomic: self.amount_atomic,
            decimals: self.decimals,
            zcash_burn_txid: self.zcash_burn_txid@,
            created_at: self.created_at,
            fulfilled: self.fulfilled,
            payout_tx_hash: opt_str_view(self.payout_tx_hash),
        }
    }
}

impl Clone for PaymentIntent {
    /// An intent copy carries exactly the same record.
    fn clone(&self) -> (res: Self)
        ensures
            res@ == self@,
    {
        PaymentIntent {
            id: self.id.clone(),
            payment_id: self.payment_id.clone(),
            dest_chain: self.dest_chain.clone(),
            dest_asset: self.dest_asset.clone(),
            dest_address: self.dest_address.clone(),
            amount_atomic: self.amount_atomic,
            decimals: self.decimals,
            zcash_burn_txid: self.zcash_burn_txid.clone(),
            created_at: self.created_at,
            fulfilled: self.fulfilled,
            payout_tx_hash: match &self.payout_tx_hash {
                Some(h) => Some(h.clone()),
                None => None,
            },
        }
    }
}

/// An intent as posted by the orchestrator: the numeric fields arrive as
/// decimal text so that their magnitudes survive number-based interchange
/// formats without precision loss.
pub struct PaymentIntentInput {
    pub id: String,
    pub payment_id: String,
    pub dest_chain: String,
    pub dest_asset: String,
    pub dest_address: String,
    /// Decimal text; decoded under the fallback-to-zero policy.
    pub amount_atomic: String,
    pub decimals: u8,
    pub zcash_burn_txid: String,
    /// Decimal text; decoded under the fallback-to-zero policy.
    pub created_at: String,
    pub fulfilled: bool,
    pub payout_tx_hash: Option<String>,
}

/// The mathematical value of a [`PaymentIntentInput`].
#[verifier::ext_equal]
pub ghost struct IntentInputView {
    pub id: Seq<char>,
    pub payment_id: Seq<char>,
    pub dest_chain: Seq<char>,
    pub dest_asset: Seq<char>,
    pub dest_address: Seq<char>,
    pub amount_atomic: Seq<char>,
    pub decimals: u8,
    pub zcash_burn_txid: Seq<char>,
    pub created_at: Seq<char>,
    pub fulfilled: bool,
    pub payout_tx_hash: Option<Seq<char>>,
}

impl View for PaymentIntentInput {
    type V = IntentInputView;

    open spec fn view(&self) -> IntentInputView {
        IntentInputView {
            id: self.id@,
            payment_id: self.payment_id@,
            dest_chain: self.dest_chain@,
            dest_asset: self.dest_asset@,
            dest_address: self.dest_address@,
            amount_atomic: self.amount_atomic@,
            decimals: self.decimals,
            zcash_burn_txid: self.zcash_burn_txid@,
            created_at: self.created_at@,
            fulfilled: self.fulfilled,
            payout_tx_hash: opt_str_view(self.payout_tx_hash),
        }
    }
}

/// The record that storing an input produces: every field carried over as is,
/// except the two textual numeric fields, which are decoded under the
/// fallback-to-zero policy.
pub open spec fn stored_of(inp: IntentInputView) -> IntentView {
    IntentView {
        id: inp.id,
        payment_id: inp.payment_id,
        dest_chain: inp.dest_chain,
        dest_asset: inp.dest_asset,
        dest_address: inp.dest_address,
        amount_atomic: u128_or_zero(inp.amount_atomic) as u128,
        decimals: inp.decimals,
        zcash_burn_txid: inp.zcash_burn_txid,
        created_at: u64_or_zero(inp.created_at) as u64,
        fulfilled: inp.fulfilled,
        payout_tx_hash: inp.payout_tx_hash,
    }
}

/// The record after the fulfillment transition: `fulfilled` set, the payout
/// hash recorded, everything else untouched.
pub open spec fn fulfilled_with(v: IntentView, h: Seq<char>) -> IntentView {
    IntentView { fulfilled: true, payout_tx_hash: Some(h), ..v }
}

} // verus!
