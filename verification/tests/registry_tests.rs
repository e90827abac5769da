use intent_registry::Contract;
use intent_registry::IntentError;
use intent_registry::PaymentIntentInput;

fn setup(owner: &str) -> Contract {
    Contract::new(owner.to_string())
}

fn sample_input(id: &str) -> PaymentIntentInput {
    PaymentIntentInput {
        id: id.to_string(),
        payment_id: "payment-123".to_string(),
        dest_chain: "ethereum-sepolia".to_string(),
        dest_asset: "ETH".to_string(),
        dest_address: "0xBob".to_string(),
        amount_atomic: "1000".to_string(),
        decimals: 18,
        zcash_burn_txid: "burn123".to_string(),
        created_at: "1".to_string(),
        fulfilled: false,
        payout_tx_hash: None,
    }
}

#[test]
fn create_and_list_intent() {
    let mut contract = setup("alice.testnet");
    contract
        .create_intent("alice.testnet".to_string(), sample_input("intent-1"))
        .unwrap();

    let open = contract.list_open_intents();
    assert_eq!(open.len(), 1);
    assert_eq!(open[0].id, "intent-1");
}

#[test]
fn mark_intent_fulfilled() {
    let mut contract = setup("alice.testnet");
    contract
        .create_intent("alice.testnet".to_string(), sample_input("intent-1"))
        .unwrap();

    contract
        .mark_fulfilled(
            "alice.testnet".to_string(),
            "intent-1".to_string(),
            "payout-hash".to_string(),
        )
        .unwrap();

    let intent = contract.get_intent("intent-1".to_string()).unwrap();
    assert!(intent.fulfilled);
    assert_eq!(intent.payout_tx_hash, Some("payout-hash".to_string()));
}

#[test]
fn create_stores_record_field_by_field() {
    let mut contract = setup("alice");
    let mut input = sample_input("i1");
    input.amount_atomic = "500".to_string();
    input.created_at = "10".to_string();
    contract.create_intent("alice".to_string(), input).unwrap();

    let got = contract.get_intent("i1".to_string()).unwrap();
    assert_eq!(got.id, "i1");
    assert_eq!(got.payment_id, "payment-123");
    assert_eq!(got.dest_chain, "ethereum-sepolia");
    assert_eq!(got.dest_asset, "ETH");
    assert_eq!(got.dest_address, "0xBob");
    assert_eq!(got.amount_atomic, 500u128);
    assert_eq!(got.decimals, 18);
    assert_eq!(got.zcash_burn_txid, "burn123");
    assert_eq!(got.created_at, 10u64);
    assert!(!got.fulfilled);
    assert_eq!(got.payout_tx_hash, None);
}

#[test]
fn create_by_non_owner_rejected() {
    let mut contract = setup("alice");
    let r = contract.create_intent("mallory".to_string(), sample_input("i1"));
    assert_eq!(r, Err(IntentError::Unauthorized));
    assert_eq!(contract.intents().len(), 0);
    assert!(contract.get_intent("i1".to_string()).is_none());
}

#[test]
fn list_open_on_empty_store_is_empty() {
    let contract = setup("alice");
    assert!(contract.list_open_intents().is_empty());
}

#[test]
fn list_open_is_unfulfilled_subset_in_creation_order() {
    let mut contract = setup("alice");
    contract.create_intent("alice".to_string(), sample_input("i1")).unwrap();
    let mut closed = sample_input("i2");
    closed.fulfilled = true;
    contract.create_intent("alice".to_string(), closed).unwrap();
    contract.create_intent("alice".to_string(), sample_input("i3")).unwrap();

    let open = contract.list_open_intents();
    assert_eq!(open.len(), 2);
    assert_eq!(open[0].id, "i1");
    assert_eq!(open[1].id, "i3");
}

#[test]
fn fulfilled_intent_leaves_open_list() {
    let mut contract = setup("alice");
    let mut input = sample_input("i1");
    input.amount_atomic = "500".to_string();
    input.created_at = "10".to_string();
    contract.create_intent("alice".to_string(), input).unwrap();
    let open = contract.list_open_intents();
    assert_eq!(open.len(), 1);
    assert_eq!(open[0].id, "i1");

    contract
        .mark_fulfilled("alice".to_string(), "i1".to_string(), "0xHASH".to_string())
        .unwrap();
    assert!(contract.list_open_intents().is_empty());
    let got = contract.get_intent("i1".to_string()).unwrap();
    assert!(got.fulfilled);
    assert_eq!(got.payout_tx_hash, Some("0xHASH".to_string()));
}

#[test]
fn mark_fulfilled_on_missing_id_is_silent_noop() {
    let mut contract = setup("alice");
    contract.create_intent("alice".to_string(), sample_input("i1")).unwrap();

    let r = contract.mark_fulfilled(
        "alice".to_string(),
        "no-such-id".to_string(),
        "0xHASH".to_string(),
    );
    assert_eq!(r, Ok(()));
    assert_eq!(contract.intents().len(), 1);
    let got = contract.get_intent("i1".to_string()).unwrap();
    assert!(!got.fulfilled);
    assert_eq!(got.payout_tx_hash, None);
    assert_eq!(got.amount_atomic, 1000u128);
}

#[test]
fn mark_fulfilled_by_non_owner_rejected() {
    let mut contract = setup("alice");
    contract.create_intent("alice".to_string(), sample_input("i1")).unwrap();

    let r = contract.mark_fulfilled(
        "mallory".to_string(),
        "i1".to_string(),
        "0xHASH".to_string(),
    );
    assert_eq!(r, Err(IntentError::Unauthorized));
    let got = contract.get_intent("i1".to_string()).unwrap();
    assert!(!got.fulfilled);
    assert_eq!(got.payout_tx_hash, None);
}

#[test]
fn malformed_amount_creates_zero_amount_intent() {
    let mut contract = setup("alice");
    let mut input = sample_input("i1");
    input.amount_atomic = "not-a-number".to_string();
    let r = contract.create_intent("alice".to_string(), input);
    assert_eq!(r, Ok(()));
    let got = contract.get_intent("i1".to_string()).unwrap();
    assert_eq!(got.amount_atomic, 0u128);
}

#[test]
fn duplicate_ids_first_match_wins() {
    let mut contract = setup("alice");
    let mut first = sample_input("dup");
    first.amount_atomic = "1".to_string();
    contract.create_intent("alice".to_string(), first).unwrap();
    let mut second = sample_input("dup");
    second.amount_atomic = "2".to_string();
    contract.create_intent("alice".to_string(), second).unwrap();

    assert_eq!(
        contract.get_intent("dup".to_string()).unwrap().amount_atomic,
        1u128
    );

    contract
        .mark_fulfilled("alice".to_string(), "dup".to_string(), "h".to_string())
        .unwrap();
    // Only the first match is fulfilled; the later duplicate stays open.
    let open = contract.list_open_intents();
    assert_eq!(open.len(), 1);
    assert_eq!(open[0].id, "dup");
    assert_eq!(open[0].amount_atomic, 2u128);
    let got = contract.get_intent("dup".to_string()).unwrap();
    assert!(got.fulfilled);
    assert_eq!(got.payout_tx_hash, Some("h".to_string()));
}

#[test]
fn creation_may_bypass_lifecycle() {
    // The input schema permits an intent born fulfilled, without a hash.
    let mut contract = setup("alice");
    let mut input = sample_input("pre-closed");
    input.fulfilled = true;
    contract.create_intent("alice".to_string(), input).unwrap();

    assert!(contract.list_open_intents().is_empty());
    let got = contract.get_intent("pre-closed".to_string()).unwrap();
    assert!(got.fulfilled);
    assert_eq!(got.payout_tx_hash, None);
}

#[test]
fn owner_and_parts_round_trip() {
    let mut contract = setup("alice");
    contract.create_intent("alice".to_string(), sample_input("i1")).unwrap();
    assert_eq!(contract.owner(), "alice");

    let copies: Vec<intent_registry::PaymentIntent> =
        contract.intents().iter().map(|p| p.clone()).collect();
    let rebuilt = Contract::from_parts(copies, contract.owner().clone());
    assert_eq!(rebuilt.intents().len(), 1);
    assert_eq!(rebuilt.get_intent("i1".to_string()).unwrap().id, "i1");
}
