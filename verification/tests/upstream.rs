use solana_validator_optimizer::upstream::{
    balance_response, epoch_info_response, plan_upstream, UpstreamPlan,
};

#[test]
fn balance_key_with_valid_address() {
    let plan = plan_upstream("getBalance:11111111111111111111111111111111");
    assert_eq!(
        plan,
        UpstreamPlan::Balance {
            address: "11111111111111111111111111111111".to_string(),
            pubkey: [0u8; 32]
        }
    );
}

#[test]
fn balance_key_with_real_address() {
    match plan_upstream("getBalance:9Vpj7yMy7V7ojAB8BoS5efZLTi3kWJv3bXWQ7vLxB4vG") {
        UpstreamPlan::Balance { address, pubkey } => {
            assert_eq!(address, "9Vpj7yMy7V7ojAB8BoS5efZLTi3kWJv3bXWQ7vLxB4vG");
            assert_ne!(pubkey, [0u8; 32]);
        }
        other => panic!("unexpected plan {:?}", other),
    }
}

#[test]
fn balance_key_with_invalid_characters() {
    assert_eq!(
        plan_upstream("getBalance:0OIl"),
        UpstreamPlan::Respond("Error: Invalid Base58 string".to_string())
    );
}

#[test]
fn balance_key_with_short_address() {
    assert_eq!(
        plan_upstream("getBalance:abc"),
        UpstreamPlan::Respond("Error: String is the wrong size".to_string())
    );
}

#[test]
fn epoch_and_unsupported_keys() {
    assert_eq!(plan_upstream("getEpochInfo"), UpstreamPlan::EpochInfo);
    assert_eq!(
        plan_upstream("getEpochInfo2"),
        UpstreamPlan::Respond("Unsupported RPC key".to_string())
    );
    assert_eq!(
        plan_upstream("getSlot"),
        UpstreamPlan::Respond("Unsupported RPC key".to_string())
    );
}

#[test]
fn responses_are_formatted() {
    assert_eq!(
        balance_response("Abc", Ok(1_234_567)),
        "Balance for Abc: 1234567 lamports"
    );
    assert_eq!(balance_response("Abc", Ok(0)), "Balance for Abc: 0 lamports");
    assert_eq!(
        balance_response("Abc", Err("timeout".to_string())),
        "Error: timeout"
    );
    assert_eq!(
        epoch_info_response(Ok((612, 264_424_123, 242_600_000))),
        "Epoch: 612, Slot: 264424123, Block height: 242600000"
    );
    assert_eq!(
        epoch_info_response(Err("boom".to_string())),
        "Error: boom"
    );
}
