use alloy_primitives::Address;
use ensip25::erc7930::InteropAddress;
use ensip25::error::Error;
use ensip25::record_key::{evm_record_key, record_key};

fn registry() -> Address {
    "0x8004A169FB4a3325136EB29fA0ceB6D2e539a432"
        .parse()
        .expect("valid")
}

/// ENSIP-25 spec example: agent 167 in the ERC-8004 `IdentityRegistry` on
/// Ethereum mainnet.
#[test]
fn ensip25_spec_example() {
    let registry: Address = "0x8004A169FB4a3325136EB29fA0ceB6D2e539a432"
        .parse()
        .expect("valid");
    let key = evm_record_key(1, registry.into_array(), 167).expect("valid key");
    assert_eq!(
        key,
        "agent-registration[0x000100000101148004a169fb4a3325136eb29fa0ceb6d2e539a432][167]"
    );
}

/// The blog post example uses agent 42.
#[test]
fn blog_example_agent_42() {
    let registry: Address = "0x8004A169FB4a3325136EB29fA0ceB6D2e539a432"
        .parse()
        .expect("valid");
    let key = evm_record_key(1, registry.into_array(), 42).expect("valid key");
    assert_eq!(
        key,
        "agent-registration[0x000100000101148004a169fb4a3325136eb29fa0ceb6d2e539a432][42]"
    );
}

/// An agent id with brackets is rejected.
#[test]
fn invalid_agent_id_brackets() {
    let ia = InteropAddress::evm(1, registry().into_array());
    assert!(record_key(&ia, "foo[bar]").is_err());
}

/// An agent id with only `[` is rejected.
#[test]
fn invalid_agent_id_open_bracket() {
    let ia = InteropAddress::evm(1, registry().into_array());
    assert!(record_key(&ia, "foo[").is_err());
}

/// An agent id with only `]` is rejected.
#[test]
fn invalid_agent_id_close_bracket() {
    let ia = InteropAddress::evm(1, registry().into_array());
    assert!(record_key(&ia, "]bar").is_err());
}

/// An empty agent id is accepted.
#[test]
fn empty_agent_id_is_valid() {
    let ia = InteropAddress::evm(1, registry().into_array());
    let key = record_key(&ia, "").expect("valid key");
    assert!(key.ends_with("[]"));
}

/// Generic `record_key` with a pre-built `InteropAddress`.
#[test]
fn generic_record_key() {
    let ia = InteropAddress::evm(1, registry().into_array());
    let key = record_key(&ia, "42").expect("valid key");
    assert!(key.starts_with("agent-registration[0x"));
    assert!(key.ends_with("][42]"));
}

#[test]
fn official_example_agent_26433() {
    let key = evm_record_key(1, registry().into_array(), 26433).unwrap();
    assert_eq!(
        key,
        "agent-registration[0x000100000101148004a169fb4a3325136eb29fa0ceb6d2e539a432][26433]"
    );
}

#[test]
fn invalid_agent_id_error_carries_the_id() {
    let ia = InteropAddress::evm(1, registry().into_array());
    assert_eq!(
        record_key(&ia, "x]y"),
        Err(Error::InvalidAgentId { agent_id: "x]y".to_string() })
    );
}

#[test]
fn record_key_keeps_any_other_text() {
    let ia = InteropAddress::evm_no_chain(registry().into_array());
    let key = record_key(&ia, "agent #7 (é)").unwrap();
    assert_eq!(
        key,
        "agent-registration[0x0001000000148004a169fb4a3325136eb29fa0ceb6d2e539a432][agent #7 (é)]"
    );
}

#[test]
fn evm_record_key_decimal_extremes() {
    let zero = evm_record_key(0, registry().into_array(), 0).unwrap();
    assert!(zero.ends_with("][0]"));
    assert!(zero.starts_with("agent-registration[0x0001000001"));
    let max = evm_record_key(1, registry().into_array(), u64::MAX).unwrap();
    assert!(max.ends_with("][18446744073709551615]"));
    assert_eq!(
        evm_record_key(1, registry().into_array(), 1_000).unwrap(),
        record_key(&InteropAddress::evm(1, registry().into_array()), "1000").unwrap()
    );
}

#[test]
fn distinct_inputs_give_distinct_keys() {
    let a = evm_record_key(1, registry().into_array(), 12).unwrap();
    let b = evm_record_key(11, registry().into_array(), 2).unwrap();
    let c = evm_record_key(1, registry().into_array(), 2).unwrap();
    assert_ne!(a, b);
    assert_ne!(a, c);
    assert_ne!(b, c);
}

#[test]
fn bracket_id_is_rejected_before_the_registry_is_encoded() {
    let oversized = InteropAddress { version: 1, chain_type: 0, chain_ref: vec![0; 300], address: vec![1] };
    assert_eq!(
        record_key(&oversized, "a["),
        Err(Error::InvalidAgentId { agent_id: "a[".to_string() })
    );
}
