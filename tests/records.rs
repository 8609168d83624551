use nft_ica::coordinator::strip_port_prefix;
use nft_ica::error::ContractError;
use nft_ica::receipt::{contract_address, sanitize_address, Attribute, Event, SubMsgOutcome};
use nft_ica::state::{
    get_tx_history_prefix, token_id, CosmosMsgKind, IcaCommand, TransactionMsgType,
    TransactionRecord, TransactionStatus,
};

#[test]
fn token_ids_count_in_decimal() {
    assert_eq!(token_id(0), "ica-token-0");
    assert_eq!(token_id(7), "ica-token-7");
    assert_eq!(token_id(10), "ica-token-10");
    assert_eq!(token_id(1234), "ica-token-1234");
    assert_eq!(token_id(u64::MAX), "ica-token-18446744073709551615");
}

#[test]
fn history_prefix_is_prefix_and_token() {
    assert_eq!(get_tx_history_prefix("ica-token-0"), "tx_history_ica-token-0");
    assert_eq!(get_tx_history_prefix(""), "tx_history_");
}

#[test]
fn single_messages_are_categorised() {
    let cases = [
        (CosmosMsgKind::Bank, TransactionMsgType::Send),
        (CosmosMsgKind::Custom, TransactionMsgType::Custom),
        (CosmosMsgKind::Delegate, TransactionMsgType::Delegate),
        (CosmosMsgKind::Undelegate, TransactionMsgType::Undelegate),
        (CosmosMsgKind::Redelegate, TransactionMsgType::Redelegate),
        (CosmosMsgKind::Stargate, TransactionMsgType::Stargate),
        (CosmosMsgKind::Distribution, TransactionMsgType::Distribution),
        (CosmosMsgKind::Gov, TransactionMsgType::Vote),
        (CosmosMsgKind::Wasm, TransactionMsgType::Wasm),
        (CosmosMsgKind::Ibc, TransactionMsgType::Ibc),
        (CosmosMsgKind::Other, TransactionMsgType::Unknown),
    ];
    for (kind, expected) in cases {
        assert_eq!(TransactionMsgType::from_cosmos_msg(&kind), expected);
    }
}

#[test]
fn commands_are_recorded_by_shape() {
    let empty = IcaCommand::SendCosmosMsgs { messages: vec![] };
    let one = IcaCommand::SendCosmosMsgs { messages: vec![CosmosMsgKind::Bank] };
    let many = IcaCommand::SendCosmosMsgs {
        messages: vec![CosmosMsgKind::Bank, CosmosMsgKind::Gov],
    };
    let rec = TransactionRecord::from_ica_msg(&empty, "tok", "alice", 5, 9);
    assert_eq!(rec.msg_type, TransactionMsgType::Empty);
    assert_eq!(rec.status, TransactionStatus::Pending);
    assert_eq!(rec.token_id, "tok");
    assert_eq!(rec.owner, "alice");
    assert_eq!(rec.block_height, 5);
    assert_eq!(rec.timestamp, 9);
    let rec = TransactionRecord::from_ica_msg(&one, "tok", "alice", 5, 9);
    assert_eq!(rec.msg_type, TransactionMsgType::Send);
    let rec = TransactionRecord::from_ica_msg(&many, "tok", "alice", 5, 9);
    assert_eq!(rec.msg_type, TransactionMsgType::MultiMsg);
    let rec = TransactionRecord::from_ica_msg(&IcaCommand::SendCustomIcaMessages, "tok", "a", 1, 2);
    assert_eq!(rec.msg_type, TransactionMsgType::Custom);
    let rec = TransactionRecord::from_ica_msg(&IcaCommand::CreateChannel, "tok", "a", 1, 2);
    assert_eq!(rec.msg_type, TransactionMsgType::ChannelOpen);
    assert_eq!(rec.status, TransactionStatus::Pending);
    let rec = TransactionRecord::from_ica_msg(&IcaCommand::Other, "tok", "a", 1, 2);
    assert_eq!(rec.msg_type, TransactionMsgType::Control);
}

#[test]
fn port_prefix_names_the_controller() {
    assert_eq!(strip_port_prefix("wasm.ctrl1"), Some("ctrl1".to_string()));
    assert_eq!(strip_port_prefix("wasm."), Some(String::new()));
    assert_eq!(strip_port_prefix("icacontroller-ctrl1"), None);
    assert_eq!(strip_port_prefix("wasm"), None);
}

#[test]
fn sanitizing_drops_quotes_and_punctuation() {
    assert_eq!(sanitize_address("\"secret1abc\""), "secret1abc");
    assert_eq!(sanitize_address("a-b_c 1"), "abc1");
    assert_eq!(sanitize_address(""), "");
}

fn attr(key: &str, value: &str) -> Attribute {
    Attribute { key: key.to_string(), value: value.to_string() }
}

#[test]
fn receipt_address_comes_from_first_instantiate_event() {
    let events = vec![
        Event { ty: "wasm".to_string(), attributes: vec![attr("_contract_address", "wrong")] },
        Event {
            ty: "instantiate".to_string(),
            attributes: vec![attr("code_id", "4"), attr("_contract_address", "\"cosmos1xyz\"")],
        },
        Event { ty: "instantiate".to_string(), attributes: vec![attr("contract_address", "later")] },
    ];
    assert_eq!(contract_address(&SubMsgOutcome::Succeeded(events)).unwrap(), "cosmos1xyz");

    let events = vec![Event {
        ty: "cosmwasm.wasm.v1.EventContractInstantiated".to_string(),
        attributes: vec![attr("contract_address", "cosmos1abc")],
    }];
    assert_eq!(contract_address(&SubMsgOutcome::Succeeded(events)).unwrap(), "cosmos1abc");
}

#[test]
fn receipt_errors() {
    assert_eq!(
        contract_address(&SubMsgOutcome::Failed("out of gas".to_string())),
        Err(ContractError::SubMsgFailed("out of gas".to_string()))
    );
    let no_event = vec![Event { ty: "wasm".to_string(), attributes: vec![] }];
    assert_eq!(
        contract_address(&SubMsgOutcome::Succeeded(no_event)),
        Err(ContractError::InstantiateEventNotFound)
    );
    let no_attr = vec![
        Event { ty: "instantiate".to_string(), attributes: vec![attr("code_id", "1")] },
        Event { ty: "instantiate".to_string(), attributes: vec![attr("contract_address", "x")] },
    ];
    assert_eq!(
        contract_address(&SubMsgOutcome::Succeeded(no_attr)),
        Err(ContractError::ContractAddressNotFound)
    );
}
