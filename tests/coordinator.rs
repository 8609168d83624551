use nft_ica::coordinator::{reply_kind, Coordinator};
use nft_ica::error::{ContractError, Missing};
use nft_ica::msg::{ChannelOpenInitOptions, CodeInfo, IcaCallback, Outbound, ReplyKind};
use nft_ica::state::{
    ChannelStatus, CosmosMsgKind, IcaCommand, QueueItem, TransactionMsgType, TransactionStatus,
};

fn options() -> ChannelOpenInitOptions {
    ChannelOpenInitOptions {
        connection_id: "connection-0".to_string(),
        counterparty_connection_id: "connection-1".to_string(),
        counterparty_port_id: None,
        channel_ordering: None,
    }
}

fn coordinator() -> Coordinator {
    let (mut c, request) = Coordinator::instantiate(
        "admin".to_string(),
        CodeInfo { code_id: 7, code_hash: "ctrl-hash".to_string() },
        CodeInfo { code_id: 9, code_hash: "nft-hash".to_string() },
        options(),
    );
    assert_eq!(
        request,
        Outbound::InstantiateLedger { code_id: 9, code_hash: "nft-hash".to_string(), reply_id: 1 }
    );
    c.apply_reply(ReplyKind::Ledger, "ledger".to_string());
    c
}

fn open_ack(channel: &str, ica: &str) -> IcaCallback {
    IcaCallback::ChannelOpenAck { channel_id: channel.to_string(), ica_address: ica.to_string() }
}

fn timeout(ctrl: &str) -> IcaCallback {
    IcaCallback::Timeout { src_port_id: format!("wasm.{}", ctrl) }
}

fn ack(ctrl: &str, success: bool) -> IcaCallback {
    IcaCallback::Acknowledgement { src_port_id: format!("wasm.{}", ctrl), success }
}

fn send(kinds: Vec<CosmosMsgKind>) -> IcaCommand {
    IcaCommand::SendCosmosMsgs { messages: kinds }
}

/// A coordinator with "ica-token-0" minted to alice through controller ctrl1.
fn bound() -> Coordinator {
    let mut c = coordinator();
    c.mint_ica("alice".to_string()).unwrap();
    c.apply_reply(ReplyKind::Controller, "ctrl1".to_string());
    c.receive_ica_callback("ctrl1", open_ack("channel-0", "addr1")).unwrap();
    c
}

#[test]
fn instantiate_records_configuration() {
    let c = coordinator();
    assert_eq!(c.owner(), "admin");
    let state = c.state();
    assert_eq!(state.snip721_address, "ledger");
    assert_eq!(state.snip721_code_hash, "nft-hash");
    assert_eq!(state.ica_controller_code.code_id, 7);
    assert_eq!(state.default_chan_init_options, options());
    assert!(c.get_mint_queue().is_empty());
}

#[test]
fn owner_defaults_to_sender() {
    assert_eq!(Coordinator::chosen_owner(None, "bob".to_string()), "bob");
    assert_eq!(Coordinator::chosen_owner(Some("carol".to_string()), "bob".to_string()), "carol");
}

#[test]
fn only_the_owner_updates_ownership() {
    let mut c = coordinator();
    assert_eq!(c.assert_owner("mallory"), Err(ContractError::Unauthorized));
    assert_eq!(c.assert_owner("admin"), Ok(()));
    assert_eq!(c.update_ownership("mallory", "mallory".to_string()), Err(ContractError::Unauthorized));
    assert_eq!(c.owner(), "admin");
    c.update_ownership("admin", "bob".to_string()).unwrap();
    assert_eq!(c.owner(), "bob");
}

#[test]
fn mint_request_then_first_open_binds_and_mints() {
    let mut c = coordinator();
    let request = c.mint_ica("alice".to_string()).unwrap();
    assert_eq!(
        request,
        Outbound::InstantiateController {
            code_id: 7,
            code_hash: "ctrl-hash".to_string(),
            channel_open_init_options: options(),
            reply_id: 2,
        }
    );
    assert_eq!(
        c.get_mint_queue(),
        vec![QueueItem { token_id: "ica-token-0".to_string(), owner: "alice".to_string() }]
    );
    c.apply_reply(ReplyKind::Controller, "ctrl1".to_string());
    let mint = c.receive_ica_callback("ctrl1", open_ack("channel-0", "addr1")).unwrap();
    assert_eq!(
        mint,
        Some(Outbound::MintToken {
            ledger_address: "ledger".to_string(),
            ledger_code_hash: "nft-hash".to_string(),
            token_id: "ica-token-0".to_string(),
            owner: "alice".to_string(),
            controller_address: "ctrl1".to_string(),
            ica_address: "addr1".to_string(),
        })
    );
    assert!(c.get_mint_queue().is_empty());
    assert_eq!(c.nft_ica_controller_bimap("ctrl1").unwrap(), "ica-token-0");
    assert_eq!(c.nft_ica_controller_bimap("ica-token-0").unwrap(), "ctrl1");
    assert_eq!(c.get_ica_address("ica-token-0").unwrap(), "addr1");
    let channel = c.get_channel_state("ica-token-0").unwrap();
    assert_eq!(channel.status, ChannelStatus::Open);
    assert_eq!(channel.channel_id, Some("channel-0".to_string()));
}

#[test]
fn requests_are_answered_in_order() {
    let mut c = coordinator();
    let owners = ["alice", "bob", "carol"];
    for owner in owners {
        c.mint_ica(owner.to_string()).unwrap();
    }
    assert_eq!(c.get_mint_queue()[0].token_id, "ica-token-2");
    for (i, ctrl) in ["c0", "c1", "c2"].iter().enumerate() {
        c.apply_reply(ReplyKind::Controller, ctrl.to_string());
        let mint = c.receive_ica_callback(ctrl, open_ack("ch", &format!("addr{}", i))).unwrap();
        match mint {
            Some(Outbound::MintToken { token_id, owner, .. }) => {
                assert_eq!(token_id, format!("ica-token-{}", i));
                assert_eq!(owner, owners[i]);
            }
            other => panic!("unexpected {:?}", other),
        }
    }
    assert!(c.get_mint_queue().is_empty());
    for (i, ctrl) in ["c0", "c1", "c2"].iter().enumerate() {
        let token = format!("ica-token-{}", i);
        assert_eq!(c.nft_ica_controller_bimap(ctrl).unwrap(), token);
        assert_eq!(c.nft_ica_controller_bimap(&token).unwrap(), *ctrl);
    }
}

#[test]
fn unregistered_callback_is_unauthorized() {
    let mut c = coordinator();
    c.mint_ica("alice".to_string()).unwrap();
    assert_eq!(
        c.receive_ica_callback("stranger", open_ack("ch", "addr")),
        Err(ContractError::Unauthorized)
    );
    assert_eq!(c.get_mint_queue().len(), 1);
}

#[test]
fn open_without_request_is_queue_empty() {
    let mut c = coordinator();
    c.apply_reply(ReplyKind::Controller, "ctrl1".to_string());
    assert_eq!(c.receive_ica_callback("ctrl1", open_ack("ch", "addr")), Err(ContractError::QueueEmpty));
    assert!(c.nft_ica_controller_bimap("ctrl1").is_err());
}

#[test]
fn reopening_an_open_channel_fails() {
    let mut c = bound();
    assert_eq!(
        c.receive_ica_callback("ctrl1", open_ack("channel-1", "addr1")),
        Err(ContractError::ChannelAlreadyOpen)
    );
    assert_eq!(c.get_channel_state("ica-token-0").unwrap().channel_id, Some("channel-0".to_string()));
}

#[test]
fn counter_at_its_largest_value_refuses_requests() {
    let mut c = coordinator();
    c.token_counter = u64::MAX;
    assert_eq!(c.mint_ica("alice".to_string()), Err(ContractError::CounterOverflow));
    assert!(c.get_mint_queue().is_empty());
}

#[test]
fn non_owner_command_is_unauthorized_and_unrecorded() {
    let mut c = bound();
    let r = c.ica_msg("mallory", "ica-token-0", &send(vec![CosmosMsgKind::Bank]), Ok("alice".to_string()), 10, 20);
    assert_eq!(r, Err(ContractError::Unauthorized));
    assert_eq!(c.get_transaction_history("ica-token-0", None, None).total, 0);
}

#[test]
fn unanswered_ownership_query_fails() {
    let mut c = bound();
    let r = c.ica_msg("alice", "ica-token-0", &send(vec![]), Err("no such token".to_string()), 10, 20);
    assert_eq!(r, Err(ContractError::Snip721QueryFailed("no such token".to_string())));
    assert_eq!(c.get_transaction_history("ica-token-0", None, None).total, 0);
}

#[test]
fn command_for_unbound_token_is_not_found() {
    let mut c = bound();
    let r = c.ica_msg("alice", "ica-token-9", &send(vec![]), Ok("alice".to_string()), 10, 20);
    assert_eq!(r, Err(ContractError::NotFound(Missing::BimapEntry)));
}

#[test]
fn owner_command_is_recorded_and_forwarded() {
    let mut c = bound();
    let r = c
        .ica_msg("alice", "ica-token-0", &send(vec![CosmosMsgKind::Delegate]), Ok("alice".to_string()), 10, 20)
        .unwrap();
    assert_eq!(
        r,
        Outbound::ForwardCommand { controller_address: "ctrl1".to_string(), code_hash: "ctrl-hash".to_string() }
    );
    let page = c.get_transaction_history("ica-token-0", None, None);
    assert_eq!(page.total, 1);
    let rec = &page.records[0];
    assert_eq!(rec.status, TransactionStatus::Pending);
    assert_eq!(rec.msg_type, TransactionMsgType::Delegate);
    assert_eq!(rec.owner, "alice");
    assert_eq!(rec.token_id, "ica-token-0");
    assert_eq!(rec.block_height, 10);
    assert_eq!(rec.timestamp, 20);
}

#[test]
fn acknowledgements_resolve_the_newest_pending_record() {
    let mut c = bound();
    let owner = Ok("alice".to_string());
    c.ica_msg("alice", "ica-token-0", &send(vec![CosmosMsgKind::Bank]), owner.clone(), 1, 1).unwrap();
    c.ica_msg("alice", "ica-token-0", &send(vec![CosmosMsgKind::Gov]), owner.clone(), 2, 2).unwrap();
    assert_eq!(c.receive_ica_callback("ctrl1", ack("ctrl1", true)), Ok(None));
    let page = c.get_transaction_history("ica-token-0", None, None);
    assert_eq!(page.records[0].msg_type, TransactionMsgType::Vote);
    assert_eq!(page.records[0].status, TransactionStatus::Completed);
    assert_eq!(page.records[1].status, TransactionStatus::Pending);
    assert_eq!(c.receive_ica_callback("ctrl1", ack("ctrl1", false)), Ok(None));
    let page = c.get_transaction_history("ica-token-0", None, None);
    assert_eq!(page.records[0].msg_type, TransactionMsgType::Send);
    assert_eq!(page.records[0].status, TransactionStatus::Failed);
    assert_eq!(page.records[1].status, TransactionStatus::Completed);
    assert_eq!(
        c.receive_ica_callback("ctrl1", ack("ctrl1", true)),
        Err(ContractError::NotFound(Missing::PendingTransaction))
    );
}

#[test]
fn second_timeout_fails_without_mutating() {
    let mut c = bound();
    c.ica_msg("alice", "ica-token-0", &send(vec![CosmosMsgKind::Bank]), Ok("alice".to_string()), 1, 1).unwrap();
    assert_eq!(c.receive_ica_callback("ctrl1", timeout("ctrl1")), Ok(None));
    let before = c.get_transaction_history("ica-token-0", None, None);
    assert_eq!(before.records[0].status, TransactionStatus::Timeout);
    assert_eq!(
        c.receive_ica_callback("ctrl1", timeout("ctrl1")),
        Err(ContractError::NotFound(Missing::PendingTransaction))
    );
    assert_eq!(c.get_transaction_history("ica-token-0", None, None), before);
    assert_eq!(c.get_channel_state("ica-token-0").unwrap().status, ChannelStatus::Closed);
}

#[test]
fn foreign_port_callbacks_fail_and_change_nothing() {
    let mut c = bound();
    c.ica_msg("alice", "ica-token-0", &send(vec![CosmosMsgKind::Bank]), Ok("alice".to_string()), 1, 1).unwrap();
    let cb = IcaCallback::Timeout { src_port_id: "icacontroller-ctrl1".to_string() };
    assert_eq!(c.receive_ica_callback("ctrl1", cb), Err(ContractError::NotFound(Missing::BimapEntry)));
    let page = c.get_transaction_history("ica-token-0", None, None);
    assert_eq!(page.records[0].status, TransactionStatus::Pending);
    assert_eq!(c.get_channel_state("ica-token-0").unwrap().status, ChannelStatus::Open);
}

#[test]
fn packet_callbacks_skip_commands_without_packets() {
    let mut c = bound();
    let owner: Result<String, String> = Ok("alice".to_string());
    c.ica_msg("alice", "ica-token-0", &send(vec![CosmosMsgKind::Bank]), owner.clone(), 1, 1).unwrap();
    c.ica_msg("alice", "ica-token-0", &IcaCommand::Other, owner.clone(), 2, 2).unwrap();
    c.ica_msg("alice", "ica-token-0", &IcaCommand::CreateChannel, owner, 3, 3).unwrap();
    assert_eq!(c.receive_ica_callback("ctrl1", ack("ctrl1", true)), Ok(None));
    let page = c.get_transaction_history("ica-token-0", None, None);
    assert_eq!(page.total, 3);
    assert_eq!(page.records[0].msg_type, TransactionMsgType::Send);
    assert_eq!(page.records[0].status, TransactionStatus::Completed);
    assert_eq!(page.records[1].msg_type, TransactionMsgType::ChannelOpen);
    assert_eq!(page.records[1].status, TransactionStatus::Pending);
    assert_eq!(page.records[2].msg_type, TransactionMsgType::Control);
    assert_eq!(page.records[2].status, TransactionStatus::Pending);
    assert_eq!(
        c.receive_ica_callback("ctrl1", ack("ctrl1", true)),
        Err(ContractError::NotFound(Missing::PendingTransaction))
    );
}

#[test]
fn pagination_of_five_records() {
    let mut c = bound();
    for h in 0..5u64 {
        c.ica_msg("alice", "ica-token-0", &send(vec![CosmosMsgKind::Bank]), Ok("alice".to_string()), h, h)
            .unwrap();
    }
    let first = c.get_transaction_history("ica-token-0", Some(0), Some(2));
    assert_eq!(first.total, 5);
    assert_eq!(first.records.len(), 2);
    assert_eq!(first.records[0].block_height, 4);
    assert_eq!(first.records[1].block_height, 3);
    let middle = c.get_transaction_history("ica-token-0", Some(1), Some(2));
    assert_eq!(middle.records.len(), 2);
    assert_eq!(middle.records[0].block_height, 2);
    let last = c.get_transaction_history("ica-token-0", Some(2), Some(2));
    assert_eq!(last.total, 5);
    assert_eq!(last.records.len(), 1);
    assert_eq!(last.records[0].block_height, 0);
    let past = c.get_transaction_history("ica-token-0", Some(3), Some(2));
    assert!(past.records.is_empty());
    assert_eq!(past.total, 5);
    let all = c.get_transaction_history("ica-token-0", None, None);
    assert_eq!(all.records.len(), 5);
    let huge = c.get_transaction_history("ica-token-0", Some(u32::MAX), Some(u32::MAX));
    assert!(huge.records.is_empty());
    let unknown = c.get_transaction_history("ica-token-9", None, None);
    assert_eq!(unknown.total, 0);
}

#[test]
fn channel_lifecycle_closed_pending_open_closed() {
    let mut c = bound();
    let owner = Ok("alice".to_string());
    c.ica_msg("alice", "ica-token-0", &send(vec![CosmosMsgKind::Bank]), owner.clone(), 1, 1).unwrap();
    c.receive_ica_callback("ctrl1", timeout("ctrl1")).unwrap();
    assert_eq!(c.get_channel_state("ica-token-0").unwrap().status, ChannelStatus::Closed);

    c.ica_msg("alice", "ica-token-0", &IcaCommand::CreateChannel, owner.clone(), 2, 2).unwrap();
    let pending = c.get_channel_state("ica-token-0").unwrap();
    assert_eq!(pending.status, ChannelStatus::Pending);
    assert_eq!(pending.channel_id, None);
    let page = c.get_transaction_history("ica-token-0", None, None);
    assert_eq!(page.records[0].msg_type, TransactionMsgType::ChannelOpen);
    assert_eq!(page.records[0].status, TransactionStatus::Pending);

    assert_eq!(c.receive_ica_callback("ctrl1", open_ack("channel-5", "addr1")), Ok(None));
    let open = c.get_channel_state("ica-token-0").unwrap();
    assert_eq!(open.status, ChannelStatus::Open);
    assert_eq!(open.channel_id, Some("channel-5".to_string()));
    let page = c.get_transaction_history("ica-token-0", None, None);
    assert_eq!(page.records[0].msg_type, TransactionMsgType::ChannelOpen);
    assert_eq!(page.records[0].status, TransactionStatus::Completed);

    c.ica_msg("alice", "ica-token-0", &send(vec![CosmosMsgKind::Wasm]), owner, 3, 3).unwrap();
    c.receive_ica_callback("ctrl1", timeout("ctrl1")).unwrap();
    let closed = c.get_channel_state("ica-token-0").unwrap();
    assert_eq!(closed.status, ChannelStatus::Closed);
    assert_eq!(closed.channel_id, Some("channel-5".to_string()));
}

#[test]
fn channel_request_on_open_channel_keeps_it_open() {
    let mut c = bound();
    c.ica_msg("alice", "ica-token-0", &IcaCommand::CreateChannel, Ok("alice".to_string()), 1, 1).unwrap();
    assert_eq!(c.get_channel_state("ica-token-0").unwrap().status, ChannelStatus::Open);
    let page = c.get_transaction_history("ica-token-0", None, None);
    assert_eq!(page.total, 1);
    assert_eq!(page.records[0].msg_type, TransactionMsgType::ChannelOpen);
    assert_eq!(page.records[0].status, TransactionStatus::Pending);
}

#[test]
fn address_queries() {
    let c = bound();
    let pairs = c.get_ica_addresses(&vec!["ica-token-0".to_string()]).unwrap().pairs;
    assert_eq!(pairs.len(), 1);
    assert_eq!(pairs[0].nft_id, "ica-token-0");
    assert_eq!(pairs[0].ica_address, "addr1");
    assert_eq!(
        c.get_ica_addresses(&vec!["ica-token-0".to_string(), "ica-token-1".to_string()]),
        Err(ContractError::NotFound(Missing::IcaAddress))
    );
    assert_eq!(c.get_ica_address("ica-token-1"), Err(ContractError::NotFound(Missing::IcaAddress)));
    assert_eq!(c.get_channel_state("ica-token-1"), Err(ContractError::NotFound(Missing::ChannelState)));
    assert!(c.get_ica_addresses(&vec![]).unwrap().pairs.is_empty());
}

#[test]
fn reply_ids_select_the_request() {
    assert_eq!(reply_kind(1), Ok(ReplyKind::Ledger));
    assert_eq!(reply_kind(2), Ok(ReplyKind::Controller));
    assert_eq!(reply_kind(3), Err(ContractError::UnknownReplyId(3)));
}
