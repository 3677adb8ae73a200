use oraiswap_contracts::ibc::amount::{get_cw20_denom, Amount};
use oraiswap_contracts::ibc::execute::{
    add_allow_token, allow_external_token, assert_lockup_owner, channel_amounts,
    create_lockup_check, execute_allow, get_ibc_full_denom, instantiate_config,
    list_allowed, list_external_tokens, execute_only_action, query_allowed, query_config,
    query_external_token, query_lockup, execute_transfer_with_action, native_amount, assert_nonpayable,
};
use oraiswap_contracts::asset::{Coin, PaymentError};
use oraiswap_contracts::ibc::msg::{AllowedInfo, AllowedTokenInfo};
use oraiswap_contracts::ibc::packet::{
    ibc_channel_open, check_gas_limit, enforce_order_and_version, incoming_funds,
    parse_voucher, parse_voucher_ack, refund_funds, reply, send_amount, ChannelOrder,
    SendMsg, ACK_TRANSFER_ID, RECEIVE_ID,
};
use oraiswap_contracts::ibc::packet::{ack_label, ack_route, claim_pays, refund_error, AckRoute, PacketAction};
use oraiswap_contracts::ibc::state::{
    join_ibc_paths, reduce_channel_balance, undo_reduce_channel_balance, AllowInfo,
    AdminError, ChannelState, Config, ContractError, DenomBalance, Endpoint, ReplyArgs,
};

const REMOTE_PORT: &str = "transfer";
const CONTRACT_PORT: &str = "wasm.contract";
const DEFAULT_TIMEOUT: u64 = 3600;

fn remote() -> Endpoint {
    Endpoint { port_id: REMOTE_PORT.to_string(), channel_id: "channel-1234".to_string() }
}

fn voucher_denom(denom: &str) -> String {
    format!("{}/{}/{}", REMOTE_PORT, "channel-1234", denom)
}

fn allowed(contract: &str, gas: u64) -> AllowedInfo {
    AllowedInfo { contract: contract.to_string(), gas_limit: Some(gas) }
}

fn set_balance(balances: &mut Vec<DenomBalance>, denom: &str, state: ChannelState) {
    match balances.iter_mut().find(|b| b.denom == denom) {
        Some(b) => b.state = state,
        None => balances.push(DenomBalance { denom: denom.to_string(), state }),
    }
}

fn transfer(
    amount: &Amount,
    channel: &str,
    allow: &Vec<AllowedInfo>,
    balances: &Vec<DenomBalance>,
    timeout: Option<u64>,
) -> Result<oraiswap_contracts::ibc::execute::TransferPlan, ContractError> {
    execute_transfer_with_action(amount, channel, true, CONTRACT_PORT, allow, &vec![], balances, timeout, DEFAULT_TIMEOUT)
}

#[test]
fn send_receive_native() {
    let send_channel = "channel-9";
    let denom = "uatom";
    let mut balances: Vec<DenomBalance> = vec![];
    let allow: Vec<AllowedInfo> = vec![];
    let tokens: Vec<AllowedTokenInfo> = vec![];

    // cannot receive this denom yet
    let err = incoming_funds(&voucher_denom(denom), 876543210, &remote(), &tokens, &balances).err().unwrap();
    assert_eq!(err, ContractError::InsufficientFunds);

    // we transfer some tokens
    let plan = transfer(&Amount::native(987654321, denom), send_channel, &allow, &balances, None).unwrap();
    assert!(plan.our_chain);
    assert_eq!(plan.denom, denom);
    assert_eq!(plan.timeout_delta, DEFAULT_TIMEOUT);
    assert!(plan.burn.is_none());
    set_balance(&mut balances, denom, plan.new_state.unwrap());
    let (outstanding, total) = channel_amounts(&balances);
    assert_eq!(outstanding, vec![Amount::native(987654321, denom)]);
    assert_eq!(total, vec![Amount::native(987654321, denom)]);

    // cannot receive more than we sent
    let err = incoming_funds(&voucher_denom(denom), 1876543210, &remote(), &tokens, &balances).err().unwrap();
    assert_eq!(err, ContractError::InsufficientFunds);

    // we can receive less than we sent
    let funds = incoming_funds(&voucher_denom(denom), 876543210, &remote(), &tokens, &balances).unwrap();
    assert!(funds.voucher.our_chain);
    assert_eq!(check_gas_limit(&funds.to_send, &allow), Ok(None));
    let msg = send_amount(funds.to_send.duplicate(), "local-rcpt".to_string(), funds.voucher.our_chain);
    assert_eq!(
        msg,
        SendMsg::Bank {
            to_address: "local-rcpt".to_string(),
            coin: oraiswap_contracts::asset::Coin { denom: denom.to_string(), amount: 876543210 },
        }
    );
    set_balance(&mut balances, denom, funds.new_state.unwrap());
    let (outstanding, total) = channel_amounts(&balances);
    assert_eq!(outstanding, vec![Amount::native(111111111, denom)]);
    assert_eq!(total, vec![Amount::native(987654321, denom)]);
}

#[test]
fn send_receive_cw20() {
    let send_channel = "channel-9";
    let cw20_addr = "token-addr";
    let cw20_denom = "cw20:token-addr";
    let gas_limit = 1234567;
    let allow = vec![allowed(cw20_addr, gas_limit)];
    let tokens: Vec<AllowedTokenInfo> = vec![];
    let mut balances: Vec<DenomBalance> = vec![];

    let err = incoming_funds(&voucher_denom(cw20_denom), 876543210, &remote(), &tokens, &balances).err().unwrap();
    assert_eq!(err, ContractError::InsufficientFunds);

    let plan = transfer(&Amount::cw20(987654321, cw20_addr), send_channel, &allow, &balances, None).unwrap();
    assert_eq!(plan.denom, cw20_denom);
    assert_eq!(plan.timeout_delta, DEFAULT_TIMEOUT);
    set_balance(&mut balances, cw20_denom, plan.new_state.unwrap());
    let (outstanding, total) = channel_amounts(&balances);
    assert_eq!(outstanding, vec![Amount::cw20(987654321, cw20_addr)]);
    assert_eq!(total, vec![Amount::cw20(987654321, cw20_addr)]);

    let err = incoming_funds(&voucher_denom(cw20_denom), 1876543210, &remote(), &tokens, &balances).err().unwrap();
    assert_eq!(err, ContractError::InsufficientFunds);

    let funds = incoming_funds(&voucher_denom(cw20_denom), 876543210, &remote(), &tokens, &balances).unwrap();
    assert_eq!(check_gas_limit(&funds.to_send, &allow), Ok(Some(gas_limit)));
    let msg = send_amount(funds.to_send.duplicate(), "local-rcpt".to_string(), funds.voucher.our_chain);
    assert_eq!(
        msg,
        SendMsg::Cw20Transfer { contract: cw20_addr.to_string(), recipient: "local-rcpt".to_string(), amount: 876543210 }
    );
    set_balance(&mut balances, cw20_denom, funds.new_state.unwrap());
    let (outstanding, total) = channel_amounts(&balances);
    assert_eq!(outstanding, vec![Amount::cw20(111111111, cw20_addr)]);
    assert_eq!(total, vec![Amount::cw20(987654321, cw20_addr)]);
}

#[test]
fn setup_and_query() {
    let balances: Vec<DenomBalance> = vec![];
    let (outstanding, total) = channel_amounts(&balances);
    assert_eq!(0, total.len());
    assert_eq!(0, outstanding.len());
}

#[test]
fn proper_checks_on_execute_native() {
    let send_channel = "channel-5";
    let coin = |amount: u128, denom: &str| Coin { denom: denom.to_string(), amount };

    // no funds sent
    assert_eq!(native_amount(&vec![]).err(), Some(ContractError::Payment(PaymentError::NoFunds)));
    // several denominations sent
    assert_eq!(
        native_amount(&vec![coin(1234567, "ucosm"), coin(54321, "uatom")]).err(),
        Some(ContractError::Payment(PaymentError::MultipleDenoms))
    );
    // one coin is the amount sent
    match native_amount(&vec![coin(1234567, "ucosm")]).unwrap() {
        Amount::Native(c) => {
            assert_eq!(c.denom, "ucosm");
            assert_eq!(c.amount, 1234567);
        }
        Amount::Cw20(_) => panic!("a native amount was expected"),
    }
    // a message without a transfer takes no funds
    assert_eq!(assert_nonpayable(&vec![]), Ok(()));
    assert_eq!(
        assert_nonpayable(&vec![coin(1, "ucosm")]),
        Err(ContractError::Payment(PaymentError::NonPayable))
    );
    let plan = transfer(&Amount::native(1234567, "ucosm"), send_channel, &vec![], &vec![], None).unwrap();
    assert_eq!(plan.timeout_delta, DEFAULT_TIMEOUT);
    assert_eq!(plan.denom, "ucosm");
    assert_eq!(plan.new_state, Some(ChannelState { outstanding: 1234567, total_sent: 1234567 }));

    // reject with a bad channel id
    let err = execute_transfer_with_action(
        &Amount::native(1234567, "ucosm"),
        "channel-45",
        false,
        CONTRACT_PORT,
        &vec![],
        &vec![],
        &vec![],
        None,
        DEFAULT_TIMEOUT,
    )
    .err()
    .unwrap();
    assert_eq!(err, ContractError::NoSuchChannel { id: "channel-45".to_string() });
}

#[test]
fn proper_checks_on_execute_cw20() {
    let send_channel = "channel-15";
    let cw20_addr = "my-token";
    let allow = vec![allowed(cw20_addr, 123456)];
    let plan = transfer(&Amount::cw20(888777666, cw20_addr), send_channel, &allow, &vec![], Some(7777)).unwrap();
    assert_eq!(plan.timeout_delta, 7777);
    assert_eq!(plan.denom, format!("cw20:{}", cw20_addr));
}

#[test]
fn execute_cw20_fails_if_not_whitelisted() {
    let err = transfer(&Amount::cw20(888777666, "my-token"), "channel-15", &vec![], &vec![], Some(7777)).err().unwrap();
    assert_eq!(err, ContractError::NotOnAllowList);
}

#[test]
fn transfer_of_nothing_is_refused() {
    let err = transfer(&Amount::native(0, "ucosm"), "channel-5", &vec![], &vec![], None).err().unwrap();
    assert_eq!(err, ContractError::NoFunds);
}

#[test]
fn transfer_of_an_external_token_burns_it() {
    let allow = vec![allowed("ext-token", 100)];
    let tokens = vec![AllowedTokenInfo { denom: "uosmo".to_string(), contract: "ext-token".to_string() }];
    let plan = execute_transfer_with_action(
        &Amount::cw20(500, "ext-token"),
        "channel-0",
        true,
        "wasm.router",
        &allow,
        &tokens,
        &vec![],
        None,
        DEFAULT_TIMEOUT,
    )
    .unwrap();
    assert!(!plan.our_chain);
    assert_eq!(plan.denom, "wasm.router/channel-0/uosmo");
    assert_eq!(plan.burn, Some(("ext-token".to_string(), 500)));
    assert_eq!(plan.new_state, None);
}

#[test]
fn vouchers_are_parsed_by_their_prefix() {
    let tokens = vec![AllowedTokenInfo { denom: "uosmo".to_string(), contract: "osmo-token".to_string() }];
    let v = parse_voucher(&voucher_denom("uatom"), &remote(), &tokens).unwrap();
    assert_eq!(v.denom, "uatom");
    assert!(v.our_chain);

    let v = parse_voucher("uosmo", &remote(), &tokens).unwrap();
    assert_eq!(v.denom, "cw20:osmo-token");
    assert!(!v.our_chain);

    assert_eq!(parse_voucher("uluna", &remote(), &tokens).err(), Some(ContractError::NoAllowedToken));
    assert_eq!(parse_voucher("transfer/channel-1234", &remote(), &tokens).err(), Some(ContractError::NoForeignTokens));
    assert_eq!(
        parse_voucher("transfer/channel-12345/uatom", &remote(), &tokens).err(),
        Some(ContractError::FromOtherChannel { channel: "channel-12345".to_string() })
    );
}

#[test]
fn failed_packets_are_read_back() {
    let tokens = vec![AllowedTokenInfo { denom: "uosmo".to_string(), contract: "osmo-token".to_string() }];
    let v = parse_voucher_ack("uatom", &remote(), &tokens).unwrap();
    assert_eq!(v.denom, "uatom");
    assert!(v.our_chain);
    let v = parse_voucher_ack(&voucher_denom("uosmo"), &remote(), &tokens).unwrap();
    assert_eq!(v.denom, "cw20:osmo-token");
    assert!(!v.our_chain);
    assert_eq!(parse_voucher_ack(&voucher_denom("uluna"), &remote(), &tokens).err(), Some(ContractError::NoAllowedToken));

    // a refund of this chain's coins comes out of the channel's balance
    let balances = vec![DenomBalance { denom: "uatom".to_string(), state: ChannelState { outstanding: 100, total_sent: 100 } }];
    let funds = refund_funds("uatom", 40, &remote(), &tokens, &balances).unwrap();
    assert_eq!(funds.new_state, Some(ChannelState { outstanding: 60, total_sent: 100 }));
}

#[test]
fn replies_restore_the_balance() {
    let args = ReplyArgs { channel: "channel-9".to_string(), denom: "uatom".to_string(), amount: 30, our_chain: true };
    let state = Some(ChannelState { outstanding: 70, total_sent: 100 });
    let out = reply(RECEIVE_ID, Some("boom".to_string()), Some(args.clone()), state).unwrap();
    assert_eq!(out.new_state, Some(ChannelState { outstanding: 100, total_sent: 100 }));
    assert_eq!(out.fail_ack, Some("boom".to_string()));

    let out = reply(RECEIVE_ID, None, Some(args.clone()), state).unwrap();
    assert_eq!(out.new_state, None);
    assert_eq!(out.fail_ack, None);

    let out = reply(ACK_TRANSFER_ID, Some("boom".to_string()), None, None).unwrap();
    assert_eq!(out.fail_ack, Some("boom".to_string()));

    assert_eq!(reply(RECEIVE_ID, Some("boom".to_string()), None, None).err(), Some(ContractError::ReplyArgsMissing));
    assert_eq!(reply(RECEIVE_ID, Some("boom".to_string()), Some(args), None).err(), Some(ContractError::ChannelIsEmpty));
    assert_eq!(reply(7, None, None, None).err(), Some(ContractError::UnknownReplyId { id: 7 }));
}

#[test]
fn reduce_then_undo_leaves_the_balance() {
    let s = ChannelState { outstanding: 500, total_sent: 900 };
    let reduced = reduce_channel_balance(Some(s), 200).unwrap();
    assert_eq!(reduced, ChannelState { outstanding: 300, total_sent: 900 });
    assert_eq!(undo_reduce_channel_balance(Some(reduced), 200), Ok(s));
    assert_eq!(reduce_channel_balance(Some(s), 501), Err(ContractError::InsufficientFunds));
    assert_eq!(reduce_channel_balance(None, 1), Err(ContractError::InsufficientFunds));
}

#[test]
fn channels_speak_ics20_unordered() {
    assert_eq!(enforce_order_and_version("ics20-1", ChannelOrder::Unordered, Some("ics20-1")), Ok(()));
    assert_eq!(
        enforce_order_and_version("ics20-2", ChannelOrder::Unordered, None),
        Err(ContractError::InvalidIbcVersion { version: "ics20-2".to_string() })
    );
    assert_eq!(
        enforce_order_and_version("ics20-1", ChannelOrder::Unordered, Some("v2")),
        Err(ContractError::InvalidIbcVersion { version: "v2".to_string() })
    );
    assert_eq!(enforce_order_and_version("ics20-1", ChannelOrder::Ordered, None), Err(ContractError::OnlyOrderedChannel));
    assert_eq!(ibc_channel_open("ics20-1", ChannelOrder::Unordered, None, true), Err(ContractError::OnlyOneChannel));
    assert_eq!(ibc_channel_open("ics20-1", ChannelOrder::Unordered, None, false), Ok(()));
}

#[test]
fn gas_limits_only_rise() {
    let old = Some(AllowInfo { gas_limit: Some(1000) });
    assert_eq!(add_allow_token(old, Some(999)), Err(ContractError::CannotLowerGas));
    assert_eq!(add_allow_token(old, Some(1000)), Ok(AllowInfo { gas_limit: Some(1000) }));
    assert_eq!(add_allow_token(old, None), Ok(AllowInfo { gas_limit: None }));
    assert_eq!(
        add_allow_token(Some(AllowInfo { gas_limit: None }), Some(5)),
        Err(ContractError::CannotLowerGas)
    );
    assert_eq!(add_allow_token(None, Some(5)), Ok(AllowInfo { gas_limit: Some(5) }));
    assert_eq!(execute_allow(false, None, None), Err(ContractError::Admin(AdminError::NotAdmin)));
}

#[test]
fn external_tokens_are_allowed_once() {
    let cfg = instantiate_config(60);
    let (c, a) = allow_external_token(true, false, &cfg, "uosmo", None).unwrap();
    assert_eq!(c.default_remote_denom, Some("uosmo".to_string()));
    assert_eq!(a.gas_limit, None);
    let (c2, _) = allow_external_token(true, false, &c, "uatom", None).unwrap();
    assert_eq!(c2.default_remote_denom, Some("uosmo".to_string()));
    assert_eq!(allow_external_token(true, true, &cfg, "uosmo", None).err(), Some(ContractError::ExternalTokenExists));
    assert_eq!(allow_external_token(false, false, &cfg, "uosmo", None).err(), Some(ContractError::Admin(AdminError::NotAdmin)));
}

#[test]
fn action_packets_need_a_remote_denom() {
    let cfg = Config { default_timeout: 60, init_channel: true, default_remote_denom: None };
    assert_eq!(
        execute_only_action("channel-0", true, &cfg, "wasm.x", None).err(),
        Some(ContractError::NoSuchChannel { id: "channel-0".to_string() })
    );
    let cfg = Config { default_remote_denom: Some("uosmo".to_string()), ..cfg };
    assert_eq!(execute_only_action("channel-0", true, &cfg, "wasm.x", None).unwrap(), ("wasm.x/channel-0/uosmo".to_string(), 60));
    assert_eq!(execute_only_action("channel-0", true, &cfg, "wasm.x", Some(5)).unwrap().1, 5);
    assert_eq!(
        execute_only_action("channel-0", false, &cfg, "wasm.x", None).err(),
        Some(ContractError::NoSuchChannel { id: "channel-0".to_string() })
    );
    assert_eq!(create_lockup_check(true), Err(ContractError::LockupAccountFound));
    assert_eq!(assert_lockup_owner(false), Err(ContractError::NoLockupAccount));
}

#[test]
fn allow_lists_are_paged() {
    let list: Vec<AllowedInfo> = (0..40).map(|i| allowed(&format!("token{:02}", i), i)).collect();
    let page = list_allowed(&list, None, None);
    assert_eq!(page.allow.len(), 10);
    assert_eq!(page.allow[0].contract, "token00");
    let page = list_allowed(&list, Some("token05".to_string()), Some(3));
    let names: Vec<&str> = page.allow.iter().map(|a| a.contract.as_str()).collect();
    assert_eq!(names, vec!["token06", "token07", "token08"]);
    assert_eq!(list_allowed(&list, None, Some(100)).allow.len(), 30);

    let tokens = vec![
        AllowedTokenInfo { denom: "a".to_string(), contract: "c1".to_string() },
        AllowedTokenInfo { denom: "b".to_string(), contract: "c2".to_string() },
    ];
    let page = list_external_tokens(&tokens, Some("a".to_string()), None);
    assert_eq!(page.tokens, vec![tokens[1].clone()]);
}

#[test]
fn queries_answer_from_what_is_kept() {
    let r = query_allowed(Some(AllowInfo { gas_limit: Some(7) }));
    assert!(r.is_allowed);
    assert_eq!(r.gas_limit, Some(7));
    assert!(!query_allowed(None).is_allowed);
    let r = query_external_token(Some("c".to_string()));
    assert!(r.is_allowed);
    assert_eq!(r.contract, Some("c".to_string()));
    assert_eq!(query_lockup("me".to_string(), None).address, "");
    assert_eq!(query_config(&instantiate_config(9), None).gov_contract, "");
    assert_eq!(query_config(&instantiate_config(9), Some("gov".to_string())).default_timeout, 9);
}

#[test]
fn denominations_are_joined_with_slashes() {
    assert_eq!(join_ibc_paths("transfer", "channel-0"), "transfer/channel-0");
    assert_eq!(get_ibc_full_denom("wasm.x", "channel-1", "uosmo"), "wasm.x/channel-1/uosmo");
    assert_eq!(get_cw20_denom("token"), "cw20:token");
    let a = Amount::from_parts("cw20:token".to_string(), 5);
    assert_eq!(a, Amount::cw20(5, "token"));
    assert_eq!(a.denom(), "cw20:token");
    assert_eq!(Amount::from_parts("uatom".to_string(), 5), Amount::native(5, "uatom"));
    assert!(Amount::native(0, "uatom").is_empty());
    assert_eq!(
        send_amount(Amount::cw20(5, "token"), "r".to_string(), false),
        SendMsg::Cw20Mint { contract: "token".to_string(), recipient: "r".to_string(), amount: 5 }
    );
}

#[test]
fn acknowledgements_are_routed_by_action() {
    assert_eq!(ack_route(None, true), AckRoute::Success);
    assert_eq!(ack_route(None, false), AckRoute::Refund);
    assert_eq!(ack_route(Some(PacketAction::Swap), true), AckRoute::Payout);
    assert_eq!(ack_route(Some(PacketAction::ExitPool), false), AckRoute::Refund);
    assert_eq!(ack_route(Some(PacketAction::LockupAccount), true), AckRoute::SaveLockup);
    assert_eq!(ack_route(Some(PacketAction::LockupAccount), false), AckRoute::ReportError);
    assert_eq!(ack_route(Some(PacketAction::Lock), true), AckRoute::Done);
    assert_eq!(ack_route(Some(PacketAction::Lock), false), AckRoute::Refund);
    assert_eq!(ack_route(Some(PacketAction::Claim), true), AckRoute::Payout);
    assert_eq!(ack_route(Some(PacketAction::Unlock), false), AckRoute::ReportError);
    assert_eq!(ack_label(Some(PacketAction::Claim)), "acknowledge_claim_tokens");
    assert_eq!(ack_label(None), "acknowledge");
    assert_eq!(refund_error(Some(PacketAction::Swap), "slippage"), "Gamm error: slippage");
    assert_eq!(refund_error(None, "timeout"), "timeout");
    assert!(!claim_pays(0));
    assert!(claim_pays(3));
}
