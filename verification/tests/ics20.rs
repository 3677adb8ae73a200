use oraiswap_contracts::ics20::{
    get_key_ics20_ibc_denom, increase_channel_balance, reduce_channel_balance,
    undo_increase_channel_balance, undo_reduce_channel_balance, ChannelState, ContractError,
};

#[test]
fn ics20_keys_join_port_channel_and_denom() {
    assert_eq!(get_key_ics20_ibc_denom("transfer", "channel-0", "uatom"), "transfer/channel-0/uatom");
}

#[test]
fn ics20_balances_start_at_zero() {
    let s = increase_channel_balance(None, 100);
    assert_eq!(s, ChannelState { outstanding: 100, total_sent: 100 });
    let s2 = reduce_channel_balance(Some(s), 40).unwrap();
    assert_eq!(s2, ChannelState { outstanding: 60, total_sent: 100 });
    assert_eq!(undo_reduce_channel_balance(Some(s2), 40), s);
    assert_eq!(reduce_channel_balance(None, 1), Err(ContractError::InsufficientFunds));
    assert_eq!(reduce_channel_balance(Some(s2), 61), Err(ContractError::InsufficientFunds));
    // taking an increase back restores what is outstanding only
    let back = undo_increase_channel_balance(Some(s), 100);
    assert_eq!(back, ChannelState { outstanding: 0, total_sent: 100 });
    assert_eq!(undo_reduce_channel_balance(None, 5), ChannelState { outstanding: 5, total_sent: 0 });
}
