use oraiswap_contracts::milky::{
    change_minter, change_tax_info, check_initial_supply, checked_sub, compute_tax, handle_tax, is_minter,
    send_after_tax, TaxInfo,
};

#[test]
fn test_compute_tax() {
    let new_amount = compute_tax(1000);
    assert_eq!(new_amount, 950);
}

#[test]
fn test_change_tax_info() {
    let current = TaxInfo { tax_receiver: "tax_receiver".to_string(), router_contract: "router_contract".to_string() };
    // a sender that is not the minter is refused
    assert!(!is_minter(Some("minter"), "hacker"));
    assert_eq!(
        change_tax_info(Some("minter"), "hacker", current.clone(), Some("foobar".to_string()), Some("new_router".to_string())),
        None
    );
    // the minter sets the new tax receiver and router contract
    let result = change_tax_info(Some("minter"), "minter", current, Some("foobar".to_string()), Some("new_router".to_string())).unwrap();
    assert_eq!(result.router_contract, "new_router");
    assert_eq!(result.tax_receiver, "foobar");
}

#[test]
fn small_amounts_are_not_taxed_away() {
    assert_eq!(compute_tax(1), 1);
    assert_eq!(compute_tax(0), 0);
    assert_eq!(compute_tax(20), 19);
    assert_eq!(compute_tax(19), 19);
}

#[test]
fn the_tax_goes_to_the_receiver() {
    assert_eq!(handle_tax(None, 1000), (950, 50));
    assert_eq!(handle_tax(Some(7), 1000), (950, 57));
    assert_eq!(send_after_tax(true, Some(50), 1000), (950, Some(100)));
    assert_eq!(send_after_tax(false, Some(50), 1000), (1000, None));
}

#[test]
fn minting_rights_move_by_the_minter_only() {
    assert_eq!(change_minter(Some("m"), "m", "n".to_string(), Some(5)), Some(("n".to_string(), Some(5))));
    assert_eq!(change_minter(Some("m"), "x", "n".to_string(), Some(5)), None);
    assert_eq!(change_minter(None, "m", "n".to_string(), None), None);
    assert!(check_initial_supply(10, Some(10)));
    assert!(!check_initial_supply(11, Some(10)));
    assert!(check_initial_supply(11, None));
    assert_eq!(checked_sub(5, 6), None);
    assert_eq!(checked_sub(6, 5), Some(1));
}
