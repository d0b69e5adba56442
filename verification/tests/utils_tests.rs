use swapper::address::Address;
use swapper::balances::{format_units, Balances};
use swapper::uint::Uint256;
use swapper::utils::{first_unset_variable, get_env_variables, is_confirmed, parse_command, text_equals, SwapCommand};
use swapper::wallet::EthereumWalletBuilder;

#[test]
fn formats_eth_and_usdc_amounts() {
    let b = Balances::new(Address::from_bytes([1; 20]));
    assert_eq!(b.get_eth_balance(&Uint256::from_u128(1_395_633_240_123_456_000)), "1.395633240123456000");
    assert_eq!(b.get_usdc_balance(&Uint256::from_u64(10_981_618_907)), "10981.618907");
    assert_eq!(b.get_eth_balance(&Uint256::zero()), "0.000000000000000000");
    assert_eq!(b.get_usdc_balance(&Uint256::from_u64(5)), "0.000005");
    assert_eq!(b.owner(), Address::from_bytes([1; 20]));
    let w = EthereumWalletBuilder { address: Address::from_bytes([2; 20]) };
    assert_eq!(w.get_eth_balance(&Uint256::from_u64(1)), "0.000000000000000001");
    assert_eq!(w.get_usdc_balance(&Uint256::from_u64(1_000_000)), "1.000000");
    assert_eq!(format_units(&Uint256::from_u64(1234), 0), Some("1234.0".to_string()));
    assert_eq!(format_units(&Uint256::from_u64(1234), 2), Some("12.34".to_string()));
    assert_eq!(format_units(&Uint256::from_u64(1234), 78), None);
}

#[test]
fn env_variables_are_paired_with_their_values() {
    let names = vec!["A".to_string(), "B".to_string()];
    let values = vec![Some("x".to_string()), Some("y".to_string())];
    assert_eq!(first_unset_variable(&values), None);
    assert_eq!(
        get_env_variables(&names, &values),
        vec![("A".to_string(), "x".to_string()), ("B".to_string(), "y".to_string())]
    );
}

#[test]
fn first_missing_or_empty_env_variable_is_found() {
    assert_eq!(first_unset_variable(&vec![Some("x".to_string()), None, Some(String::new())]), Some(1));
    assert_eq!(first_unset_variable(&vec![Some("x".to_string()), Some(String::new()), None]), Some(1));
    assert_eq!(first_unset_variable(&vec![None]), Some(0));
    assert_eq!(first_unset_variable(&vec![]), None);
}

#[test]
fn commands_are_recognised() {
    assert_eq!(parse_command("buy_eth"), Some(SwapCommand::BuyEth));
    assert_eq!(parse_command("buy_usdc"), Some(SwapCommand::BuyUsdc));
    assert_eq!(parse_command("buy_btc"), None);
    assert_eq!(parse_command("buy_eth "), None);
}

#[test]
fn confirmation_is_a_trimmed_y() {
    assert!(is_confirmed("y"));
    assert!(is_confirmed("y\n"));
    assert!(is_confirmed("  y \r\n"));
    assert!(!is_confirmed("yes"));
    assert!(!is_confirmed("Y"));
    assert!(!is_confirmed("n\n"));
    assert!(!is_confirmed(""));
}

#[test]
fn texts_compare_by_characters() {
    assert!(text_equals("abc", "abc"));
    assert!(!text_equals("abc", "abd"));
    assert!(!text_equals("abc", "ab"));
    assert!(text_equals("", ""));
}
