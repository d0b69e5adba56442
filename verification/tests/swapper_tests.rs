use swapper::address::Address;
use swapper::swapper::{
    needs_approval, next_token_swap_action, parse_eth_amount, swap_deadline, SwapError, Swapper,
    TokenSwapAction, TokenSwapEvent,
};
use swapper::uint::Uint256;

const ME: &str = "0x00000000000000000000000000000000000000aa";
// USDC sorts before WETH, so the pair's reserve0 is USDC's.
const USDC_RESERVE: u128 = 40_000_000 * 1_000_000;
const WETH_RESERVE: u128 = 13_000 * 1_000_000_000_000_000_000;

fn word(x: u128) -> Uint256 {
    Uint256::from_u128(x)
}

fn swapper() -> Swapper {
    Swapper::new(ME).unwrap()
}

#[test]
fn new_parses_the_contract_addresses() {
    let s = swapper();
    assert_eq!(s.usdc_address(), Address::parse("0xA0b86991c6218b36c1d19D4a2e9Eb0cE3606eB48").unwrap());
    assert_eq!(s.weth_address(), Address::parse("0xC02aaA39b223FE8D0A0e5C4F27eAD9083C756Cc2").unwrap());
    assert_eq!(s.univ2_router(), Address::parse("0x7a250d5630B4cF539739dF2C5dAcb4c659F2488D").unwrap());
    assert_eq!(s.pair(), Address::parse("0xB4e16d0168e52d35CaCD2c6185b44281Ec28C9Dc").unwrap());
    assert_eq!(s.my_address().bytes()[19], 0xaa);
}

#[test]
fn new_rejects_a_bad_wallet_address() {
    assert!(matches!(Swapper::new("0x1234"), Err(SwapError::InvalidAddress)));
}

#[test]
fn usdc_for_eth_plan() {
    let s = swapper();
    let plan = s.usdc_for_eth(USDC_RESERVE, WETH_RESERVE, &word(1_350_000_000), 950, 1_700_000_000).unwrap();
    assert_eq!(plan.amount_in, word(1_350_000_000));
    assert_eq!(plan.amount_out, word(437_419_031_396_367_301));
    assert_eq!(plan.amount_out_min, word(415_548_079_826_548_935));
    assert_eq!(plan.path, vec![s.usdc_address(), s.weth_address()]);
    assert_eq!(plan.to, s.my_address());
    assert_eq!(plan.spender, s.univ2_router());
    assert_eq!(plan.token, s.usdc_address());
    assert_eq!(plan.deadline, word(1_700_000_060));
}

#[test]
fn eth_for_usdc_plan_reverses_the_reserves() {
    let s = swapper();
    let plan = s.eth_for_usdc(USDC_RESERVE, WETH_RESERVE, "1.0", 950, 5).unwrap();
    assert_eq!(plan.value, word(1_000_000_000_000_000_000));
    assert_eq!(plan.amount_out, word(3_067_457_057));
    assert_eq!(plan.amount_out_min, word(2_914_084_204));
    assert_eq!(plan.path, vec![s.weth_address(), s.usdc_address()]);
    assert_eq!(plan.to, s.my_address());
    assert_eq!(plan.deadline, word(65));
}

#[test]
fn swaps_are_quoted_on_the_reserves_given() {
    let s = swapper();
    let before = s.usdc_for_eth(2_000_000, 1_000_000, &word(500_000), 1000, 0).unwrap();
    let now = s.usdc_for_eth(4_000_000, 1_000_000, &word(500_000), 1000, 0).unwrap();
    assert_eq!(before.amount_out, word(199_519));
    assert_eq!(now.amount_out, word(110_814));
    assert_eq!(s.prepare_swap(7, 9), (word(7), word(9)));
}

#[test]
fn eth_amount_text_is_read_as_ether() {
    let s = swapper();
    let (r0, r1) = (USDC_RESERVE, WETH_RESERVE);
    assert_eq!(s.eth_for_usdc(r0, r1, "0.01", 1000, 0).unwrap().value, word(10_000_000_000_000_000));
    assert_eq!(s.eth_for_usdc(r0, r1, "2", 1000, 0).unwrap().value, word(2_000_000_000_000_000_000));
    assert!(matches!(s.eth_for_usdc(r0, r1, "abc", 1000, 0), Err(SwapError::InvalidAmount)));
    assert!(matches!(s.eth_for_usdc(r0, r1, "1.5é", 1000, 0), Err(SwapError::InvalidAmount)));
}

#[test]
fn negative_and_non_ascii_amounts_are_read_as_parse_ether_reads_them() {
    // A negative amount is read as its 256-bit two's complement.
    let minus_one_ether = parse_eth_amount("-1").unwrap();
    let twos = minus_one_ether.limbs();
    assert_eq!(twos[3], u64::MAX);
    assert_eq!(parse_eth_amount(""), Ok(word(0)));
    // Decimals past the 18th are cut; here the cut falls between characters.
    assert_eq!(parse_eth_amount("1.000000000000000000é"), Ok(word(1_000_000_000_000_000_000)));
    assert_eq!(parse_eth_amount("1.0000000000000000009"), Ok(word(1_000_000_000_000_000_000)));
    assert_eq!(parse_eth_amount("0.5"), Ok(word(500_000_000_000_000_000)));
    assert!(matches!(parse_eth_amount("1e3"), Err(SwapError::InvalidAmount)));
}

#[test]
fn amounts_that_could_panic_are_refused() {
    // Scaling this negative amount by 10^18 overflows a signed 256-bit integer.
    let huge_negative = format!("-1{}", "0".repeat(70));
    assert!(matches!(parse_eth_amount(&huge_negative), Err(SwapError::InvalidAmount)));
    // The 18th byte after the point ends inside the two-byte 'é'.
    assert!(matches!(parse_eth_amount("1.00000000000000000é0"), Err(SwapError::InvalidAmount)));
}

#[test]
fn empty_pool_gives_no_quote() {
    let s = swapper();
    assert!(matches!(s.usdc_for_eth(0, 0, &word(0), 950, 0), Err(SwapError::EmptyPool)));
    assert!(matches!(s.eth_for_usdc(0, 0, "0", 950, 0), Err(SwapError::EmptyPool)));
}

#[test]
fn deadline_is_sixty_seconds_later() {
    assert_eq!(swap_deadline(100), Some(word(160)));
    assert_eq!(swap_deadline(u64::MAX - 60), Some(word(u64::MAX as u128)));
    assert_eq!(swap_deadline(u64::MAX - 59), None);
    let s = swapper();
    assert!(matches!(
        s.usdc_for_eth(USDC_RESERVE, WETH_RESERVE, &word(10), 950, u64::MAX),
        Err(SwapError::DeadlineOverflow)
    ));
}

#[test]
fn reserves_follow_the_token_order() {
    let s = swapper();
    // USDC is token0: its reserve is reserve0 = 1000.
    let plan = s.usdc_for_eth(1000, 2000, &word(1000), 1000, 0).unwrap();
    assert_eq!(plan.amount_out, word(997 * 2000 * 1000 / (1000 * 1000 + 997 * 1000)));
}

#[test]
fn approval_is_needed_below_the_amount() {
    assert!(needs_approval(&word(5), &word(6)));
    assert!(!needs_approval(&word(6), &word(6)));
    assert!(!needs_approval(&word(7), &word(6)));
}

#[test]
fn token_swap_steps() {
    let s = swapper();
    let plan = s.usdc_for_eth(USDC_RESERVE, WETH_RESERVE, &word(500_000_000), 950, 0).unwrap();
    match next_token_swap_action(&plan, &TokenSwapEvent::Begin) {
        TokenSwapAction::ReadAllowance { owner, spender } => {
            assert_eq!(owner, s.my_address());
            assert_eq!(spender, s.univ2_router());
        }
        _ => panic!("expected an allowance read"),
    }
    match next_token_swap_action(&plan, &TokenSwapEvent::AllowanceRead(word(499_999_999))) {
        TokenSwapAction::Approve { spender, amount } => {
            assert_eq!(spender, s.univ2_router());
            assert_eq!(amount, word(500_000_000));
        }
        _ => panic!("expected an approval"),
    }
    assert!(matches!(
        next_token_swap_action(&plan, &TokenSwapEvent::AllowanceRead(word(500_000_000))),
        TokenSwapAction::SendSwap
    ));
    assert!(matches!(next_token_swap_action(&plan, &TokenSwapEvent::ApprovalSent), TokenSwapAction::SendSwap));
    assert!(matches!(next_token_swap_action(&plan, &TokenSwapEvent::SwapMined), TokenSwapAction::Finish));
}

#[test]
fn law_plans_stay_within_pool_on_values() {
    let s = swapper();
    for amount in [1u128, 10, 1_000, 1_000_000] {
        let p = s.usdc_for_eth(1_000, 2_000, &word(amount), 950, 0).unwrap();
        let out = p.amount_out.limbs()[0];
        assert!(p.amount_out_min.limbs()[0] <= out);
        assert!(out < 2_000);
        let e = s.eth_for_usdc(1_000, 2_000, &amount.to_string(), 1000, 0).unwrap();
        assert!(e.amount_out_min.limbs()[0] <= e.amount_out.limbs()[0]);
        assert!(e.amount_out.limbs()[0] < 1_000);
    }
}

#[test]
fn law_floor_monotone_on_values() {
    let s = swapper();
    let mut last = word(0);
    for amount in [0u128, 1, 1_000, 1_000_000, 350_000_000, 1_350_000_000, 90_000_000_000] {
        let floor = s.usdc_for_eth(USDC_RESERVE, WETH_RESERVE, &word(amount), 950, 0).unwrap().amount_out_min;
        let (f, l) = (floor.limbs(), last.limbs());
        assert!((f[1], f[0]) >= (l[1], l[0]));
        last = floor;
    }
}
