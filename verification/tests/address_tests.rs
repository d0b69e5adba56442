use swapper::address::Address;

const USDC: [u8; 20] = [
    160, 184, 105, 145, 198, 33, 139, 54, 193, 209, 157, 74, 46, 158, 176, 206, 54, 6, 235, 72,
];
const WETH: [u8; 20] = [
    192, 42, 170, 57, 178, 35, 254, 141, 10, 14, 92, 79, 39, 234, 217, 8, 60, 117, 108, 194,
];

#[test]
fn parses_checksummed_text() {
    let a = Address::parse("0xA0b86991c6218b36c1d19D4a2e9Eb0cE3606eB48").unwrap();
    assert_eq!(a.bytes(), USDC);
}

#[test]
fn parses_without_prefix_and_with_upper_prefix() {
    let a = Address::parse("c02aaa39b223fe8d0a0e5c4f27ead9083c756cc2").unwrap();
    assert_eq!(a.bytes(), WETH);
    let b = Address::parse("0XC02AAA39B223FE8D0A0E5C4F27EAD9083C756CC2").unwrap();
    assert_eq!(b.bytes(), WETH);
}

#[test]
fn rejects_malformed_text() {
    assert!(Address::parse("0xA0b86991c6218b36c1d19D4a2e9Eb0cE3606eB4").is_none());
    assert!(Address::parse("0xA0b86991c6218b36c1d19D4a2e9Eb0cE3606eB4800").is_none());
    assert!(Address::parse("0xZ0b86991c6218b36c1d19D4a2e9Eb0cE3606eB48").is_none());
    assert!(Address::parse("").is_none());
    assert!(Address::parse("0x").is_none());
}

#[test]
fn orders_byte_wise() {
    let usdc = Address::from_bytes(USDC);
    let weth = Address::from_bytes(WETH);
    assert!(usdc.lt(&weth));
    assert!(!weth.lt(&usdc));
    assert!(!usdc.lt(&usdc));
    let mut later = USDC;
    later[19] += 1;
    assert!(usdc.lt(&Address::from_bytes(later)));
}

#[test]
fn compares_for_equality() {
    let usdc = Address::from_bytes(USDC);
    assert!(usdc.is_same(&Address::from_bytes(USDC)));
    assert!(!usdc.is_same(&Address::from_bytes(WETH)));
}
