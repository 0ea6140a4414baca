use zeus_tokens::token_info::{Address, TokenInfo};

fn info(address: &str) -> TokenInfo {
    TokenInfo {
        name: "Wrapped Ether".to_string(),
        type2: "ERC20".to_string(),
        symbol: "WETH".to_string(),
        decimals: 18,
        website: "https://weth.io".to_string(),
        description: "wrapped".to_string(),
        explorer: "https://etherscan.io".to_string(),
        status: "active".to_string(),
        address: address.to_string(),
    }
}

const WETH: &str = "0xC02aaA39b223FE8D0A0e5C4F27eAD9083C756Cc2";

fn weth_bytes() -> [u8; 20] {
    [
        0xc0, 0x2a, 0xaa, 0x39, 0xb2, 0x23, 0xfe, 0x8d, 0x0a, 0x0e, 0x5c, 0x4f, 0x27, 0xea, 0xd9, 0x08, 0x3c, 0x75,
        0x6c, 0xc2,
    ]
}

#[test]
fn parse_address_with_prefix() {
    assert_eq!(Address::parse(WETH), Some(Address { bytes: weth_bytes() }));
}

#[test]
fn parse_address_without_prefix_and_upper_prefix() {
    assert_eq!(Address::parse(&WETH[2..]), Some(Address { bytes: weth_bytes() }));
    let upper = format!("0X{}", &WETH[2..]);
    assert_eq!(Address::parse(&upper), Some(Address { bytes: weth_bytes() }));
}

#[test]
fn parse_address_rejects_bad_text() {
    assert_eq!(Address::parse(""), None);
    assert_eq!(Address::parse("0x1234"), None);
    assert_eq!(Address::parse(&WETH[..41]), None);
    assert_eq!(Address::parse(&format!("{}00", WETH)), None);
    assert_eq!(Address::parse("0xZ02aaA39b223FE8D0A0e5C4F27eAD9083C756Cc2"), None);
    assert_eq!(Address::parse("x0C02aaA39b223FE8D0A0e5C4F27eAD9083C756Cc2"), None);
}

#[test]
fn address_comparisons() {
    let a = Address::parse(WETH).unwrap();
    let b = Address { bytes: weth_bytes() };
    let z = Address { bytes: [0; 20] };
    assert!(a.same_as(&b));
    assert!(!a.same_as(&z));
    assert!(z.is_zero());
    assert!(!a.is_zero());
}

#[test]
fn checked_address_and_to_erc20() {
    let i = info(WETH);
    assert_eq!(i.checked_address(), Some(Address { bytes: weth_bytes() }));
    let tok = i.to_erc20(1);
    assert_eq!(tok.chain_id, 1);
    assert_eq!(tok.address, Address { bytes: weth_bytes() });
    assert_eq!(tok.name, "Wrapped Ether");
    assert_eq!(tok.symbol, "WETH");
    assert_eq!(tok.decimals, 18);
    assert_eq!(info("not an address").checked_address(), None);
}
