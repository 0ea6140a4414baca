use image::GenericImageView;
use zeus_tokens::chain::Chain;
use zeus_tokens::entry::{icons_outcome, EntryEvent, EntryMachine, EntryOutcome, EntryPhase, EntryStep, SkipReason};
use zeus_tokens::icons::{encode_icons, make_icons, resize_logo, IconError};
use zeus_tokens::token_info::TokenInfo;

const WETH: &str = "0xC02aaA39b223FE8D0A0e5C4F27eAD9083C756Cc2";

fn info(address: &str) -> TokenInfo {
    TokenInfo {
        name: "Wrapped Ether".to_string(),
        type2: "ERC20".to_string(),
        symbol: "WETH".to_string(),
        decimals: 18,
        website: String::new(),
        description: String::new(),
        explorer: String::new(),
        status: "active".to_string(),
        address: address.to_string(),
    }
}

fn logo(side: u32) -> image::DynamicImage {
    image::DynamicImage::new_rgba8(side, side)
}

#[test]
fn resize_logo_fits_the_list_square() {
    let small = resize_logo(&logo(64));
    assert_eq!(small.dimensions(), (32, 32));
}

#[test]
fn icons_are_png_of_both_sizes() {
    let (large, small) = make_icons(&logo(32)).unwrap();
    assert_eq!(&large[..8], &[0x89, b'P', b'N', b'G', 0x0d, 0x0a, 0x1a, 0x0a]);
    assert_eq!(image::load_from_memory(&large).unwrap().dimensions(), (32, 32));
    assert_eq!(image::load_from_memory(&small).unwrap().dimensions(), (24, 24));
}

fn step(m: EntryMachine, e: EntryEvent) -> (EntryMachine, EntryStep) {
    assert!(m.is_well_formed());
    assert!(m.accepts(&e));
    m.advance(e)
}

fn skip_reason(s: &EntryStep) -> Option<SkipReason> {
    match s {
        EntryStep::Finished(EntryOutcome::Skipped(r)) => Some(*r),
        _ => None,
    }
}

#[test]
fn bsc_entries_are_skipped() {
    let (m, s) = EntryMachine::start(Chain::BinanceSmartChain);
    assert_eq!(skip_reason(&s), Some(SkipReason::UnsupportedChain));
    assert!(matches!(m.phase, EntryPhase::Done));
}

#[test]
fn missing_files_are_skipped() {
    let (m, s) = EntryMachine::start(Chain::Ethereum);
    assert!(matches!(s, EntryStep::CheckFiles));
    let (_, s) = step(m, EntryEvent::Files { logo_is_file: false, info_is_file: true });
    assert_eq!(skip_reason(&s), Some(SkipReason::NoLogo));
    let (m, _) = EntryMachine::start(Chain::Ethereum);
    let (_, s) = step(m, EntryEvent::Files { logo_is_file: true, info_is_file: false });
    assert_eq!(skip_reason(&s), Some(SkipReason::NoInfo));
}

#[test]
fn invalid_address_is_skipped() {
    let (m, _) = EntryMachine::start(Chain::Base);
    let (m, s) = step(m, EntryEvent::Files { logo_is_file: true, info_is_file: true });
    assert!(matches!(s, EntryStep::ReadInfo));
    let (_, s) = step(m, EntryEvent::InfoRead(info("0x123")));
    assert_eq!(skip_reason(&s), Some(SkipReason::InvalidAddress));
}

#[test]
fn illiquid_token_is_skipped() {
    let (m, _) = EntryMachine::start(Chain::Base);
    let (m, _) = step(m, EntryEvent::Files { logo_is_file: true, info_is_file: true });
    let (m, s) = step(m, EntryEvent::InfoRead(info(WETH)));
    match &s {
        EntryStep::ClassifyToken(t) => assert_eq!(t.chain_id, 8453),
        other => panic!("unexpected step {:?}", other),
    }
    let (m, s) = step(m, EntryEvent::BaseToken(false));
    match &s {
        EntryStep::CheckLiquidity(t) => assert_eq!(t.symbol, "WETH"),
        other => panic!("unexpected step {:?}", other),
    }
    let (_, s) = step(m, EntryEvent::Liquidity(false));
    assert_eq!(skip_reason(&s), Some(SkipReason::NotLiquid));
}

#[test]
fn unreadable_logo_is_skipped() {
    let (m, _) = EntryMachine::start(Chain::Arbitrum);
    let (m, _) = step(m, EntryEvent::Files { logo_is_file: true, info_is_file: true });
    let (m, _) = step(m, EntryEvent::InfoRead(info(WETH)));
    let (m, s) = step(m, EntryEvent::BaseToken(true));
    assert!(matches!(s, EntryStep::OpenLogo));
    let (_, s) = step(m, EntryEvent::Logo(None));
    assert_eq!(skip_reason(&s), Some(SkipReason::UnreadableLogo));
}

#[test]
fn liquid_token_is_kept_with_its_icons() {
    let (m, _) = EntryMachine::start(Chain::Optimism);
    let (m, _) = step(m, EntryEvent::Files { logo_is_file: true, info_is_file: true });
    let (m, _) = step(m, EntryEvent::InfoRead(info(WETH)));
    let (m, _) = step(m, EntryEvent::BaseToken(false));
    let (m, s) = step(m, EntryEvent::Liquidity(true));
    assert!(matches!(s, EntryStep::OpenLogo));
    let (m, s) = step(m, EntryEvent::Logo(Some(logo(32))));
    assert!(matches!(m.phase, EntryPhase::Done));
    match s {
        EntryStep::Finished(EntryOutcome::Kept(t)) => {
            assert_eq!(t.chain_id, 10);
            assert_eq!(t.address, WETH);
            assert_eq!(t.name, "Wrapped Ether");
            assert_eq!(t.symbol, "WETH");
            assert_eq!(t.decimals, 18);
            assert_eq!(image::load_from_memory(&t.icon_data_x32).unwrap().dimensions(), (32, 32));
            assert_eq!(image::load_from_memory(&t.icon_data_x24).unwrap().dimensions(), (24, 24));
        },
        other => panic!("unexpected step {:?}", other),
    }
}

#[test]
fn events_out_of_turn_are_not_accepted() {
    let (m, _) = EntryMachine::start(Chain::Ethereum);
    assert!(!m.accepts(&EntryEvent::Liquidity(true)));
    assert!(!m.accepts(&EntryEvent::InfoRead(info(WETH))));
    let (done, _) = EntryMachine::start(Chain::BinanceSmartChain);
    assert!(!done.accepts(&EntryEvent::Files { logo_is_file: true, info_is_file: true }));
}

#[test]
fn resize_logo_keeps_the_aspect_ratio() {
    let wide = image::DynamicImage::new_rgba8(64, 16);
    assert_eq!(resize_logo(&wide).dimensions(), (32, 8));
    let small = image::DynamicImage::new_rgb8(10, 20);
    let r = resize_logo(&small);
    assert!(r.width() <= 32 && r.height() <= 32 && r.width() > 0 && r.height() > 0);
}

#[test]
fn icon_headers_carry_the_sizes() {
    let img = image::DynamicImage::new_rgb8(40, 20);
    let (large, small) = make_icons(&img).unwrap();
    assert_eq!(&large[16..24], &[0, 0, 0, 40, 0, 0, 0, 20]);
    assert_eq!(&small[16..24], &[0, 0, 0, 24, 0, 0, 0, 12]);
}

#[test]
fn icons_fail_for_an_empty_or_float_logo() {
    assert!(make_icons(&image::DynamicImage::new_rgba8(0, 0)).is_err());
    assert!(make_icons(&image::DynamicImage::new_rgb32f(4, 4)).is_err());
}

#[test]
fn icons_outcome_keeps_the_icons_in_place() {
    match icons_outcome(info(WETH), Chain::Base, Ok((vec![1, 2], vec![3]))) {
        EntryOutcome::Kept(t) => {
            assert_eq!(t.icon_data_x32, vec![1, 2]);
            assert_eq!(t.icon_data_x24, vec![3]);
            assert_eq!(t.chain_id, 8453);
            assert_eq!(t.address, WETH);
        },
        other => panic!("unexpected outcome {:?}", other),
    }
    match icons_outcome(info(WETH), Chain::Base, Err(IconError::Encoding("bad".to_string()))) {
        EntryOutcome::Failed(IconError::Encoding(m)) => assert_eq!(m, "bad"),
        other => panic!("unexpected outcome {:?}", other),
    }
}

#[test]
fn resizing_a_resized_logo_keeps_its_sides() {
    for (w, h) in [(64u32, 16u32), (10, 20), (100, 100), (33, 7), (1, 1)] {
        let once = resize_logo(&image::DynamicImage::new_rgba8(w, h));
        let twice = resize_logo(&once);
        assert_eq!(once.dimensions(), twice.dimensions());
        assert!(once.width() == 32 || once.height() == 32);
    }
}

#[test]
fn encode_icons_takes_the_scaled_image() {

    let logo = image::DynamicImage::new_rgb8(30, 30);
    let scaled = image::DynamicImage::new_rgb8(5, 3);
    let (large, small) = encode_icons(&logo, &scaled).unwrap();
    assert_eq!(&large[16..24], &[0, 0, 0, 30, 0, 0, 0, 30]);
    assert_eq!(&small[16..24], &[0, 0, 0, 5, 0, 0, 0, 3]);
    assert!(encode_icons(&logo, &image::DynamicImage::new_rgb8(0, 3)).is_err());
}
