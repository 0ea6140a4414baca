use zeus_tokens::wire::WireError;
use zeus_tokens::{decode_token_list, encode_token_list, TokenData};

fn sample(chain_id: u64, name: &str, x32: Vec<u8>, x24: Vec<u8>) -> TokenData {
    TokenData::new(
        chain_id,
        "0x0000000000000000000000000000000000000001".to_string(),
        name.to_string(),
        "SYM".to_string(),
        18,
        x32,
        x24,
    )
}

#[test]
fn new_keeps_every_field() {
    let t = TokenData::new(10, "0xab".to_string(), "Name".to_string(), "N".to_string(), 6, vec![1, 2], vec![3]);
    assert_eq!(t.chain_id, 10);
    assert_eq!(t.address, "0xab");
    assert_eq!(t.name, "Name");
    assert_eq!(t.symbol, "N");
    assert_eq!(t.decimals, 6);
    assert_eq!(t.icon_data_x32, vec![1, 2]);
    assert_eq!(t.icon_data_x24, vec![3]);
}

#[test]
fn encode_exact_bytes() {
    let t = TokenData::new(1, "0x01".to_string(), "A".to_string(), "B".to_string(), 18, vec![1, 2], vec![]);
    let bytes = t.encode();
    assert_eq!(bytes, vec![1, 4, b'0', b'x', b'0', b'1', 1, b'A', 1, b'B', 18, 2, 1, 2, 0]);
}

#[test]
fn encode_wide_chain_ids() {
    let t = sample(300, "", vec![], vec![]);
    assert_eq!(&t.encode()[..3], &[251, 44, 1]);
    let t = sample(70000, "", vec![], vec![]);
    assert_eq!(&t.encode()[..5], &[252, 0x70, 0x11, 0x01, 0x00]);
    let t = sample(1u64 << 40, "", vec![], vec![]);
    assert_eq!(&t.encode()[..9], &[253, 0, 0, 0, 0, 0, 1, 0, 0]);
    let t = sample(250, "", vec![], vec![]);
    assert_eq!(t.encode()[0], 250);
    let t = sample(251, "", vec![], vec![]);
    assert_eq!(&t.encode()[..3], &[251, 251, 0]);
}

#[test]
fn encode_matches_bincode_of_the_fields() {
    let t = sample(42161, "Ünïcode ✓", vec![9; 300], vec![7; 5]);
    let fields = (
        t.chain_id,
        t.address.clone(),
        t.name.clone(),
        t.symbol.clone(),
        t.decimals,
        t.icon_data_x32.clone(),
        t.icon_data_x24.clone(),
    );
    let expected = bincode_next::encode_to_vec(&fields, bincode_next::config::standard()).unwrap();
    assert_eq!(t.encode(), expected);
}

#[test]
fn list_encoding_matches_bincode_of_the_fields() {
    let ts = vec![sample(1, "one", vec![1], vec![2]), sample(8453, "two", vec![], vec![3, 4])];
    let fields: Vec<(u64, String, String, String, u8, Vec<u8>, Vec<u8>)> = ts
        .iter()
        .map(|t| {
            (
                t.chain_id,
                t.address.clone(),
                t.name.clone(),
                t.symbol.clone(),
                t.decimals,
                t.icon_data_x32.clone(),
                t.icon_data_x24.clone(),
            )
        })
        .collect();
    let expected = bincode_next::encode_to_vec(&fields, bincode_next::config::standard()).unwrap();
    assert_eq!(encode_token_list(&ts), expected);
}

#[test]
fn decode_gives_back_the_record() {
    let t = sample(56, "Ünïcode ✓", vec![1; 260], vec![2; 3]);
    let mut bytes = t.encode();
    let len = bytes.len();
    bytes.extend_from_slice(&[0xff, 0xee]);
    let (back, n) = TokenData::decode(&bytes).unwrap();
    assert_eq!(back, t);
    assert_eq!(n, len);
}

#[test]
fn decode_list_gives_back_the_list() {
    let ts = vec![sample(1, "a", vec![], vec![]), sample(10, "b", vec![5; 70000], vec![6])];
    let bytes = encode_token_list(&ts);
    let (back, n) = decode_token_list(&bytes).unwrap();
    assert_eq!(back, ts);
    assert_eq!(n, bytes.len());
}

#[test]
fn decode_empty_list() {
    let (back, n) = decode_token_list(&[0]).unwrap();
    assert!(back.is_empty());
    assert_eq!(n, 1);
}

#[test]
fn decode_reads_what_bincode_wrote() {
    let fields = (5u64, "0x02".to_string(), "Name".to_string(), "NM".to_string(), 9u8, vec![1u8, 2, 3], vec![4u8]);
    let bytes = bincode_next::encode_to_vec(&fields, bincode_next::config::standard()).unwrap();
    let (t, n) = TokenData::decode(&bytes).unwrap();
    assert_eq!(n, bytes.len());
    assert_eq!(t, TokenData::new(5, "0x02".to_string(), "Name".to_string(), "NM".to_string(), 9, vec![1, 2, 3], vec![4]));
}

#[test]
fn decode_accepts_wide_forms_of_small_values() {
    let mut bytes = vec![251, 7, 0];
    bytes.extend_from_slice(&[0, 0, 0, 0, 0, 0, 0]);
    let (t, n) = TokenData::decode(&bytes).unwrap();
    assert_eq!(t.chain_id, 7);
    assert_eq!(n, 9);
}

#[test]
fn decode_errors() {
    assert_eq!(TokenData::decode(&[]), Err(WireError::Truncated));
    assert_eq!(TokenData::decode(&[254, 0, 0, 0]), Err(WireError::BadIntegerTag));
    assert_eq!(TokenData::decode(&[255]), Err(WireError::BadIntegerTag));
    assert_eq!(TokenData::decode(&[251, 1]), Err(WireError::Truncated));
    // address announces 5 bytes, only 2 follow
    assert_eq!(TokenData::decode(&[1, 5, b'a', b'b']), Err(WireError::Truncated));
    // address bytes are not UTF-8
    assert_eq!(TokenData::decode(&[1, 2, 0xc3, 0x28, 0, 0, 0, 0, 0]), Err(WireError::InvalidUtf8));
    // decimals missing
    assert_eq!(TokenData::decode(&[1, 0, 0, 0]), Err(WireError::Truncated));
    // second icon missing
    assert_eq!(TokenData::decode(&[1, 0, 0, 0, 18, 0]), Err(WireError::Truncated));
    // icon length tag is invalid
    assert_eq!(TokenData::decode(&[1, 0, 0, 0, 18, 254]), Err(WireError::BadIntegerTag));
    // a huge announced length is refused before any allocation
    assert_eq!(TokenData::decode(&[1, 253, 255, 255, 255, 255, 255, 255, 255, 127]), Err(WireError::Truncated));
}

#[test]
fn decode_list_errors() {
    assert_eq!(decode_token_list(&[]), Err(WireError::Truncated));
    assert_eq!(decode_token_list(&[2, 1, 0, 0, 0, 0, 0, 0]), Err(WireError::Truncated));
    assert_eq!(decode_token_list(&[253, 255, 255, 255, 255, 255, 255, 255, 255]), Err(WireError::Truncated));
    assert_eq!(decode_token_list(&[254]), Err(WireError::BadIntegerTag));
}
