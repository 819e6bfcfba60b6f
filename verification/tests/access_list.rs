use aquatic::common::access_list::{parse_info_hash, AccessList, AccessListMode, AccessListQuery, HexError};

#[test]
fn test_parse_info_hash() {
    let f = parse_info_hash;

    assert!(f("aaaabbbbccccddddeeeeaaaabbbbccccddddeeee").is_ok());
    assert!(f("aaaabbbbccccddddeeeeaaaabbbbccccddddeeeef").is_err());
    assert!(f("aaaabbbbccccddddeeeeaaaabbbbccccddddeee").is_err());
    assert!(f("aaaabbbbccccddddeeeeaaaabbbbccccddddeeeö").is_err());
}

#[test]
fn test_cache_allows() {
    let mut access_list = AccessList::new();

    let a = parse_info_hash("aaaaaaaaaaaaaaaaaaaaaaaaaaaaaaaaaaaaaaaa").unwrap();
    let b = parse_info_hash("bbbbbbbbbbbbbbbbbbbbbbbbbbbbbbbbbbbbbbbb").unwrap();
    let c = parse_info_hash("cccccccccccccccccccccccccccccccccccccccc").unwrap();

    access_list
        .insert_from_line("aaaaaaaaaaaaaaaaaaaaaaaaaaaaaaaaaaaaaaaa")
        .unwrap();
    access_list
        .insert_from_line("bbbbbbbbbbbbbbbbbbbbbbbbbbbbbbbbbbbbbbbb")
        .unwrap();

    assert!(access_list.allows(AccessListMode::Allow, &a));
    assert!(access_list.allows(AccessListMode::Allow, &b));
    assert!(!access_list.allows(AccessListMode::Allow, &c));

    assert!(!access_list.allows(AccessListMode::Deny, &a));
    assert!(!access_list.allows(AccessListMode::Deny, &b));
    assert!(access_list.allows(AccessListMode::Deny, &c));

    assert!(access_list.allows(AccessListMode::Off, &a));
    assert!(access_list.allows(AccessListMode::Off, &b));
    assert!(access_list.allows(AccessListMode::Off, &c));

    let access_list = AccessList::new();

    assert!(access_list.allows(AccessListMode::Deny, &a));
    assert!(access_list.allows(AccessListMode::Deny, &b));
}

#[test]
fn parse_info_hash_decodes_bytes() {
    let bytes = parse_info_hash("000102030405060708090a0b0c0d0e0f10111213").unwrap();
    let expected: Vec<u8> = (0u8..20).collect();
    assert_eq!(bytes.to_vec(), expected);
    let upper = parse_info_hash("FFFFFFFFFFFFFFFFFFFFFFFFFFFFFFFFFFFFFFFF").unwrap();
    assert_eq!(upper, [0xff; 20]);
}

#[test]
fn parse_info_hash_errors() {
    assert_eq!(parse_info_hash("abc"), Err(HexError::OddLength));
    assert_eq!(parse_info_hash("abcd"), Err(HexError::InvalidStringLength));
    assert_eq!(
        parse_info_hash("aaaabbbbccccddddeeeeaaaabbbbccccddddeeex"),
        Err(HexError::InvalidHexCharacter { c: 'x', index: 39 })
    );
}

#[test]
fn test_access_list_query() {
    let mut access_list = AccessList::new();
    access_list.insert_from_line("aaaaaaaaaaaaaaaaaaaaaaaaaaaaaaaaaaaaaaaa").unwrap();
    let a = parse_info_hash("aaaaaaaaaaaaaaaaaaaaaaaaaaaaaaaaaaaaaaaa").unwrap();
    let b = [0xbbu8; 20];
    let query: &dyn AccessListQuery = &access_list;
    assert!(query.allows(AccessListMode::Allow, &a));
    assert!(!query.allows(AccessListMode::Allow, &b));
    assert!(!query.allows(AccessListMode::Deny, &a));
    assert!(query.allows(AccessListMode::Deny, &b));
    assert!(query.allows(AccessListMode::Off, &a));
}

#[test]
fn test_parse_info_hash_hex_round_trip() {
    let mut b = [0u8; 20];
    for (i, x) in b.iter_mut().enumerate() {
        *x = (i as u8).wrapping_mul(37).wrapping_add(0xa5);
    }
    assert_eq!(parse_info_hash(&hex::encode(b)), Ok(b));
    assert_eq!(parse_info_hash(&hex::encode_upper(b)), Ok(b));

    let mixed = "AaAaBbBbCcCcDdDdEeEeAaAaBbBbCcCcDdDdEeEe";
    let parsed = parse_info_hash(mixed).unwrap();
    assert_eq!(hex::encode(parsed), mixed.to_ascii_lowercase());
}

#[test]
fn test_create_from_raw_lines() {
    let lines = vec![
        "  aaaaaaaaaaaaaaaaaaaaaaaaaaaaaaaaaaaaaaaa\t".to_string(),
        "   ".to_string(),
        String::new(),
        "BBBBBBBBBBBBBBBBBBBBBBBBBBBBBBBBBBBBBBBB".to_string(),
    ];
    let list = AccessList::create_from_raw_lines(&lines).unwrap();
    assert_eq!(list.len(), 2);
    assert!(list.allows(AccessListMode::Allow, &[0xaa; 20]));
    assert!(list.allows(AccessListMode::Allow, &[0xbb; 20]));

    let lines = vec!["aaaaaaaaaaaaaaaaaaaaaaaaaaaaaaaaaaaaaaaa".to_string(), " xyz ".to_string()];
    let invalid = AccessList::create_from_raw_lines(&lines).err().unwrap();
    assert_eq!(invalid.line_index, 1);
    assert_eq!(invalid.error, HexError::OddLength);
}
