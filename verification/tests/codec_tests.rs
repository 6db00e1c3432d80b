use token_acl::addr::Address;
use token_acl::codec::{
    decode_access_level, decode_allow_record, decode_block_record, decode_mint_config,
    encode_access_level, encode_allow_record, encode_block_record, encode_mint_config,
};
use token_acl::config::MintConfig;
use token_acl::gate::{decode_gate_config, encode_gate_config, Config};
use token_acl::records::{AccessLevel, AllowListRecord, BlockListRecord, BlockReason};

fn addr(n: u8) -> Address {
    let mut bytes = [0u8; 32];
    bytes[0] = n;
    bytes[31] = n.wrapping_add(1);
    Address::new(bytes)
}

#[test]
fn test_access_level() {
    let level = AccessLevel::Enhanced;
    assert_eq!(level, AccessLevel::Enhanced);

    let serialized = encode_access_level(&level);
    let deserialized = decode_access_level(serialized).unwrap();
    assert_eq!(deserialized, level);
}

#[test]
fn test_access_level_all_variants() {
    for (byte, level) in [
        (0u8, AccessLevel::NoAccess),
        (1, AccessLevel::Basic),
        (2, AccessLevel::Enhanced),
        (3, AccessLevel::Institutional),
    ] {
        assert_eq!(encode_access_level(&level), byte);
        assert_eq!(decode_access_level(byte), Some(level));
    }
    assert_eq!(decode_access_level(4), None);
    assert_eq!(decode_access_level(255), None);
}

#[test]
fn test_mint_config_round_trip() {
    let mut config = MintConfig::new(addr(1), addr(2), Some(addr(3)));
    config.enable_permissionless_thaw = true;
    let bytes = encode_mint_config(&config);
    assert_eq!(bytes.len(), 99);
    assert_eq!(bytes[0], 0x01);
    let back = decode_mint_config(&bytes).unwrap();
    assert_eq!(back, config);
}

#[test]
fn test_mint_config_exact_bytes() {
    let config = MintConfig::new(addr(1), addr(2), None);
    let bytes = encode_mint_config(&config);
    let mut expected = vec![0x01u8];
    expected.extend_from_slice(&addr(1).to_bytes());
    expected.extend_from_slice(&addr(2).to_bytes());
    expected.extend_from_slice(&[0u8; 32]);
    expected.push(0);
    expected.push(0);
    assert_eq!(bytes, expected);
}

#[test]
fn test_mint_config_decode_rejects_malformed() {
    let config = MintConfig::new(addr(1), addr(2), Some(addr(3)));
    let good = encode_mint_config(&config);
    // Wrong discriminator.
    let mut bad_tag = good.clone();
    bad_tag[0] = 0x02;
    assert!(decode_mint_config(&bad_tag).is_none());
    // Wrong length.
    let mut short = good.clone();
    short.pop();
    assert!(decode_mint_config(&short).is_none());
    // Non-canonical flag byte.
    let mut bad_flag = good.clone();
    bad_flag[97] = 2;
    assert!(decode_mint_config(&bad_flag).is_none());
    // Empty input.
    assert!(decode_mint_config(&Vec::new()).is_none());
}

#[test]
fn test_allow_record_round_trip_no_expiry() {
    let record = AllowListRecord {
        mint: addr(4),
        user: addr(5),
        allowed: true,
        access_level: AccessLevel::Basic,
        added_timestamp: 1234567890,
        expiry_timestamp: None,
        bump: 254,
    };
    let bytes = encode_allow_record(&record);
    assert_eq!(bytes.len(), 85);
    assert_eq!(bytes[0], 0x02);
    let back = decode_allow_record(&bytes).unwrap();
    assert_eq!(back, record);
}

#[test]
fn test_allow_record_round_trip_with_expiry() {
    let record = AllowListRecord {
        mint: addr(6),
        user: addr(7),
        allowed: false,
        access_level: AccessLevel::Institutional,
        added_timestamp: -5,
        expiry_timestamp: Some(i64::MIN),
        bump: 0,
    };
    let bytes = encode_allow_record(&record);
    let back = decode_allow_record(&bytes).unwrap();
    assert_eq!(back, record);

    let extremes = AllowListRecord {
        expiry_timestamp: Some(i64::MAX),
        added_timestamp: i64::MIN,
        ..record
    };
    let bytes = encode_allow_record(&extremes);
    let back = decode_allow_record(&bytes).unwrap();
    assert_eq!(back, extremes);
}

#[test]
fn test_allow_record_decode_rejects_malformed() {
    let record = AllowListRecord {
        mint: addr(4),
        user: addr(5),
        allowed: true,
        access_level: AccessLevel::Enhanced,
        added_timestamp: 0,
        expiry_timestamp: None,
        bump: 1,
    };
    let good = encode_allow_record(&record);
    // Invalid access level byte.
    let mut bad_level = good.clone();
    bad_level[66] = 9;
    assert!(decode_allow_record(&bad_level).is_none());
    // Non-canonical allowed byte.
    let mut bad_bool = good.clone();
    bad_bool[65] = 2;
    assert!(decode_allow_record(&bad_bool).is_none());
    // Absent expiry must keep its bytes zeroed.
    let mut bad_expiry = good.clone();
    bad_expiry[76] = 1;
    assert!(decode_allow_record(&bad_expiry).is_none());
    // Empty account data is not a record.
    assert!(decode_allow_record(&Vec::new()).is_none());
}

#[test]
fn test_block_record_round_trip() {
    let record = BlockListRecord {
        mint: addr(8),
        user: addr(9),
        blocked: true,
        reason: BlockReason::Sanctions,
        added_timestamp: 1234567890,
    };
    let bytes = encode_block_record(&record);
    assert_eq!(bytes.len(), 75);
    assert_eq!(bytes[0], 0x03);
    let back = decode_block_record(&bytes).unwrap();
    assert_eq!(back, record);

    for reason in [
        BlockReason::Sanctions,
        BlockReason::Compliance,
        BlockReason::RiskAssessment,
        BlockReason::Other,
    ] {
        let r = BlockListRecord { reason, ..record.clone() };
        let back = decode_block_record(&encode_block_record(&r)).unwrap();
        assert_eq!(back, r);
    }
}

#[test]
fn test_block_record_decode_rejects_malformed() {
    let record = BlockListRecord {
        mint: addr(8),
        user: addr(9),
        blocked: false,
        reason: BlockReason::Other,
        added_timestamp: 7,
    };
    let good = encode_block_record(&record);
    let mut bad_reason = good.clone();
    bad_reason[66] = 4;
    assert!(decode_block_record(&bad_reason).is_none());
    let mut bad_tag = good.clone();
    bad_tag[0] = 0x02;
    assert!(decode_block_record(&bad_tag).is_none());
    let mut long = good.clone();
    long.push(0);
    assert!(decode_block_record(&long).is_none());
}

#[test]
fn test_gate_config_round_trip() {
    let config = Config { authority: addr(10), mint: addr(11), bump: 253 };
    let bytes = encode_gate_config(&config);
    assert_eq!(bytes.len(), 66);
    assert_eq!(bytes[0], 0x04);
    let back = decode_gate_config(&bytes).unwrap();
    assert_eq!(back, config);
    let mut bad = bytes.clone();
    bad[0] = 0x01;
    assert!(decode_gate_config(&bad).is_none());
}
