use std::collections::HashSet;

use token_acl::addr::Address;
use token_acl::derive::{
    derive_allow_record_address, derive_block_record_address, derive_extra_metas_address,
    derive_gate_config_address, derive_mint_config_address,
};

fn addr(n: u8) -> Address {
    let mut bytes = [0u8; 32];
    bytes[0] = n;
    Address::new(bytes)
}

fn addr_from_u64(x: u64) -> Address {
    let mut bytes = [0u8; 32];
    bytes[..8].copy_from_slice(&x.to_le_bytes());
    bytes[8..16].copy_from_slice(&x.wrapping_mul(0x9e3779b97f4a7c15).to_le_bytes());
    Address::new(bytes)
}

#[test]
fn integration_test_pda_derivation_correctness() {
    let mint = addr(1);
    let program_id = addr(2);

    let (pda, bump) = derive_mint_config_address(&mint, &program_id).unwrap();
    assert!(!(bump == 0 && pda == Address::unset()));

    let pk = solana_program::pubkey::Pubkey::new_from_array(pda.to_bytes());
    assert!(!pk.is_on_curve());

    // Deterministic: derive again.
    let (pda2, bump2) = derive_mint_config_address(&mint, &program_id).unwrap();
    assert_eq!(pda, pda2);
    assert_eq!(bump, bump2);

    // Different mints produce different addresses.
    let mint2 = addr(3);
    let (pda3, _) = derive_mint_config_address(&mint2, &program_id).unwrap();
    assert_ne!(pda, pda3);

    // Different programs produce different addresses.
    let program_id2 = addr(4);
    let (pda4, _) = derive_mint_config_address(&mint, &program_id2).unwrap();
    assert_ne!(pda, pda4);
}

#[test]
fn integration_tests_test_pda_derivation_correctness() {
    let mint = addr(5);
    let program_id = addr(6);

    let (pda, bump) = derive_mint_config_address(&mint, &program_id).unwrap();
    assert!(!(bump == 0 && pda == Address::unset()));
    let pk = solana_program::pubkey::Pubkey::new_from_array(pda.to_bytes());
    assert!(!pk.is_on_curve());

    let (pda2, bump2) = derive_mint_config_address(&mint, &program_id).unwrap();
    assert_eq!(pda, pda2);
    assert_eq!(bump, bump2);

    let (pda3, _) = derive_mint_config_address(&addr(7), &program_id).unwrap();
    assert_ne!(pda, pda3);
    let (pda4, _) = derive_mint_config_address(&mint, &addr(8)).unwrap();
    assert_ne!(pda, pda4);
}

/// Randomized trials: differing inputs give differing addresses, with no
/// observed collision.
#[test]
fn test_derivation_distinctness_trials() {
    let program_id = addr(9);
    let mut seen: HashSet<[u8; 32]> = HashSet::new();
    let mut x: u64 = 0x243f6a8885a308d3;
    for _ in 0..10_000 {
        // A simple linear congruential step keeps each trial's mint distinct.
        x = x.wrapping_mul(6364136223846793005).wrapping_add(1442695040888963407);
        let mint = addr_from_u64(x);
        let (pda, _) = derive_mint_config_address(&mint, &program_id).unwrap();
        assert!(seen.insert(pda.to_bytes()), "derived address collision");
    }
    assert_eq!(seen.len(), 10_000);
}

/// Different purpose seeds separate the derived namespaces for the same
/// (mint, subject, program) inputs.
#[test]
fn test_purpose_seed_separation() {
    let mint = addr(10);
    let user = addr(11);
    let gate_program = addr(12);

    let (allow_pda, _) = derive_allow_record_address(&mint, &user, &gate_program).unwrap();
    let (block_pda, _) = derive_block_record_address(&mint, &user, &gate_program).unwrap();
    let (config_pda, _) = derive_gate_config_address(&mint, &gate_program).unwrap();
    let (thaw_metas, _) = derive_extra_metas_address(true, &mint, &gate_program).unwrap();
    let (freeze_metas, _) = derive_extra_metas_address(false, &mint, &gate_program).unwrap();

    let all = [allow_pda, block_pda, config_pda, thaw_metas, freeze_metas];
    for i in 0..all.len() {
        for j in 0..all.len() {
            if i != j {
                assert_ne!(all[i], all[j]);
            }
        }
    }
}
