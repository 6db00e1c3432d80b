use token_acl::accounts::AccountView;
use token_acl::addr::Address;
use token_acl::codec::{encode_allow_record, encode_block_record};
use token_acl::derive::{
    derive_allow_record_address, derive_block_record_address, derive_gate_config_address,
};
use token_acl::error::GatewayError;
use token_acl::gate::{
    allow_thaw_decision, block_freeze_decision, block_thaw_decision, gate_add_subject,
    gate_initialize, gate_process_instruction, gate_remove_subject, gate_update_authority,
    Config, Gate,
};
use token_acl::records::{
    create_allow_list_record, create_block_list_record, AccessLevel, AllowListRecord, BlockReason,
};
use token_acl::tags::{freeze_tag, thaw_tag};

fn addr(n: u8) -> Address {
    let mut bytes = [0u8; 32];
    bytes[0] = n;
    Address::new(bytes)
}

fn signer(address: Address) -> AccountView {
    AccountView { address, is_signer: true, is_writable: false, data: Vec::new() }
}

fn plain(address: Address) -> AccountView {
    AccountView { address, is_signer: false, is_writable: false, data: Vec::new() }
}

fn with_data(address: Address, data: Vec<u8>) -> AccountView {
    AccountView { address, is_signer: false, is_writable: false, data }
}

/// The six fixed-position interface accounts, with the record account last.
fn interface_accounts(
    caller: Address,
    token: Address,
    mint: Address,
    metas: Address,
    user: Address,
    record: AccountView,
) -> Vec<AccountView> {
    vec![plain(caller), plain(token), plain(mint), plain(metas), plain(user), record]
}

#[test]
fn test_allow_list_gate_decisions() {
    let now = 100;
    // Absent record: deny.
    assert!(!allow_thaw_decision(&Vec::new(), now));
    // Allowed, no expiry: grant.
    let rec = create_allow_list_record(&addr(1), &addr(2), 50);
    assert!(allow_thaw_decision(&encode_allow_record(&rec), now));
    // Not allowed: deny.
    let denied = AllowListRecord { allowed: false, ..rec.clone() };
    assert!(!allow_thaw_decision(&encode_allow_record(&denied), now));
    // Expired: deny.
    let expired = AllowListRecord { expiry_timestamp: Some(99), ..rec.clone() };
    assert!(!allow_thaw_decision(&encode_allow_record(&expired), now));
    // Not yet expired: grant.
    let live = AllowListRecord { expiry_timestamp: Some(100), ..rec };
    assert!(allow_thaw_decision(&encode_allow_record(&live), now));
    // Malformed record: deny.
    assert!(!allow_thaw_decision(&vec![0xff; 85], now));
}

#[test]
fn test_block_list_gate_decisions() {
    // Absent record: thaw granted, freeze denied.
    assert!(block_thaw_decision(&Vec::new()));
    assert!(!block_freeze_decision(&Vec::new()));
    // Blocked record: thaw denied, freeze granted.
    let blocked = create_block_list_record(&addr(1), &addr(2), BlockReason::Sanctions, 5);
    let blocked_bytes = encode_block_record(&blocked);
    assert!(!block_thaw_decision(&blocked_bytes));
    assert!(block_freeze_decision(&blocked_bytes));
    // Unblocked record: thaw granted, freeze denied.
    let mut unblocked = blocked;
    unblocked.blocked = false;
    let unblocked_bytes = encode_block_record(&unblocked);
    assert!(block_thaw_decision(&unblocked_bytes));
    assert!(!block_freeze_decision(&unblocked_bytes));
    // Malformed record: both denied.
    assert!(!block_thaw_decision(&vec![0xee; 75]));
    assert!(!block_freeze_decision(&vec![0xee; 75]));
}

#[test]
fn test_gate_interface_dispatch() {
    let gate_program = addr(9);
    let mint = addr(1);
    let user = addr(2);
    let now = 10;

    let (record_pda, _) = derive_allow_record_address(&mint, &user, &gate_program).unwrap();
    let rec = create_allow_list_record(&mint, &user, 0);
    let record = with_data(record_pda, encode_allow_record(&rec));
    let accounts = interface_accounts(addr(3), addr(4), mint, addr(5), user, record);

    // The allow-list gate grants thaw for an allowed record...
    assert!(gate_process_instruction(
        &Gate::AllowList,
        &gate_program,
        &accounts,
        &thaw_tag().to_vec(),
        now
    ));
    // ...but declines freeze: an unsupported operation reads as a denial.
    assert!(!gate_process_instruction(
        &Gate::AllowList,
        &gate_program,
        &accounts,
        &freeze_tag().to_vec(),
        now
    ));
    // Unknown or short payloads deny.
    assert!(!gate_process_instruction(
        &Gate::AllowList,
        &gate_program,
        &accounts,
        &vec![9, 9, 9, 9, 9, 9, 9, 9],
        now
    ));
    assert!(!gate_process_instruction(&Gate::AllowList, &gate_program, &accounts, &vec![8], now));
    // A record at a different address than the bound gate's own derivation denies.
    let misplaced = with_data(addr(6), encode_allow_record(&rec));
    let bad_accounts = interface_accounts(addr(3), addr(4), mint, addr(5), user, misplaced);
    assert!(!gate_process_instruction(
        &Gate::AllowList,
        &gate_program,
        &bad_accounts,
        &thaw_tag().to_vec(),
        now
    ));
}

#[test]
fn test_block_list_gate_dispatch() {
    let gate_program = addr(9);
    let mint = addr(1);
    let user = addr(2);
    let (record_pda, _) = derive_block_record_address(&mint, &user, &gate_program).unwrap();

    // No record: thaw passes, freeze denied.
    let empty_record = with_data(record_pda, Vec::new());
    let accounts = interface_accounts(addr(3), addr(4), mint, addr(5), user, empty_record);
    assert!(gate_process_instruction(
        &Gate::BlockList,
        &gate_program,
        &accounts,
        &thaw_tag().to_vec(),
        0
    ));
    assert!(!gate_process_instruction(
        &Gate::BlockList,
        &gate_program,
        &accounts,
        &freeze_tag().to_vec(),
        0
    ));

    // Blocked record: freeze passes, thaw denied.
    let blocked = create_block_list_record(&mint, &user, BlockReason::Compliance, 1);
    let record = with_data(record_pda, encode_block_record(&blocked));
    let accounts = interface_accounts(addr(3), addr(4), mint, addr(5), user, record);
    assert!(!gate_process_instruction(
        &Gate::BlockList,
        &gate_program,
        &accounts,
        &thaw_tag().to_vec(),
        0
    ));
    assert!(gate_process_instruction(
        &Gate::BlockList,
        &gate_program,
        &accounts,
        &freeze_tag().to_vec(),
        0
    ));
}

/// A subject both block-listed and allow-listed must be denied by the
/// hybrid gate: the sanctions state dominates the allow-list state.
#[test]
fn test_sanctions_precedence() {
    let gate_program = addr(9);
    let mint = addr(1);
    let user = addr(2);
    let now = 10;

    let (allow_pda, _) = derive_allow_record_address(&mint, &user, &gate_program).unwrap();
    let (block_pda, _) = derive_block_record_address(&mint, &user, &gate_program).unwrap();

    // The subject is on the allow list, unexpired...
    let allow_rec = create_allow_list_record(&mint, &user, 0);
    // ...and also sanctioned on the block list.
    let block_rec = create_block_list_record(&mint, &user, BlockReason::Sanctions, 5);

    let mut accounts = interface_accounts(
        addr(3),
        addr(4),
        mint,
        addr(5),
        user,
        with_data(allow_pda, encode_allow_record(&allow_rec)),
    );
    accounts.push(with_data(block_pda, encode_block_record(&block_rec)));

    // Sanctions dominate: thaw denied even though the allow list grants it.
    assert!(!gate_process_instruction(
        &Gate::Hybrid,
        &gate_program,
        &accounts,
        &thaw_tag().to_vec(),
        now
    ));
    // The same subject may be permissionlessly frozen.
    assert!(gate_process_instruction(
        &Gate::Hybrid,
        &gate_program,
        &accounts,
        &freeze_tag().to_vec(),
        now
    ));

    // Lifting the sanction restores the allow-list decision.
    let mut lifted = block_rec;
    lifted.blocked = false;
    let last = accounts.len() - 1;
    accounts[last] = with_data(block_pda, encode_block_record(&lifted));
    assert!(gate_process_instruction(
        &Gate::Hybrid,
        &gate_program,
        &accounts,
        &thaw_tag().to_vec(),
        now
    ));

    // An unknown subject (no records at all) is denied by default.
    let stranger = addr(7);
    let (s_allow, _) = derive_allow_record_address(&mint, &stranger, &gate_program).unwrap();
    let (s_block, _) = derive_block_record_address(&mint, &stranger, &gate_program).unwrap();
    let mut stranger_accounts = interface_accounts(
        addr(3),
        addr(4),
        mint,
        addr(5),
        stranger,
        with_data(s_allow, Vec::new()),
    );
    stranger_accounts.push(with_data(s_block, Vec::new()));
    assert!(!gate_process_instruction(
        &Gate::Hybrid,
        &gate_program,
        &stranger_accounts,
        &thaw_tag().to_vec(),
        now
    ));
}

/// A KYC-style allow list with expiration: valid records are recognized,
/// expired records are rejected, and unknown subjects are denied.
#[test]
fn test_kyc_allowlist_with_expiration() {
    let gate_program = addr(9);
    let mint = addr(1);

    // Valid KYC: expires in the future.
    let investor = addr(2);
    let (investor_pda, bump) = derive_allow_record_address(&mint, &investor, &gate_program).unwrap();
    let valid = AllowListRecord {
        mint,
        user: investor,
        allowed: true,
        access_level: AccessLevel::Enhanced,
        added_timestamp: 1000,
        expiry_timestamp: Some(2000),
        bump,
    };
    let accounts = interface_accounts(
        addr(3),
        addr(4),
        mint,
        addr(5),
        investor,
        with_data(investor_pda, encode_allow_record(&valid)),
    );
    assert!(gate_process_instruction(
        &Gate::AllowList,
        &gate_program,
        &accounts,
        &thaw_tag().to_vec(),
        1500
    ));
    // The same record after expiry is rejected.
    assert!(!gate_process_instruction(
        &Gate::AllowList,
        &gate_program,
        &accounts,
        &thaw_tag().to_vec(),
        2500
    ));

    // A non-accredited subject with no record is blocked.
    let outsider = addr(6);
    let (outsider_pda, _) = derive_allow_record_address(&mint, &outsider, &gate_program).unwrap();
    let outsider_accounts = interface_accounts(
        addr(3),
        addr(4),
        mint,
        addr(5),
        outsider,
        with_data(outsider_pda, Vec::new()),
    );
    assert!(!gate_process_instruction(
        &Gate::AllowList,
        &gate_program,
        &outsider_accounts,
        &thaw_tag().to_vec(),
        1500
    ));
}

#[test]
fn test_gate_admin_operations() {
    let gate_program = addr(9);
    let mint = addr(1);
    let admin = addr(2);
    let user = addr(3);
    let now = 77;

    // Initialization checks the derived config address and the signature.
    let (config_pda, bump) = derive_gate_config_address(&mint, &gate_program).unwrap();
    assert_eq!(
        gate_initialize(&gate_program, &mint, &signer(admin), &addr(8)),
        Err(GatewayError::InvalidDerivedAddress)
    );
    assert_eq!(
        gate_initialize(&gate_program, &mint, &plain(admin), &config_pda),
        Err(GatewayError::Unauthorized)
    );
    let config = gate_initialize(&gate_program, &mint, &signer(admin), &config_pda).unwrap();
    assert_eq!(config, Config { authority: admin, mint, bump });

    // Adding a subject needs that gate's own authority and the right record
    // address.
    let (record_pda, record_bump) =
        derive_allow_record_address(&mint, &user, &gate_program).unwrap();
    assert_eq!(
        gate_add_subject(&config, &gate_program, &signer(addr(4)), &mint, &user, &record_pda, now),
        Err(GatewayError::Unauthorized)
    );
    assert_eq!(
        gate_add_subject(&config, &gate_program, &signer(admin), &mint, &user, &addr(8), now),
        Err(GatewayError::InvalidDerivedAddress)
    );
    let record =
        gate_add_subject(&config, &gate_program, &signer(admin), &mint, &user, &record_pda, now)
            .unwrap();
    assert!(record.allowed);
    assert_eq!(record.access_level, AccessLevel::Enhanced);
    assert_eq!(record.added_timestamp, now);
    assert_eq!(record.expiry_timestamp, None);
    assert_eq!(record.bump, record_bump);

    // Removing a subject clears the allowed flag in the stored bytes.
    let stored = encode_allow_record(&record);
    assert_eq!(
        gate_remove_subject(&config, &plain(admin), &stored),
        Err(GatewayError::Unauthorized)
    );
    assert_eq!(
        gate_remove_subject(&config, &signer(admin), &Vec::new()),
        Err(GatewayError::MalformedRecord)
    );
    let removed_bytes = gate_remove_subject(&config, &signer(admin), &stored).unwrap();
    assert!(!allow_thaw_decision(&removed_bytes, now));

    // Authority hand-over within a gate's own trust domain.
    let mut config = config;
    let new_admin = addr(5);
    assert_eq!(
        gate_update_authority(&mut config, &signer(addr(6)), &new_admin),
        Err(GatewayError::Unauthorized)
    );
    gate_update_authority(&mut config, &signer(admin), &new_admin).unwrap();
    assert_eq!(config.authority, new_admin);
}
