//! Reference gates. A gate is pure decision logic: invoked with a
//! de-escalated account list and an operation tag, it answers allow or
//! deny and can do nothing else. Declining an unsupported operation is
//! indistinguishable from denying it, by design.

use vstd::prelude::*;

use crate::accounts::{account_views, AccountView, AccountViewV};
use crate::addr::Address;
use crate::codec::{
    decode_allow_record, decode_block_record, encode_allow_record, push_address,
    spec_decode_allow_record, spec_decode_block_record, spec_encode_allow_record,
    read_address, GATE_CONFIG_RECORD_TAG,
};
use crate::derive::{
    derive_allow_record_address, derive_block_record_address, derive_gate_config_address,
    derived_address, mint_seeds, seed_allow_list, seed_block_list, seed_gate_config, subject_seeds,
};
use crate::error::GatewayError;
use crate::records::{AccessLevel, AllowListRecord, AllowListRecordV};
use crate::tags::{spec_parse_operation, parse_operation, Operation};

verus! {

/// The pluggable decision strategies a mint can be bound to, selected at
/// run time by the configured gate address.
#[derive(Debug, Clone, Copy, PartialEq, Eq, Structural)]
pub enum Gate {
    /// Supports thaw only: a subject may be thawed iff its allow-list
    /// record says so and has not lapsed.
    AllowList,
    /// Supports freeze, and thaw as the complement: a subject may be frozen
    /// iff block-listed, and thawed iff not.
    BlockList,
    /// Consults both lists; the block list always dominates.
    Hybrid,
}

/// Whether an allow-list thaw is granted for the given record bytes: the
/// record must decode, be marked allowed, and not have lapsed. An absent or
/// malformed record is a denial, not an error.
pub open spec fn spec_allow_thaw(record_data: Seq<u8>, now: i64) -> bool {
    match spec_decode_allow_record(record_data) {
        Some(r) => r.allowed && !r.spec_is_expired(now),
        None => false,
    }
}

/// Whether a block-list thaw is granted: absence of a record grants it, a
/// decodable record grants it iff not blocked, and a malformed record
/// denies.
pub open spec fn spec_block_thaw(record_data: Seq<u8>) -> bool {
    if record_data.len() == 0 {
        true
    } else {
        match spec_decode_block_record(record_data) {
            Some(r) => !r.blocked,
            None => false,
        }
    }
}

/// Whether a block-list freeze is granted: only a decodable record marked
/// blocked grants it.
pub open spec fn spec_block_freeze(record_data: Seq<u8>) -> bool {
    if record_data.len() == 0 {
        false
    } else {
        match spec_decode_block_record(record_data) {
            Some(r) => r.blocked,
            None => false,
        }
    }
}

/// Whether an account is the allow-list record location a gate itself
/// derives for (mint, user); a failed derivation validates nothing.
pub open spec fn allow_record_located(
    record: AccountViewV,
    gate_program: Seq<u8>,
    mint: Seq<u8>,
    user: Seq<u8>,
) -> bool {
    match derived_address(subject_seeds(seed_allow_list(), mint, user), gate_program) {
        Some(p) => record.address == p.0,
        None => false,
    }
}

/// Whether an account is the block-list record location a gate itself
/// derives for (mint, user).
pub open spec fn block_record_located(
    record: AccountViewV,
    gate_program: Seq<u8>,
    mint: Seq<u8>,
    user: Seq<u8>,
) -> bool {
    match derived_address(subject_seeds(seed_block_list(), mint, user), gate_program) {
        Some(p) => record.address == p.0,
        None => false,
    }
}

/// Whether a gate grants an operation, given the fixed-position interface
/// accounts: caller, token account, mint, extra-accounts registry, then the
/// subject identity and the record locations a gate needs.
pub open spec fn spec_gate_allows(
    gate: Gate,
    thaw: bool,
    gate_program: Seq<u8>,
    accounts: Seq<AccountViewV>,
    now: i64,
) -> bool {
    match gate {
        Gate::AllowList => {
            &&& thaw
            &&& accounts.len() >= 6
            &&& allow_record_located(
                accounts[5],
                gate_program,
                accounts[2].address,
                accounts[4].address,
            )
            &&& spec_allow_thaw(accounts[5].data, now)
        },
        Gate::BlockList => {
            &&& accounts.len() >= 6
            &&& block_record_located(
                accounts[5],
                gate_program,
                accounts[2].address,
                accounts[4].address,
            )
            &&& if thaw {
                spec_block_thaw(accounts[5].data)
            } else {
                spec_block_freeze(accounts[5].data)
            }
        },
        Gate::Hybrid => {
            &&& accounts.len() >= 7
            &&& block_record_located(
                accounts[6],
                gate_program,
                accounts[2].address,
                accounts[4].address,
            )
            &&& if thaw {
                &&& allow_record_located(
                    accounts[5],
                    gate_program,
                    accounts[2].address,
                    accounts[4].address,
                )
                &&& spec_allow_thaw(accounts[5].data, now)
                &&& spec_block_thaw(accounts[6].data)
            } else {
                spec_block_freeze(accounts[6].data)
            }
        },
    }
}

/// The outcome of a byte-level gate invocation: only the two interface tags
/// can grant anything; any other payload is denied.
pub open spec fn spec_gate_outcome(
    gate: Gate,
    gate_program: Seq<u8>,
    accounts: Seq<AccountViewV>,
    data: Seq<u8>,
    now: i64,
) -> bool {
    match spec_parse_operation(data) {
        Ok(Operation::CanThaw) => spec_gate_allows(gate, true, gate_program, accounts, now),
        Ok(Operation::CanFreeze) => spec_gate_allows(gate, false, gate_program, accounts, now),
        _ => false,
    }
}

/// Sanctions precedence: whenever the block-list record marks the subject
/// blocked, a hybrid gate denies thaw, whatever the allow-list record says.
pub proof fn lemma_sanctions_precedence(
    gate_program: Seq<u8>,
    accounts: Seq<AccountViewV>,
    now: i64,
)
    requires
        accounts.len() >= 7,
        match spec_decode_block_record(accounts[6].data) {
            Some(r) => r.blocked,
            None => false,
        },
    ensures
        !spec_gate_allows(Gate::Hybrid, true, gate_program, accounts, now),
{
    assert(accounts[6].data.len() != 0);
    assert(!spec_block_thaw(accounts[6].data));
}

/// Decide an allow-list thaw from the record account's bytes.
pub fn allow_thaw_decision(record_data: &Vec<u8>, now: i64) -> (r: bool)
    ensures
        r == spec_allow_thaw(record_data@, now),
{
    match decode_allow_record(record_data) {
        Some(rec) => rec.allowed && !rec.is_expired(now),
        None => false,
    }
}

/// Decide a block-list thaw from the record account's bytes.
pub fn block_thaw_decision(record_data: &Vec<u8>) -> (r: bool)
    ensures
        r == spec_block_thaw(record_data@),
{
    if record_data.len() == 0 {
        return true;
    }
    match decode_block_record(record_data) {
        Some(rec) => !rec.blocked,
        None => false,
    }
}

/// Decide a block-list freeze from the record account's bytes.
pub fn block_freeze_decision(record_data: &Vec<u8>) -> (r: bool)
    ensures
        r == spec_block_freeze(record_data@),
{
    if record_data.len() == 0 {
        return false;
    }
    match decode_block_record(record_data) {
        Some(rec) => rec.blocked,
        None => false,
    }
}

pub(crate) fn check_allow_record_location(
    record: &AccountView,
    gate_program: &Address,
    mint: &Address,
    user: &Address,
) -> (r: bool)
    ensures
        r == allow_record_located(record@, gate_program@, mint@, user@),
{
    match derive_allow_record_address(mint, user, gate_program) {
        Some(p) => &p.0 == &record.address,
        None => false,
    }
}

pub(crate) fn check_block_record_location(
    record: &AccountView,
    gate_program: &Address,
    mint: &Address,
    user: &Address,
) -> (r: bool)
    ensures
        r == block_record_located(record@, gate_program@, mint@, user@),
{
    match derive_block_record_address(mint, user, gate_program) {
        Some(p) => &p.0 == &record.address,
        None => false,
    }
}

fn gate_allows(
    gate: &Gate,
    thaw: bool,
    gate_program: &Address,
    accounts: &Vec<AccountView>,
    now: i64,
) -> (r: bool)
    ensures
        r == spec_gate_allows(*gate, thaw, gate_program@, account_views(accounts@), now),
{
    let ghost views = account_views(accounts@);
    match gate {
        Gate::AllowList => {
            if !thaw {
                return false;
            }
            if accounts.len() < 6 {
                return false;
            }
            let mint = &accounts.get(2).unwrap().address;
            let user = &accounts.get(4).unwrap().address;
            let record = accounts.get(5).unwrap();
            proof {
                assert(views[2] == accounts@[2]@);
                assert(views[4] == accounts@[4]@);
                assert(views[5] == accounts@[5]@);
            }
            check_allow_record_location(record, gate_program, mint, user)
                && allow_thaw_decision(&record.data, now)
        },
        Gate::BlockList => {
            if accounts.len() < 6 {
                return false;
            }
            let mint = &accounts.get(2).unwrap().address;
            let user = &accounts.get(4).unwrap().address;
            let record = accounts.get(5).unwrap();
            proof {
                assert(views[2] == accounts@[2]@);
                assert(views[4] == accounts@[4]@);
                assert(views[5] == accounts@[5]@);
            }
            if !check_block_record_location(record, gate_program, mint, user) {
                return false;
            }
            if thaw {
                block_thaw_decision(&record.data)
            } else {
                block_freeze_decision(&record.data)
            }
        },
        Gate::Hybrid => {
            if accounts.len() < 7 {
                return false;
            }
            let mint = &accounts.get(2).unwrap().address;
            let user = &accounts.get(4).unwrap().address;
            let allow_record = accounts.get(5).unwrap();
            let block_record = accounts.get(6).unwrap();
            proof {
                assert(views[2] == accounts@[2]@);
                assert(views[4] == accounts@[4]@);
                assert(views[5] == accounts@[5]@);
                assert(views[6] == accounts@[6]@);
            }
            if !check_block_record_location(block_record, gate_program, mint, user) {
                return false;
            }
            if thaw {
                check_allow_record_location(allow_record, gate_program, mint, user)
                    && allow_thaw_decision(&allow_record.data, now)
                    && block_thaw_decision(&block_record.data)
            } else {
                block_freeze_decision(&block_record.data)
            }
        },
    }
}

/// A gate's byte-level entry point: dispatch the payload and answer. Only
/// the two interface tags can grant; a gate invoked with anything else
/// denies, so an observer cannot tell "unsupported" from "denied".
pub fn gate_process_instruction(
    gate: &Gate,
    gate_program: &Address,
    accounts: &Vec<AccountView>,
    instruction_data: &Vec<u8>,
    now: i64,
) -> (allowed: bool)
    ensures
        allowed == spec_gate_outcome(
            *gate,
            gate_program@,
            account_views(accounts@),
            instruction_data@,
            now,
        ),
{
    match parse_operation(instruction_data) {
        Ok(Operation::CanThaw) => gate_allows(gate, true, gate_program, accounts, now),
        Ok(Operation::CanFreeze) => gate_allows(gate, false, gate_program, accounts, now),
        _ => false,
    }
}

/// The mathematical value of a gate's own configuration record.
pub ghost struct ConfigV {
    pub authority: Seq<u8>,
    pub mint: Seq<u8>,
    pub bump: u8,
}

/// A gate's own configuration: the administrative principal that maintains
/// its records — an independent trust domain from the manager's authority —
/// the governed mint, and the record's collision nonce.
#[derive(Debug, Clone, PartialEq)]
pub struct Config {
    pub authority: Address,
    pub mint: Address,
    pub bump: u8,
}

impl View for Config {
    type V = ConfigV;

    open spec fn view(&self) -> ConfigV {
        ConfigV { authority: self.authority@, mint: self.mint@, bump: self.bump }
    }
}

/// Create a gate's configuration. The caller must supply the derived
/// configuration address, which is recomputed and checked, and the
/// authority must co-sign.
pub fn gate_initialize(
    gate_program: &Address,
    mint: &Address,
    authority: &AccountView,
    config_account: &Address,
) -> (r: Result<Config, GatewayError>)
    ensures
        r is Ok <==> authority@.is_signer && match derived_address(
            mint_seeds(seed_gate_config(), mint@),
            gate_program@,
        ) {
            Some(p) => config_account@ == p.0,
            None => false,
        },
        match r {
            Ok(c) => {
                &&& c@.authority == authority@.address
                &&& c@.mint == mint@
                &&& Some((config_account@, c@.bump)) == derived_address(
                    mint_seeds(seed_gate_config(), mint@),
                    gate_program@,
                )
            },
            Err(e) => e == if (match derived_address(
                mint_seeds(seed_gate_config(), mint@),
                gate_program@,
            ) {
                Some(p) => config_account@ == p.0,
                None => false,
            }) {
                GatewayError::Unauthorized
            } else {
                GatewayError::InvalidDerivedAddress
            },
        },
{
    let bump = match derive_gate_config_address(mint, gate_program) {
        Some(p) => {
            if !(&p.0 == config_account) {
                return Err(GatewayError::InvalidDerivedAddress);
            }
            p.1
        },
        None => {
            return Err(GatewayError::InvalidDerivedAddress);
        },
    };
    if !authority.is_signer {
        return Err(GatewayError::Unauthorized);
    }
    Ok(Config { authority: authority.address, mint: *mint, bump })
}

/// Add a subject to the allow list. Only that gate's own authority, signing,
/// against the recomputed record address; the new record grants thaw at the
/// enhanced tier without expiry.
pub fn gate_add_subject(
    config: &Config,
    gate_program: &Address,
    authority: &AccountView,
    mint: &Address,
    user: &Address,
    record_account: &Address,
    now: i64,
) -> (r: Result<AllowListRecord, GatewayError>)
    ensures
        r is Ok <==> authority@.address == config@.authority && authority@.is_signer && match
            derived_address(subject_seeds(seed_allow_list(), mint@, user@), gate_program@) {
            Some(p) => record_account@ == p.0,
            None => false,
        },
        match r {
            Ok(rec) => {
                &&& rec@ == (AllowListRecordV {
                    mint: mint@,
                    user: user@,
                    allowed: true,
                    access_level: AccessLevel::Enhanced,
                    added_timestamp: now,
                    expiry_timestamp: None,
                    bump: rec@.bump,
                })
                &&& Some((record_account@, rec@.bump)) == derived_address(
                    subject_seeds(seed_allow_list(), mint@, user@),
                    gate_program@,
                )
            },
            Err(e) => e == if authority@.address == config@.authority && authority@.is_signer {
                GatewayError::InvalidDerivedAddress
            } else {
                GatewayError::Unauthorized
            },
        },
{
    if !(&authority.address == &config.authority) || !authority.is_signer {
        return Err(GatewayError::Unauthorized);
    }
    let bump = match derive_allow_record_address(mint, user, gate_program) {
        Some(p) => {
            if !(&p.0 == record_account) {
                return Err(GatewayError::InvalidDerivedAddress);
            }
            p.1
        },
        None => {
            return Err(GatewayError::InvalidDerivedAddress);
        },
    };
    Ok(
        AllowListRecord {
            mint: *mint,
            user: *user,
            allowed: true,
            access_level: AccessLevel::Enhanced,
            added_timestamp: now,
            expiry_timestamp: None,
            bump,
        },
    )
}

/// Remove a subject from the allow list: the stored record is re-written
/// with `allowed` cleared. Only that gate's own authority, signing; a record
/// that does not decode is a malformed-record error.
pub fn gate_remove_subject(
    config: &Config,
    authority: &AccountView,
    record_data: &Vec<u8>,
) -> (r: Result<Vec<u8>, GatewayError>)
    ensures
        r is Ok <==> authority@.address == config@.authority && authority@.is_signer
            && spec_decode_allow_record(record_data@) is Some,
        match r {
            Ok(out) => out@ == spec_encode_allow_record(
                AllowListRecordV {
                    allowed: false,
                    ..spec_decode_allow_record(record_data@).unwrap()
                },
            ),
            Err(e) => e == if authority@.address == config@.authority && authority@.is_signer {
                GatewayError::MalformedRecord
            } else {
                GatewayError::Unauthorized
            },
        },
{
    if !(&authority.address == &config.authority) || !authority.is_signer {
        return Err(GatewayError::Unauthorized);
    }
    let mut rec = match decode_allow_record(record_data) {
        Some(rec) => rec,
        None => {
            return Err(GatewayError::MalformedRecord);
        },
    };
    rec.allowed = false;
    Ok(encode_allow_record(&rec))
}

/// Re-point a gate's administrative authority. Only the current
/// authority, signing.
pub fn gate_update_authority(
    config: &mut Config,
    current_authority: &AccountView,
    new_authority: &Address,
) -> (r: Result<(), GatewayError>)
    ensures
        r is Ok <==> current_authority@.address == old(config)@.authority
            && current_authority@.is_signer,
        r is Ok ==> final(config)@ == (ConfigV { authority: new_authority@, ..old(config)@ }),
        r is Err ==> *final(config) == *old(config) && r == Err::<(), GatewayError>(
            GatewayError::Unauthorized,
        ),
{
    if !(&current_authority.address == &config.authority) || !current_authority.is_signer {
        return Err(GatewayError::Unauthorized);
    }
    config.authority = *new_authority;
    Ok(())
}

/// The persisted bytes of a gate configuration record.
pub open spec fn spec_encode_gate_config(c: ConfigV) -> Seq<u8> {
    seq![GATE_CONFIG_RECORD_TAG] + c.authority + c.mint + seq![c.bump]
}

/// What a byte string holds as a gate configuration record.
pub open spec fn spec_decode_gate_config(data: Seq<u8>) -> Option<ConfigV> {
    if data.len() == 66 && data[0] == GATE_CONFIG_RECORD_TAG {
        Some(
            ConfigV {
                authority: data.subrange(1, 33),
                mint: data.subrange(33, 65),
                bump: data[65],
            },
        )
    } else {
        None
    }
}

/// Decoding an encoded gate configuration reproduces the original value.
pub proof fn lemma_gate_config_round_trip(c: ConfigV)
    requires
        c.authority.len() == 32,
        c.mint.len() == 32,
    ensures
        spec_decode_gate_config(spec_encode_gate_config(c)) == Some(c),
{
    let e = spec_encode_gate_config(c);
    assert(e.len() == 66);
    assert(e[0] == GATE_CONFIG_RECORD_TAG);
    assert(e.subrange(1, 33) =~= c.authority);
    assert(e.subrange(33, 65) =~= c.mint);
    assert(e[65] == c.bump);
}

/// Serialize a gate configuration record.
pub fn encode_gate_config(c: &Config) -> (out: Vec<u8>)
    ensures
        out@ == spec_encode_gate_config(c@),
{
    let mut out: Vec<u8> = Vec::new();
    out.push(GATE_CONFIG_RECORD_TAG);
    push_address(&mut out, &c.authority);
    push_address(&mut out, &c.mint);
    out.push(c.bump);
    proof {
        assert(out@ =~= spec_encode_gate_config(c@));
    }
    out
}

/// Parse a gate configuration record.
pub fn decode_gate_config(data: &Vec<u8>) -> (r: Option<Config>)
    ensures
        match r {
            Some(c) => spec_decode_gate_config(data@) == Some(c@),
            None => spec_decode_gate_config(data@) is None,
        },
{
    if data.len() != 66 {
        return None;
    }
    if *data.get(0).unwrap() != GATE_CONFIG_RECORD_TAG {
        return None;
    }
    Some(
        Config {
            authority: read_address(data, 1),
            mint: read_address(data, 33),
            bump: *data.get(65).unwrap(),
        },
    )
}

} // verus!
