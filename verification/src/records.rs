//! Subject records: gate-owned, per-(mint, subject) data that reference
//! gates consult. Absence of a record is an ordinary negative answer, never
//! an error.

use vstd::prelude::*;

use crate::addr::Address;

verus! {

/// Tiered access levels for allow-list records.
#[derive(Debug, Clone, Copy, PartialEq, Eq, Structural)]
pub enum AccessLevel {
    NoAccess,
    Basic,
    Enhanced,
    Institutional,
}

/// Why a subject was block-listed.
#[derive(Debug, Clone, Copy, PartialEq, Eq, Structural)]
pub enum BlockReason {
    Sanctions,
    Compliance,
    RiskAssessment,
    Other,
}

/// The mathematical value of an allow-list record.
pub ghost struct AllowListRecordV {
    pub mint: Seq<u8>,
    pub user: Seq<u8>,
    pub allowed: bool,
    pub access_level: AccessLevel,
    pub added_timestamp: i64,
    pub expiry_timestamp: Option<i64>,
    pub bump: u8,
}

/// An allow-list record for one (mint, user) pair: whether the user may be
/// permissionlessly thawed, at what tier, and until when.
#[derive(Debug, Clone, PartialEq)]
pub struct AllowListRecord {
    pub mint: Address,
    pub user: Address,
    pub allowed: bool,
    pub access_level: AccessLevel,
    pub added_timestamp: i64,
    pub expiry_timestamp: Option<i64>,
    pub bump: u8,
}

impl View for AllowListRecord {
    type V = AllowListRecordV;

    open spec fn view(&self) -> AllowListRecordV {
        AllowListRecordV {
            mint: self.mint@,
            user: self.user@,
            allowed: self.allowed,
            access_level: self.access_level,
            added_timestamp: self.added_timestamp,
            expiry_timestamp: self.expiry_timestamp,
            bump: self.bump,
        }
    }
}

impl AllowListRecordV {
    /// Whether the record has lapsed at the given time: a record without an
    /// expiry never lapses.
    pub open spec fn spec_is_expired(self, now: i64) -> bool {
        match self.expiry_timestamp {
            Some(expiry) => now > expiry,
            None => false,
        }
    }
}

impl AllowListRecord {
    pub fn is_expired(&self, current_timestamp: i64) -> (r: bool)
        ensures
            r == self@.spec_is_expired(current_timestamp),
    {
        if let Some(expiry) = self.expiry_timestamp {
            current_timestamp > expiry
        } else {
            false
        }
    }
}

/// Build an allow-list record marking the user as allowed from the given
/// time, at the basic tier, without expiry.
pub fn create_allow_list_record(mint: &Address, user: &Address, timestamp: i64) -> (r:
    AllowListRecord)
    ensures
        r@.mint == mint@,
        r@.user == user@,
        r@.allowed == true,
        r@.access_level == AccessLevel::Basic,
        r@.added_timestamp == timestamp,
        r@.expiry_timestamp is None,
        r@.bump == 0,
{
    AllowListRecord {
        mint: *mint,
        user: *user,
        allowed: true,
        access_level: AccessLevel::Basic,
        added_timestamp: timestamp,
        expiry_timestamp: None,
        bump: 0,
    }
}

/// The mathematical value of a block-list record.
pub ghost struct BlockListRecordV {
    pub mint: Seq<u8>,
    pub user: Seq<u8>,
    pub blocked: bool,
    pub reason: BlockReason,
    pub added_timestamp: i64,
}

/// A block-list record for one (mint, user) pair, e.g. a sanctions entry.
#[derive(Debug, Clone, PartialEq)]
pub struct BlockListRecord {
    pub mint: Address,
    pub user: Address,
    pub blocked: bool,
    pub reason: BlockReason,
    pub added_timestamp: i64,
}

impl View for BlockListRecord {
    type V = BlockListRecordV;

    open spec fn view(&self) -> BlockListRecordV {
        BlockListRecordV {
            mint: self.mint@,
            user: self.user@,
            blocked: self.blocked,
            reason: self.reason,
            added_timestamp: self.added_timestamp,
        }
    }
}

/// Build a block-list record marking the user as blocked for the given
/// reason from the given time.
pub fn create_block_list_record(
    mint: &Address,
    user: &Address,
    reason: BlockReason,
    timestamp: i64,
) -> (r: BlockListRecord)
    ensures
        r@.mint == mint@,
        r@.user == user@,
        r@.blocked == true,
        r@.reason == reason,
        r@.added_timestamp == timestamp,
{
    BlockListRecord { mint: *mint, user: *user, blocked: true, reason, added_timestamp: timestamp }
}

} // verus!
