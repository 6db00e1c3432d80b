//! The persisted binary layout: every record is one leading
//! type-discriminator byte followed by fixed-width fields. A mismatched
//! discriminator or any malformed field is a hard decode failure, never a
//! degraded read; decoding an encoding gives back the original value.

use vstd::prelude::*;

use crate::addr::Address;
use crate::config::{MintConfig, MintConfigV};
use crate::records::{
    AccessLevel, AllowListRecord, AllowListRecordV, BlockListRecord, BlockListRecordV, BlockReason,
};

verus! {

/// The leading byte of a persisted mint configuration record.
pub const MINT_CONFIG_RECORD_TAG: u8 = 0x01;

/// The leading byte of a persisted allow-list record.
pub const ALLOW_RECORD_TAG: u8 = 0x02;

/// The leading byte of a persisted block-list record.
pub const BLOCK_RECORD_TAG: u8 = 0x03;

/// The leading byte of a gate's own persisted configuration record.
pub const GATE_CONFIG_RECORD_TAG: u8 = 0x04;

/// A boolean as one byte: 1 for true, 0 for false.
pub open spec fn bool_byte(b: bool) -> u8 {
    if b {
        1u8
    } else {
        0u8
    }
}

/// The little-endian bytes of a 64-bit value.
pub open spec fn u64_le_bytes(x: u64) -> Seq<u8> {
    seq![
        (x & 0xff) as u8,
        ((x >> 8) & 0xff) as u8,
        ((x >> 16) & 0xff) as u8,
        ((x >> 24) & 0xff) as u8,
        ((x >> 32) & 0xff) as u8,
        ((x >> 40) & 0xff) as u8,
        ((x >> 48) & 0xff) as u8,
        ((x >> 56) & 0xff) as u8,
    ]
}

/// The 64-bit value read from eight little-endian bytes.
pub open spec fn u64_from_le(s: Seq<u8>) -> u64
    recommends
        s.len() == 8,
{
    ((s[0] as u64) | ((s[1] as u64) << 8) | ((s[2] as u64) << 16) | ((s[3] as u64) << 24) | ((s[4]
        as u64) << 32) | ((s[5] as u64) << 40) | ((s[6] as u64) << 48) | ((s[7] as u64) << 56))
}

/// Reading back the little-endian bytes of a value gives the value.
pub proof fn lemma_u64_le_round_trip(x: u64)
    ensures
        u64_from_le(u64_le_bytes(x)) == x,
{
    let s = u64_le_bytes(x);
    assert(s[0] == (x & 0xff) as u8);
    assert(s[1] == ((x >> 8) & 0xff) as u8);
    assert(s[2] == ((x >> 16) & 0xff) as u8);
    assert(s[3] == ((x >> 24) & 0xff) as u8);
    assert(s[4] == ((x >> 32) & 0xff) as u8);
    assert(s[5] == ((x >> 40) & 0xff) as u8);
    assert(s[6] == ((x >> 48) & 0xff) as u8);
    assert(s[7] == ((x >> 56) & 0xff) as u8);
    assert((((x & 0xff) as u8) as u64) | ((((x >> 8) & 0xff) as u8) as u64) << 8 | ((((x >> 16)
        & 0xff) as u8) as u64) << 16 | ((((x >> 24) & 0xff) as u8) as u64) << 24 | ((((x >> 32)
        & 0xff) as u8) as u64) << 32 | ((((x >> 40) & 0xff) as u8) as u64) << 40 | ((((x >> 48)
        & 0xff) as u8) as u64) << 48 | ((((x >> 56) & 0xff) as u8) as u64) << 56 == x)
        by (bit_vector);
}

/// The little-endian bytes of a signed 64-bit value: its two's-complement
/// bit pattern.
pub open spec fn i64_le_bytes(x: i64) -> Seq<u8> {
    u64_le_bytes(x as u64)
}

/// The signed 64-bit value read from eight little-endian bytes.
pub open spec fn i64_from_le(s: Seq<u8>) -> i64
    recommends
        s.len() == 8,
{
    u64_from_le(s) as i64
}

/// Reading back the little-endian bytes of a signed value gives the value.
pub proof fn lemma_i64_le_round_trip(x: i64)
    ensures
        i64_from_le(i64_le_bytes(x)) == x,
{
    lemma_u64_le_round_trip(x as u64);
    assert(((x as u64) as i64) == x) by (bit_vector);
}

/// Append the little-endian bytes of a 64-bit value.
pub fn push_u64_le(out: &mut Vec<u8>, x: u64)
    ensures
        final(out)@ == old(out)@ + u64_le_bytes(x),
{
    out.push((x & 0xff) as u8);
    out.push(((x >> 8) & 0xff) as u8);
    out.push(((x >> 16) & 0xff) as u8);
    out.push(((x >> 24) & 0xff) as u8);
    out.push(((x >> 32) & 0xff) as u8);
    out.push(((x >> 40) & 0xff) as u8);
    out.push(((x >> 48) & 0xff) as u8);
    out.push(((x >> 56) & 0xff) as u8);
    proof {
        assert(out@ =~= old(out)@ + u64_le_bytes(x));
    }
}

/// Read a 64-bit value from eight little-endian bytes at an offset.
pub fn read_u64_le(data: &Vec<u8>, offset: usize) -> (r: u64)
    requires
        offset + 8 <= data@.len(),
    ensures
        r == u64_from_le(data@.subrange(offset as int, offset as int + 8)),
{
    let ghost s = data@.subrange(offset as int, offset as int + 8);
    let b0 = *data.get(offset).unwrap() as u64;
    let b1 = *data.get(offset + 1).unwrap() as u64;
    let b2 = *data.get(offset + 2).unwrap() as u64;
    let b3 = *data.get(offset + 3).unwrap() as u64;
    let b4 = *data.get(offset + 4).unwrap() as u64;
    let b5 = *data.get(offset + 5).unwrap() as u64;
    let b6 = *data.get(offset + 6).unwrap() as u64;
    let b7 = *data.get(offset + 7).unwrap() as u64;
    proof {
        assert(s[0] == data@[offset as int]);
        assert(s[1] == data@[offset as int + 1]);
        assert(s[2] == data@[offset as int + 2]);
        assert(s[3] == data@[offset as int + 3]);
        assert(s[4] == data@[offset as int + 4]);
        assert(s[5] == data@[offset as int + 5]);
        assert(s[6] == data@[offset as int + 6]);
        assert(s[7] == data@[offset as int + 7]);
    }
    b0 | (b1 << 8) | (b2 << 16) | (b3 << 24) | (b4 << 32) | (b5 << 40) | (b6 << 48) | (b7 << 56)
}

/// Append the little-endian bytes of a signed 64-bit value.
pub fn push_i64_le(out: &mut Vec<u8>, x: i64)
    ensures
        final(out)@ == old(out)@ + i64_le_bytes(x),
{
    push_u64_le(out, x as u64);
}

/// Read a signed 64-bit value from eight little-endian bytes at an offset.
pub fn read_i64_le(data: &Vec<u8>, offset: usize) -> (r: i64)
    requires
        offset + 8 <= data@.len(),
    ensures
        r == i64_from_le(data@.subrange(offset as int, offset as int + 8)),
{
    read_u64_le(data, offset) as i64
}

/// Append an address's 32 bytes.
pub fn push_address(out: &mut Vec<u8>, a: &Address)
    ensures
        final(out)@ == old(out)@ + a@,
{
    let arr = a.to_bytes();
    let mut i: usize = 0;
    while i < 32
        invariant
            0 <= i <= 32,
            arr@ == a@,
            out@ == old(out)@ + a@.take(i as int),
        decreases 32 - i,
    {
        out.push(arr[i]);
        proof {
            assert(out@ =~= old(out)@ + a@.take(i + 1));
        }
        i += 1;
    }
    proof {
        assert(old(out)@ + a@.take(32) =~= old(out)@ + a@);
    }
}

/// Read an address from 32 bytes at an offset.
pub fn read_address(data: &Vec<u8>, offset: usize) -> (r: Address)
    requires
        offset + 32 <= data@.len(),
    ensures
        r@ == data@.subrange(offset as int, offset as int + 32),
{
    let n = data.len();
    let mut bytes = [0u8; 32];
    let mut i: usize = 0;
    while i < 32
        invariant
            0 <= i <= 32,
            offset + 32 <= n,
            n == data@.len(),
            forall|j: int| 0 <= j < i ==> bytes@[j] == data@[offset + j],
        decreases 32 - i,
    {
        bytes[i] = *data.get(offset + i).unwrap();
        i += 1;
    }
    let r = Address::new(bytes);
    proof {
        assert(r@ =~= data@.subrange(offset as int, offset as int + 32));
    }
    r
}

impl MintConfigV {
    /// A value whose identifier fields all have address width.
    pub open spec fn wf(self) -> bool {
        self.mint.len() == 32 && self.authority.len() == 32 && self.gating_program.len() == 32
    }
}

/// The persisted bytes of a mint configuration: the discriminator, the
/// three addresses, then the two flag bytes.
pub open spec fn spec_encode_mint_config(c: MintConfigV) -> Seq<u8> {
    seq![MINT_CONFIG_RECORD_TAG] + c.mint + c.authority + c.gating_program + seq![
        bool_byte(c.enable_permissionless_thaw),
        bool_byte(c.enable_permissionless_freeze),
    ]
}

/// What a byte string holds as a mint configuration: exactly 99 bytes, the
/// right discriminator, and canonical flag bytes; anything else is a hard
/// failure.
pub open spec fn spec_decode_mint_config(data: Seq<u8>) -> Option<MintConfigV> {
    if data.len() == 99 && data[0] == MINT_CONFIG_RECORD_TAG && data[97] <= 1 && data[98] <= 1 {
        Some(
            MintConfigV {
                mint: data.subrange(1, 33),
                authority: data.subrange(33, 65),
                gating_program: data.subrange(65, 97),
                enable_permissionless_thaw: data[97] == 1,
                enable_permissionless_freeze: data[98] == 1,
            },
        )
    } else {
        None
    }
}

/// Decoding an encoded mint configuration reproduces the original value
/// exactly.
pub proof fn lemma_mint_config_round_trip(c: MintConfigV)
    requires
        c.wf(),
    ensures
        spec_decode_mint_config(spec_encode_mint_config(c)) == Some(c),
{
    let e = spec_encode_mint_config(c);
    assert(e.len() == 99);
    assert(e[0] == MINT_CONFIG_RECORD_TAG);
    assert(e[97] == bool_byte(c.enable_permissionless_thaw));
    assert(e[98] == bool_byte(c.enable_permissionless_freeze));
    assert(e.subrange(1, 33) =~= c.mint);
    assert(e.subrange(33, 65) =~= c.authority);
    assert(e.subrange(65, 97) =~= c.gating_program);
}

/// Serialize a mint configuration record.
pub fn encode_mint_config(c: &MintConfig) -> (r: Vec<u8>)
    requires
        c.wf(),
    ensures
        r@ == spec_encode_mint_config(c@),
{
    let mut out: Vec<u8> = Vec::new();
    out.push(MINT_CONFIG_RECORD_TAG);
    push_address(&mut out, &c.mint);
    push_address(&mut out, &c.authority);
    push_address(&mut out, &c.gating_program);
    out.push(if c.enable_permissionless_thaw {
        1
    } else {
        0
    });
    out.push(if c.enable_permissionless_freeze {
        1
    } else {
        0
    });
    proof {
        assert(out@ =~= spec_encode_mint_config(c@));
    }
    out
}

/// Parse a mint configuration record; a wrong length, discriminator or flag
/// byte gives `None`.
pub fn decode_mint_config(data: &Vec<u8>) -> (r: Option<MintConfig>)
    ensures
        match r {
            Some(c) => spec_decode_mint_config(data@) == Some(c@) && c.wf(),
            None => spec_decode_mint_config(data@) is None,
        },
{
    if data.len() != 99 {
        return None;
    }
    if *data.get(0).unwrap() != MINT_CONFIG_RECORD_TAG {
        return None;
    }
    let thaw_byte = *data.get(97).unwrap();
    let freeze_byte = *data.get(98).unwrap();
    if thaw_byte > 1 || freeze_byte > 1 {
        return None;
    }
    let c = MintConfig {
        discriminator: MINT_CONFIG_RECORD_TAG,
        mint: read_address(data, 1),
        authority: read_address(data, 33),
        gating_program: read_address(data, 65),
        enable_permissionless_thaw: thaw_byte == 1,
        enable_permissionless_freeze: freeze_byte == 1,
    };
    Some(c)
}

/// An access level as one byte.
pub open spec fn level_byte(l: AccessLevel) -> u8 {
    match l {
        AccessLevel::NoAccess => 0u8,
        AccessLevel::Basic => 1u8,
        AccessLevel::Enhanced => 2u8,
        AccessLevel::Institutional => 3u8,
    }
}

/// The access level a byte names, if any.
pub open spec fn level_of_byte(b: u8) -> Option<AccessLevel> {
    if b == 0 {
        Some(AccessLevel::NoAccess)
    } else if b == 1 {
        Some(AccessLevel::Basic)
    } else if b == 2 {
        Some(AccessLevel::Enhanced)
    } else if b == 3 {
        Some(AccessLevel::Institutional)
    } else {
        None
    }
}

/// Serialize an access level.
pub fn encode_access_level(l: &AccessLevel) -> (r: u8)
    ensures
        r == level_byte(*l),
{
    match l {
        AccessLevel::NoAccess => 0,
        AccessLevel::Basic => 1,
        AccessLevel::Enhanced => 2,
        AccessLevel::Institutional => 3,
    }
}

/// Parse an access level byte.
pub fn decode_access_level(b: u8) -> (r: Option<AccessLevel>)
    ensures
        r == level_of_byte(b),
{
    if b == 0 {
        Some(AccessLevel::NoAccess)
    } else if b == 1 {
        Some(AccessLevel::Basic)
    } else if b == 2 {
        Some(AccessLevel::Enhanced)
    } else if b == 3 {
        Some(AccessLevel::Institutional)
    } else {
        None
    }
}

/// A block reason as one byte.
pub open spec fn reason_byte(x: BlockReason) -> u8 {
    match x {
        BlockReason::Sanctions => 0u8,
        BlockReason::Compliance => 1u8,
        BlockReason::RiskAssessment => 2u8,
        BlockReason::Other => 3u8,
    }
}

/// The block reason a byte names, if any.
pub open spec fn reason_of_byte(b: u8) -> Option<BlockReason> {
    if b == 0 {
        Some(BlockReason::Sanctions)
    } else if b == 1 {
        Some(BlockReason::Compliance)
    } else if b == 2 {
        Some(BlockReason::RiskAssessment)
    } else if b == 3 {
        Some(BlockReason::Other)
    } else {
        None
    }
}

/// Serialize a block reason.
pub fn encode_block_reason(x: &BlockReason) -> (r: u8)
    ensures
        r == reason_byte(*x),
{
    match x {
        BlockReason::Sanctions => 0,
        BlockReason::Compliance => 1,
        BlockReason::RiskAssessment => 2,
        BlockReason::Other => 3,
    }
}

/// Parse a block reason byte.
pub fn decode_block_reason(b: u8) -> (r: Option<BlockReason>)
    ensures
        r == reason_of_byte(b),
{
    if b == 0 {
        Some(BlockReason::Sanctions)
    } else if b == 1 {
        Some(BlockReason::Compliance)
    } else if b == 2 {
        Some(BlockReason::RiskAssessment)
    } else if b == 3 {
        Some(BlockReason::Other)
    } else {
        None
    }
}

impl AllowListRecordV {
    /// A value whose identifier fields have address width.
    pub open spec fn wf(self) -> bool {
        self.mint.len() == 32 && self.user.len() == 32
    }
}

/// The persisted bytes of an allow-list record. The expiry is fixed-width:
/// a presence byte followed by eight bytes that are zero when absent.
pub open spec fn spec_encode_allow_record(r: AllowListRecordV) -> Seq<u8> {
    seq![ALLOW_RECORD_TAG] + r.mint + r.user + seq![
        bool_byte(r.allowed),
        level_byte(r.access_level),
    ] + i64_le_bytes(r.added_timestamp) + (match r.expiry_timestamp {
        Some(e) => seq![1u8] + i64_le_bytes(e),
        None => seq![0u8] + u64_le_bytes(0),
    }) + seq![r.bump]
}

/// What a byte string holds as an allow-list record: exactly 85 bytes, the
/// right discriminator, canonical flag and level bytes, and zeroed expiry
/// bytes when no expiry is present.
pub open spec fn spec_decode_allow_record(data: Seq<u8>) -> Option<AllowListRecordV> {
    if data.len() == 85 && data[0] == ALLOW_RECORD_TAG && data[65] <= 1 && level_of_byte(data[66])
        is Some && data[75] <= 1 && (data[75] == 1 || data.subrange(76, 84) == u64_le_bytes(0)) {
        Some(
            AllowListRecordV {
                mint: data.subrange(1, 33),
                user: data.subrange(33, 65),
                allowed: data[65] == 1,
                access_level: level_of_byte(data[66]).unwrap(),
                added_timestamp: i64_from_le(data.subrange(67, 75)),
                expiry_timestamp: if data[75] == 1 {
                    Some(i64_from_le(data.subrange(76, 84)))
                } else {
                    None
                },
                bump: data[84],
            },
        )
    } else {
        None
    }
}

/// Decoding an encoded allow-list record reproduces the original value
/// exactly.
pub proof fn lemma_allow_record_round_trip(r: AllowListRecordV)
    requires
        r.wf(),
    ensures
        spec_decode_allow_record(spec_encode_allow_record(r)) == Some(r),
{
    let e = spec_encode_allow_record(r);
    assert(e.len() == 85);
    assert(e[0] == ALLOW_RECORD_TAG);
    assert(e[65] == bool_byte(r.allowed));
    assert(e[66] == level_byte(r.access_level));
    assert(e.subrange(1, 33) =~= r.mint);
    assert(e.subrange(33, 65) =~= r.user);
    assert(e.subrange(67, 75) =~= i64_le_bytes(r.added_timestamp));
    lemma_i64_le_round_trip(r.added_timestamp);
    match r.expiry_timestamp {
        Some(x) => {
            assert(e[75] == 1);
            assert(e.subrange(76, 84) =~= i64_le_bytes(x));
            lemma_i64_le_round_trip(x);
        },
        None => {
            assert(e[75] == 0);
            assert(e.subrange(76, 84) =~= u64_le_bytes(0));
        },
    }
    assert(e[84] == r.bump);
}

/// Serialize an allow-list record.
pub fn encode_allow_record(r: &AllowListRecord) -> (out: Vec<u8>)
    ensures
        out@ == spec_encode_allow_record(r@),
{
    let mut out: Vec<u8> = Vec::new();
    out.push(ALLOW_RECORD_TAG);
    push_address(&mut out, &r.mint);
    push_address(&mut out, &r.user);
    out.push(if r.allowed {
        1
    } else {
        0
    });
    out.push(encode_access_level(&r.access_level));
    push_i64_le(&mut out, r.added_timestamp);
    match r.expiry_timestamp {
        Some(e) => {
            out.push(1);
            push_i64_le(&mut out, e);
        },
        None => {
            out.push(0);
            push_u64_le(&mut out, 0);
        },
    }
    out.push(r.bump);
    proof {
        assert(out@ =~= spec_encode_allow_record(r@));
    }
    out
}

/// Parse an allow-list record; any malformation gives `None`.
pub fn decode_allow_record(data: &Vec<u8>) -> (r: Option<AllowListRecord>)
    ensures
        match r {
            Some(rec) => spec_decode_allow_record(data@) == Some(rec@) && rec@.wf(),
            None => spec_decode_allow_record(data@) is None,
        },
{
    if data.len() != 85 {
        return None;
    }
    if *data.get(0).unwrap() != ALLOW_RECORD_TAG {
        return None;
    }
    let allowed_byte = *data.get(65).unwrap();
    if allowed_byte > 1 {
        return None;
    }
    let level = match decode_access_level(*data.get(66).unwrap()) {
        Some(l) => l,
        None => {
            return None;
        },
    };
    let expiry_byte = *data.get(75).unwrap();
    if expiry_byte > 1 {
        return None;
    }
    let expiry_timestamp = if expiry_byte == 1 {
        Some(read_i64_le(data, 76))
    } else {
        if read_u64_le(data, 76) != 0 {
            proof {
                lemma_u64_le_round_trip(0);
                if data@.subrange(76, 84) == u64_le_bytes(0) {
                    assert(u64_from_le(data@.subrange(76, 84)) == 0);
                }
            }
            return None;
        }
        proof {
            lemma_u64_zero_bytes(data@.subrange(76, 84));
        }
        None
    };
    let rec = AllowListRecord {
        mint: read_address(data, 1),
        user: read_address(data, 33),
        allowed: allowed_byte == 1,
        access_level: level,
        added_timestamp: read_i64_le(data, 67),
        expiry_timestamp,
        bump: *data.get(84).unwrap(),
    };
    Some(rec)
}

/// Eight little-endian bytes that read back as zero are all zero.
pub proof fn lemma_u64_zero_bytes(s: Seq<u8>)
    requires
        s.len() == 8,
        u64_from_le(s) == 0,
    ensures
        s == u64_le_bytes(0),
{
    let b0 = s[0];
    let b1 = s[1];
    let b2 = s[2];
    let b3 = s[3];
    let b4 = s[4];
    let b5 = s[5];
    let b6 = s[6];
    let b7 = s[7];
    assert((b0 as u64) | ((b1 as u64) << 8) | ((b2 as u64) << 16) | ((b3 as u64) << 24) | ((b4
        as u64) << 32) | ((b5 as u64) << 40) | ((b6 as u64) << 48) | ((b7 as u64) << 56) == 0 ==> b0
        == 0 && b1 == 0 && b2 == 0 && b3 == 0 && b4 == 0 && b5 == 0 && b6 == 0 && b7 == 0)
        by (bit_vector);
    assert((0u64 & 0xff) as u8 == 0 && ((0u64 >> 8) & 0xff) as u8 == 0 && ((0u64 >> 16) & 0xff)
        as u8 == 0 && ((0u64 >> 24) & 0xff) as u8 == 0 && ((0u64 >> 32) & 0xff) as u8 == 0 && ((0u64
        >> 40) & 0xff) as u8 == 0 && ((0u64 >> 48) & 0xff) as u8 == 0 && ((0u64 >> 56) & 0xff) as u8
        == 0) by (bit_vector);
    assert(s =~= u64_le_bytes(0));
}

impl BlockListRecordV {
    /// A value whose identifier fields have address width.
    pub open spec fn wf(self) -> bool {
        self.mint.len() == 32 && self.user.len() == 32
    }
}

/// The persisted bytes of a block-list record.
pub open spec fn spec_encode_block_record(r: BlockListRecordV) -> Seq<u8> {
    seq![BLOCK_RECORD_TAG] + r.mint + r.user + seq![
        bool_byte(r.blocked),
        reason_byte(r.reason),
    ] + i64_le_bytes(r.added_timestamp)
}

/// What a byte string holds as a block-list record: exactly 75 bytes, the
/// right discriminator, and canonical flag and reason bytes.
pub open spec fn spec_decode_block_record(data: Seq<u8>) -> Option<BlockListRecordV> {
    if data.len() == 75 && data[0] == BLOCK_RECORD_TAG && data[65] <= 1 && reason_of_byte(data[66])
        is Some {
        Some(
            BlockListRecordV {
                mint: data.subrange(1, 33),
                user: data.subrange(33, 65),
                blocked: data[65] == 1,
                reason: reason_of_byte(data[66]).unwrap(),
                added_timestamp: i64_from_le(data.subrange(67, 75)),
            },
        )
    } else {
        None
    }
}

/// Decoding an encoded block-list record reproduces the original value
/// exactly.
pub proof fn lemma_block_record_round_trip(r: BlockListRecordV)
    requires
        r.wf(),
    ensures
        spec_decode_block_record(spec_encode_block_record(r)) == Some(r),
{
    let e = spec_encode_block_record(r);
    assert(e.len() == 75);
    assert(e[0] == BLOCK_RECORD_TAG);
    assert(e[65] == bool_byte(r.blocked));
    assert(e[66] == reason_byte(r.reason));
    assert(e.subrange(1, 33) =~= r.mint);
    assert(e.subrange(33, 65) =~= r.user);
    assert(e.subrange(67, 75) =~= i64_le_bytes(r.added_timestamp));
    lemma_i64_le_round_trip(r.added_timestamp);
}

/// Serialize a block-list record.
pub fn encode_block_record(r: &BlockListRecord) -> (out: Vec<u8>)
    ensures
        out@ == spec_encode_block_record(r@),
{
    let mut out: Vec<u8> = Vec::new();
    out.push(BLOCK_RECORD_TAG);
    push_address(&mut out, &r.mint);
    push_address(&mut out, &r.user);
    out.push(if r.blocked {
        1
    } else {
        0
    });
    out.push(encode_block_reason(&r.reason));
    push_i64_le(&mut out, r.added_timestamp);
    proof {
        assert(out@ =~= spec_encode_block_record(r@));
    }
    out
}

/// Parse a block-list record; any malformation gives `None`.
pub fn decode_block_record(data: &Vec<u8>) -> (r: Option<BlockListRecord>)
    ensures
        match r {
            Some(rec) => spec_decode_block_record(data@) == Some(rec@) && rec@.wf(),
            None => spec_decode_block_record(data@) is None,
        },
{
    if data.len() != 75 {
        return None;
    }
    if *data.get(0).unwrap() != BLOCK_RECORD_TAG {
        return None;
    }
    let blocked_byte = *data.get(65).unwrap();
    if blocked_byte > 1 {
        return None;
    }
    let reason = match decode_block_reason(*data.get(66).unwrap()) {
        Some(x) => x,
        None => {
            return None;
        },
    };
    let rec = BlockListRecord {
        mint: read_address(data, 1),
        user: read_address(data, 33),
        blocked: blocked_byte == 1,
        reason,
        added_timestamp: read_i64_le(data, 67),
    };
    Some(rec)
}

} // verus!
