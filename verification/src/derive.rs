//! Deterministic address derivation: a (purpose seed, components) tuple is
//! mapped to a unique storage address together with a collision nonce
//! ("bump"). The search excludes addresses that have an independent signing
//! key, so a nonce is searched downward from 255; the whole mapping is a
//! pure function of the seeds and the deriving program's identity.

use vstd::prelude::*;

use crate::addr::Address;

verus! {

/// What `Pubkey::try_find_program_address` returns for given seeds under a
/// given program identity. The concrete value is a SHA-256-based search that
/// only the outside crate computes; contracts speak of it by this name.
pub uninterp spec fn derived_address(seeds: Seq<Seq<u8>>, program_id: Seq<u8>) -> Option<
    (Seq<u8>, u8),
>;

/// Relies on solana_program's `Pubkey::try_find_program_address`: the result
/// is a deterministic function of the seeds and the program id alone (a
/// hash-based search over collision nonces from 255 downward), it never
/// panics, and it returns `None` only when no viable nonce exists or the
/// seeds exceed the supported count or length.
#[verifier::external_body]
fn find_derived_address(seeds: &Vec<Vec<u8>>, program_id: &Address) -> (r: Option<(Address, u8)>)
    ensures
        match r {
            Some(p) => derived_address(seeds.deep_view(), program_id@) == Some((p.0@, p.1)),
            None => derived_address(seeds.deep_view(), program_id@) is None,
        },
{
    let seed_refs: Vec<&[u8]> = seeds.iter().map(|s| s.as_slice()).collect();
    let pk = solana_program::pubkey::Pubkey::new_from_array(program_id.bytes);
    solana_program::pubkey::Pubkey::try_find_program_address(&seed_refs, &pk).map(|(a, bump)| (
        Address { bytes: a.to_bytes() },
        bump,
    ))
}

/// Derivation is deterministic: any two derivations from the same seeds
/// under the same program yield the same address and the same nonce.
pub proof fn lemma_derivation_deterministic(
    seeds: Seq<Seq<u8>>,
    program_id: Seq<u8>,
    a1: Seq<u8>,
    n1: u8,
    a2: Seq<u8>,
    n2: u8,
)
    requires
        derived_address(seeds, program_id) == Some((a1, n1)),
        derived_address(seeds, program_id) == Some((a2, n2)),
    ensures
        a1 == a2,
        n1 == n2,
{
}

/// The purpose seed that keys a mint's configuration record.
pub open spec fn seed_mint_config() -> Seq<u8> {
    seq![0x4du8, 0x49, 0x4e, 0x54, 0x5f, 0x43, 0x46, 0x47]
}

/// The purpose seed that keys an allow-list subject record.
pub open spec fn seed_allow_list() -> Seq<u8> {
    seq![0x61u8, 0x6c, 0x6c, 0x6f, 0x77, 0x2d, 0x6c, 0x69, 0x73, 0x74]
}

/// The purpose seed that keys a block-list subject record.
pub open spec fn seed_block_list() -> Seq<u8> {
    seq![0x62u8, 0x6c, 0x6f, 0x63, 0x6b, 0x2d, 0x6c, 0x69, 0x73, 0x74]
}

/// The purpose seed that keys a gate's own configuration record.
pub open spec fn seed_gate_config() -> Seq<u8> {
    seq![0x63u8, 0x6f, 0x6e, 0x66, 0x69, 0x67]
}

/// The purpose seed that keys the registry of extra accounts for thaw.
pub open spec fn seed_thaw_extra_metas() -> Seq<u8> {
    seq![
        0x74u8,
        0x68,
        0x61,
        0x77,
        0x2d,
        0x65,
        0x78,
        0x74,
        0x72,
        0x61,
        0x2d,
        0x61,
        0x63,
        0x63,
        0x6f,
        0x75,
        0x6e,
        0x74,
        0x2d,
        0x6d,
        0x65,
        0x74,
        0x61,
        0x73,
    ]
}

/// The purpose seed that keys the registry of extra accounts for freeze.
pub open spec fn seed_freeze_extra_metas() -> Seq<u8> {
    seq![
        0x66u8,
        0x72,
        0x65,
        0x65,
        0x7a,
        0x65,
        0x2d,
        0x65,
        0x78,
        0x74,
        0x72,
        0x61,
        0x2d,
        0x61,
        0x63,
        0x63,
        0x6f,
        0x75,
        0x6e,
        0x74,
        0x2d,
        0x6d,
        0x65,
        0x74,
        0x61,
        0x73,
    ]
}

fn seed_mint_config_bytes() -> (r: Vec<u8>)
    ensures
        r@ == seed_mint_config(),
{
    let r: Vec<u8> = vec![0x4du8, 0x49, 0x4e, 0x54, 0x5f, 0x43, 0x46, 0x47];
    proof {
        assert(r@ =~= seed_mint_config());
    }
    r
}

fn seed_allow_list_bytes() -> (r: Vec<u8>)
    ensures
        r@ == seed_allow_list(),
{
    let r: Vec<u8> = vec![0x61u8, 0x6c, 0x6c, 0x6f, 0x77, 0x2d, 0x6c, 0x69, 0x73, 0x74];
    proof {
        assert(r@ =~= seed_allow_list());
    }
    r
}

fn seed_block_list_bytes() -> (r: Vec<u8>)
    ensures
        r@ == seed_block_list(),
{
    let r: Vec<u8> = vec![0x62u8, 0x6c, 0x6f, 0x63, 0x6b, 0x2d, 0x6c, 0x69, 0x73, 0x74];
    proof {
        assert(r@ =~= seed_block_list());
    }
    r
}

fn seed_gate_config_bytes() -> (r: Vec<u8>)
    ensures
        r@ == seed_gate_config(),
{
    let r: Vec<u8> = vec![0x63u8, 0x6f, 0x6e, 0x66, 0x69, 0x67];
    proof {
        assert(r@ =~= seed_gate_config());
    }
    r
}

fn seed_thaw_extra_metas_bytes() -> (r: Vec<u8>)
    ensures
        r@ == seed_thaw_extra_metas(),
{
    let r: Vec<u8> = vec![
        0x74u8,
        0x68,
        0x61,
        0x77,
        0x2d,
        0x65,
        0x78,
        0x74,
        0x72,
        0x61,
        0x2d,
        0x61,
        0x63,
        0x63,
        0x6f,
        0x75,
        0x6e,
        0x74,
        0x2d,
        0x6d,
        0x65,
        0x74,
        0x61,
        0x73,
    ];
    proof {
        assert(r@ =~= seed_thaw_extra_metas());
    }
    r
}

fn seed_freeze_extra_metas_bytes() -> (r: Vec<u8>)
    ensures
        r@ == seed_freeze_extra_metas(),
{
    let r: Vec<u8> = vec![
        0x66u8,
        0x72,
        0x65,
        0x65,
        0x7a,
        0x65,
        0x2d,
        0x65,
        0x78,
        0x74,
        0x72,
        0x61,
        0x2d,
        0x61,
        0x63,
        0x63,
        0x6f,
        0x75,
        0x6e,
        0x74,
        0x2d,
        0x6d,
        0x65,
        0x74,
        0x61,
        0x73,
    ];
    proof {
        assert(r@ =~= seed_freeze_extra_metas());
    }
    r
}

/// The seed list for a record keyed by (purpose, mint): the purpose seed
/// followed by the mint's bytes.
pub open spec fn mint_seeds(purpose: Seq<u8>, mint: Seq<u8>) -> Seq<Seq<u8>> {
    seq![purpose, mint]
}

/// The seed list for a record keyed by (purpose, mint, subject).
pub open spec fn subject_seeds(purpose: Seq<u8>, mint: Seq<u8>, subject: Seq<u8>) -> Seq<Seq<u8>> {
    seq![purpose, mint, subject]
}

fn derive_with_mint(purpose: Vec<u8>, mint: &Address, program_id: &Address) -> (r: Option<
    (Address, u8),
>)
    ensures
        match r {
            Some(p) => derived_address(mint_seeds(purpose@, mint@), program_id@) == Some(
                (p.0@, p.1),
            ),
            None => derived_address(mint_seeds(purpose@, mint@), program_id@) is None,
        },
{
    let ghost purpose_view = purpose@;
    let mut seeds: Vec<Vec<u8>> = Vec::new();
    seeds.push(purpose);
    let mut mint_bytes: Vec<u8> = Vec::new();
    let arr = mint.to_bytes();
    let mut i: usize = 0;
    while i < 32
        invariant
            0 <= i <= 32,
            arr@ == mint@,
            mint_bytes@ == mint@.take(i as int),
        decreases 32 - i,
    {
        mint_bytes.push(arr[i]);
        proof {
            assert(mint_bytes@ =~= mint@.take(i + 1));
        }
        i += 1;
    }
    proof {
        assert(mint_bytes@ =~= mint@);
    }
    seeds.push(mint_bytes);
    proof {
        assert(seeds.deep_view() =~~= mint_seeds(purpose_view, mint@));
    }
    find_derived_address(&seeds, program_id)
}

fn derive_with_mint_subject(
    purpose: Vec<u8>,
    mint: &Address,
    subject: &Address,
    program_id: &Address,
) -> (r: Option<(Address, u8)>)
    ensures
        match r {
            Some(p) => derived_address(subject_seeds(purpose@, mint@, subject@), program_id@)
                == Some((p.0@, p.1)),
            None => derived_address(subject_seeds(purpose@, mint@, subject@), program_id@) is None,
        },
{
    let ghost purpose_view = purpose@;
    let mut seeds: Vec<Vec<u8>> = Vec::new();
    seeds.push(purpose);
    seeds.push(address_byte_vec(mint));
    seeds.push(address_byte_vec(subject));
    proof {
        assert(seeds.deep_view() =~~= subject_seeds(purpose_view, mint@, subject@));
    }
    find_derived_address(&seeds, program_id)
}

fn address_byte_vec(a: &Address) -> (r: Vec<u8>)
    ensures
        r@ == a@,
{
    let arr = a.to_bytes();
    let mut r: Vec<u8> = Vec::new();
    let mut i: usize = 0;
    while i < 32
        invariant
            0 <= i <= 32,
            arr@ == a@,
            r@ == a@.take(i as int),
        decreases 32 - i,
    {
        r.push(arr[i]);
        proof {
            assert(r@ =~= a@.take(i + 1));
        }
        i += 1;
    }
    proof {
        assert(r@ =~= a@);
    }
    r
}

/// Where a mint's configuration record lives under the manager program.
pub fn derive_mint_config_address(mint: &Address, program_id: &Address) -> (r: Option<
    (Address, u8),
>)
    ensures
        match r {
            Some(p) => derived_address(mint_seeds(seed_mint_config(), mint@), program_id@) == Some(
                (p.0@, p.1),
            ),
            None => derived_address(mint_seeds(seed_mint_config(), mint@), program_id@) is None,
        },
{
    derive_with_mint(seed_mint_config_bytes(), mint, program_id)
}

/// Where a gate keeps its own configuration record.
pub fn derive_gate_config_address(mint: &Address, gate_program: &Address) -> (r: Option<
    (Address, u8),
>)
    ensures
        match r {
            Some(p) => derived_address(mint_seeds(seed_gate_config(), mint@), gate_program@)
                == Some((p.0@, p.1)),
            None => derived_address(mint_seeds(seed_gate_config(), mint@), gate_program@) is None,
        },
{
    derive_with_mint(seed_gate_config_bytes(), mint, gate_program)
}

/// Where an allow-list record for (mint, subject) lives under a gate program.
pub fn derive_allow_record_address(mint: &Address, subject: &Address, gate_program: &Address) -> (r:
    Option<(Address, u8)>)
    ensures
        match r {
            Some(p) => derived_address(
                subject_seeds(seed_allow_list(), mint@, subject@),
                gate_program@,
            ) == Some((p.0@, p.1)),
            None => derived_address(subject_seeds(seed_allow_list(), mint@, subject@), gate_program@)
                is None,
        },
{
    derive_with_mint_subject(seed_allow_list_bytes(), mint, subject, gate_program)
}

/// Where a block-list record for (mint, subject) lives under a gate program.
pub fn derive_block_record_address(mint: &Address, subject: &Address, gate_program: &Address) -> (r:
    Option<(Address, u8)>)
    ensures
        match r {
            Some(p) => derived_address(
                subject_seeds(seed_block_list(), mint@, subject@),
                gate_program@,
            ) == Some((p.0@, p.1)),
            None => derived_address(subject_seeds(seed_block_list(), mint@, subject@), gate_program@)
                is None,
        },
{
    derive_with_mint_subject(seed_block_list_bytes(), mint, subject, gate_program)
}

/// Where the extra-accounts registry entry for an operation lives under a
/// gate program; thaw and freeze have distinct purpose seeds.
pub fn derive_extra_metas_address(thaw: bool, mint: &Address, gate_program: &Address) -> (r: Option<
    (Address, u8),
>)
    ensures
        match r {
            Some(p) => derived_address(
                mint_seeds(
                    if thaw {
                        seed_thaw_extra_metas()
                    } else {
                        seed_freeze_extra_metas()
                    },
                    mint@,
                ),
                gate_program@,
            ) == Some((p.0@, p.1)),
            None => derived_address(
                mint_seeds(
                    if thaw {
                        seed_thaw_extra_metas()
                    } else {
                        seed_freeze_extra_metas()
                    },
                    mint@,
                ),
                gate_program@,
            ) is None,
        },
{
    if thaw {
        derive_with_mint(seed_thaw_extra_metas_bytes(), mint, gate_program)
    } else {
        derive_with_mint(seed_freeze_extra_metas_bytes(), mint, gate_program)
    }
}

} // verus!
