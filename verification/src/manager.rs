//! The manager: the proxy that holds delegated freeze/thaw authority. It
//! validates a request, resolves extra accounts, de-escalates every
//! capability, invokes the configured gate, and applies the privileged
//! action itself — or rejects the whole request. Each request is one atomic
//! unit: either the action is applied or nothing changes.

use vstd::prelude::*;

use crate::accounts::{
    account_views, deescalate_accounts, spec_deescalate, AccountDescriptor, AccountDescriptorV,
    AccountView, AccountViewV, ExtraAccountsRegistry,
};
use crate::addr::Address;
use crate::config::{MintConfig, MintConfigV};
use crate::derive::{
    derive_extra_metas_address, derived_address, mint_seeds, seed_freeze_extra_metas,
    seed_thaw_extra_metas,
};
use crate::error::GatewayError;
use crate::gate::{
    allow_record_located, block_record_located, check_allow_record_location,
    check_block_record_location, gate_process_instruction, spec_gate_allows, Gate,
};
use crate::tags::{freeze_tag, spec_freeze_tag, spec_parse_operation, spec_thaw_tag, thaw_tag,
    Operation};

verus! {

/// The mathematical value of a token account.
pub ghost struct TokenAccountV {
    pub address: Seq<u8>,
    pub owner: Seq<u8>,
    pub frozen: bool,
}

/// The token account the manager acts on: its address, the subject that
/// owns it, and its frozen state — the one piece of state a request may
/// change.
#[derive(Debug, Clone)]
pub struct TokenAccount {
    pub address: Address,
    pub owner: Address,
    pub frozen: bool,
}

impl View for TokenAccount {
    type V = TokenAccountV;

    open spec fn view(&self) -> TokenAccountV {
        TokenAccountV { address: self.address@, owner: self.owner@, frozen: self.frozen }
    }
}

/// Whether a privileged request is permitted: exactly when the caller is
/// the configured authority and signed the request. No gate state appears
/// here.
pub open spec fn privileged_permitted(config: MintConfigV, caller: AccountViewV) -> bool {
    caller.address == config.authority && caller.is_signer
}

/// The privileged outcome is independent of gate state: two configurations
/// with the same authority permit exactly the same privileged requests,
/// whatever gate they bind and whatever flags they set.
pub proof fn lemma_privileged_independent_of_gate(
    c1: MintConfigV,
    c2: MintConfigV,
    caller: AccountViewV,
)
    requires
        c1.authority == c2.authority,
    ensures
        privileged_permitted(c1, caller) == privileged_permitted(c2, caller),
{
}

/// Privileged freeze: succeeds iff the caller is the signing authority,
/// never consults any gate, and freezes the account on success.
pub fn privileged_freeze(config: &MintConfig, caller: &AccountView, token: &mut TokenAccount) -> (r:
    Result<(), GatewayError>)
    requires
        config.wf(),
    ensures
        r is Ok <==> privileged_permitted(config@, caller@),
        r is Ok ==> final(token)@ == (TokenAccountV { frozen: true, ..old(token)@ }),
        r is Err ==> *final(token) == *old(token) && r == Err::<(), GatewayError>(
            GatewayError::Unauthorized,
        ),
{
    if !caller.is_signer || !(&caller.address == &config.authority) {
        return Err(GatewayError::Unauthorized);
    }
    token.frozen = true;
    Ok(())
}

/// Privileged thaw: succeeds iff the caller is the signing authority, never
/// consults any gate, and thaws the account on success.
pub fn privileged_thaw(config: &MintConfig, caller: &AccountView, token: &mut TokenAccount) -> (r:
    Result<(), GatewayError>)
    requires
        config.wf(),
    ensures
        r is Ok <==> privileged_permitted(config@, caller@),
        r is Ok ==> final(token)@ == (TokenAccountV { frozen: false, ..old(token)@ }),
        r is Err ==> *final(token) == *old(token) && r == Err::<(), GatewayError>(
            GatewayError::Unauthorized,
        ),
{
    if !caller.is_signer || !(&caller.address == &config.authority) {
        return Err(GatewayError::Unauthorized);
    }
    token.frozen = false;
    Ok(())
}

/// Whether the caller-supplied record accounts are exactly the locations
/// the bound gate's own derivation gives for (mint, user): one allow-list record
/// for an allow-list gate, one block-list record for a block-list gate, and
/// the pair for a hybrid gate.
pub open spec fn records_located(
    gate: Gate,
    gate_program: Seq<u8>,
    mint: Seq<u8>,
    user: Seq<u8>,
    records: Seq<AccountViewV>,
) -> bool {
    match gate {
        Gate::AllowList => records.len() == 1 && allow_record_located(
            records[0],
            gate_program,
            mint,
            user,
        ),
        Gate::BlockList => records.len() == 1 && block_record_located(
            records[0],
            gate_program,
            mint,
            user,
        ),
        Gate::Hybrid => records.len() == 2 && allow_record_located(
            records[0],
            gate_program,
            mint,
            user,
        ) && block_record_located(records[1], gate_program, mint, user),
    }
}

/// The address of the extra-accounts registry entry for an operation, or
/// the unset address when no derivation exists.
pub open spec fn spec_metas_address(thaw: bool, mint: Seq<u8>, gate_program: Seq<u8>) -> Seq<u8> {
    match derived_address(
        mint_seeds(
            if thaw {
                seed_thaw_extra_metas()
            } else {
                seed_freeze_extra_metas()
            },
            mint,
        ),
        gate_program,
    ) {
        Some(p) => p.0,
        None => Address::spec_unset(),
    }
}

/// An address-only, read-only account reference.
pub open spec fn spec_plain_ref(address: Seq<u8>) -> AccountViewV {
    AccountViewV { address, is_signer: false, is_writable: false, data: Seq::empty() }
}

/// The account list handed to a gate, before de-escalation: the caller as
/// it arrived, the token account as the request addressed it (writable),
/// the mint, the registry entry, the subject, the record accounts, then the
/// registry's resolved descriptors with the capabilities they declared.
pub open spec fn spec_raw_invocation(
    caller: AccountViewV,
    token_address: Seq<u8>,
    mint: Seq<u8>,
    metas_address: Seq<u8>,
    user: Seq<u8>,
    records: Seq<AccountViewV>,
    resolved: Seq<AccountDescriptorV>,
) -> Seq<AccountViewV> {
    seq![
        caller,
        AccountViewV {
            address: token_address,
            is_signer: false,
            is_writable: true,
            data: Seq::empty(),
        },
        spec_plain_ref(mint),
        spec_plain_ref(metas_address),
        spec_plain_ref(user),
    ] + records + Seq::new(
        resolved.len(),
        |i: int|
            AccountViewV {
                address: resolved[i].address,
                is_signer: resolved[i].is_signer,
                is_writable: resolved[i].is_writable,
                data: Seq::empty(),
            },
    )
}

/// What an invoked gate actually receives: the raw list with every signing and
/// writing capability stripped. Whatever the request or the registry
/// declared, no forwarded account signs and none is writable.
pub open spec fn spec_forwarded_accounts(
    caller: AccountViewV,
    token_address: Seq<u8>,
    mint: Seq<u8>,
    metas_address: Seq<u8>,
    user: Seq<u8>,
    records: Seq<AccountViewV>,
    resolved: Seq<AccountDescriptorV>,
) -> Seq<AccountViewV> {
    spec_deescalate(
        spec_raw_invocation(caller, token_address, mint, metas_address, user, records, resolved),
    )
}

/// The result of one permissionless request, as a function of the
/// configuration, the bound gate's decision and the supplied accounts: the exact
/// error for each way to fail, in validation order.
pub open spec fn spec_permissionless_outcome(
    thaw: bool,
    config: MintConfigV,
    gate: Gate,
    caller: AccountViewV,
    token_address: Seq<u8>,
    user: Seq<u8>,
    records: Seq<AccountViewV>,
    resolved: Seq<AccountDescriptorV>,
    now: i64,
) -> Result<(), GatewayError> {
    let flag = if thaw {
        config.enable_permissionless_thaw
    } else {
        config.enable_permissionless_freeze
    };
    if !flag {
        Err(GatewayError::OperationDisabled)
    } else if config.gating_program == Address::spec_unset() {
        Err(GatewayError::GateNotConfigured)
    } else if !records_located(gate, config.gating_program, config.mint, user, records) {
        Err(GatewayError::InvalidDerivedAddress)
    } else if !spec_gate_allows(
        gate,
        thaw,
        config.gating_program,
        spec_forwarded_accounts(
            caller,
            token_address,
            config.mint,
            spec_metas_address(thaw, config.mint, config.gating_program),
            user,
            records,
            resolved,
        ),
        now,
    ) {
        Err(GatewayError::GateDenied)
    } else {
        Ok(())
    }
}

fn descriptor_refs(resolved: &Vec<AccountDescriptor>) -> (r: Vec<AccountView>)
    ensures
        account_views(r@) == Seq::new(
            resolved@.len(),
            |i: int|
                AccountViewV {
                    address: resolved@[i]@.address,
                    is_signer: resolved@[i]@.is_signer,
                    is_writable: resolved@[i]@.is_writable,
                    data: Seq::empty(),
                },
        ),
{
    let ghost target = Seq::new(
        resolved@.len(),
        |i: int|
            AccountViewV {
                address: resolved@[i]@.address,
                is_signer: resolved@[i]@.is_signer,
                is_writable: resolved@[i]@.is_writable,
                data: Seq::empty(),
            },
    );
    let mut r: Vec<AccountView> = Vec::new();
    let mut i: usize = 0;
    while i < resolved.len()
        invariant
            0 <= i <= resolved@.len(),
            r@.len() == i,
            forall|j: int| 0 <= j < i ==> account_views(r@)[j] == target[j],
            target == Seq::new(
                resolved@.len(),
                |k: int|
                    AccountViewV {
                        address: resolved@[k]@.address,
                        is_signer: resolved@[k]@.is_signer,
                        is_writable: resolved@[k]@.is_writable,
                        data: Seq::empty(),
                    },
            ),
        decreases resolved@.len() - i,
    {
        let d = resolved.get(i).unwrap();
        let a = AccountView {
            address: d.address,
            is_signer: d.is_signer,
            is_writable: d.is_writable,
            data: Vec::new(),
        };
        proof {
            assert(a@.data =~= Seq::<u8>::empty());
            assert(a@ == target[i as int]);
        }
        let ghost prev = r@;
        r.push(a);
        proof {
            assert forall|j: int| 0 <= j < i + 1 implies account_views(r@)[j] == target[j] by {
                if j < i {
                    assert(r@[j] == prev[j]);
                    assert(account_views(prev)[j] == target[j]);
                }
            }
        }
        i += 1;
    }
    proof {
        assert(account_views(r@) =~= target);
    }
    r
}

fn clone_account(a: &AccountView) -> (r: AccountView)
    ensures
        r@ == a@,
{
    let mut data: Vec<u8> = Vec::new();
    let mut i: usize = 0;
    while i < a.data.len()
        invariant
            0 <= i <= a.data@.len(),
            data@ == a.data@.take(i as int),
        decreases a.data@.len() - i,
    {
        data.push(*a.data.get(i).unwrap());
        proof {
            assert(data@ =~= a.data@.take(i + 1));
        }
        i += 1;
    }
    proof {
        assert(data@ =~= a.data@);
    }
    AccountView { address: a.address, is_signer: a.is_signer, is_writable: a.is_writable, data }
}

fn build_raw_invocation(
    caller: &AccountView,
    token_address: &Address,
    mint: &Address,
    metas_address: &Address,
    user: &Address,
    records: &Vec<AccountView>,
    resolved: &Vec<AccountDescriptor>,
) -> (r: Vec<AccountView>)
    ensures
        account_views(r@) == spec_raw_invocation(
            caller@,
            token_address@,
            mint@,
            metas_address@,
            user@,
            account_views(records@),
            Seq::new(resolved@.len(), |i: int| resolved@[i]@),
        ),
{
    let ghost target = spec_raw_invocation(
        caller@,
        token_address@,
        mint@,
        metas_address@,
        user@,
        account_views(records@),
        Seq::new(resolved@.len(), |i: int| resolved@[i]@),
    );
    let mut r: Vec<AccountView> = Vec::new();
    r.push(clone_account(caller));
    let token_ref = AccountView {
        address: *token_address,
        is_signer: false,
        is_writable: true,
        data: Vec::new(),
    };
    proof {
        assert(token_ref@.data =~= Seq::<u8>::empty());
    }
    r.push(token_ref);
    r.push(AccountView::readonly(*mint));
    r.push(AccountView::readonly(*metas_address));
    r.push(AccountView::readonly(*user));
    let ghost head = r@;
    proof {
        assert(head.len() == 5);
        assert(head[0]@ == target[0]);
        assert(head[1]@ == target[1]);
        assert(head[2]@ == target[2]);
        assert(head[3]@ == target[3]);
        assert(head[4]@ == target[4]);
    }
    let mut i: usize = 0;
    while i < records.len()
        invariant
            head.len() == 5,
            r@.len() == 5 + i,
            0 <= i <= records@.len(),
            forall|j: int| 0 <= j < 5 ==> r@[j] == head[j],
            forall|j: int| 0 <= j < i ==> (#[trigger] r@[5 + j])@ == account_views(records@)[j],
        decreases records@.len() - i,
    {
        let ghost prev = r@;
        r.push(clone_account(records.get(i).unwrap()));
        proof {
            assert forall|j: int| 0 <= j < i + 1 implies (#[trigger] r@[5 + j])@ == account_views(
                records@,
            )[j] by {
                if j < i {
                    assert(r@[5 + j] == prev[5 + j]);
                }
            }
        }
        i += 1;
    }
    let ghost with_records = r@;
    let extras = descriptor_refs(resolved);
    let ghost base = with_records.len();
    let mut k: usize = 0;
    while k < extras.len()
        invariant
            0 <= k <= extras@.len(),
            base == with_records.len(),
            with_records.len() == 5 + records@.len(),
            r@.len() == base + k,
            forall|j: int| 0 <= j < base ==> r@[j] == with_records[j],
            forall|j: int|
                0 <= j < k ==> (#[trigger] r@[base + j])@ == account_views(extras@)[j],
        decreases extras@.len() - k,
    {
        let ghost prev = r@;
        r.push(clone_account(extras.get(k).unwrap()));
        proof {
            assert forall|j: int| 0 <= j < k + 1 implies (#[trigger] r@[base + j])@
                == account_views(extras@)[j] by {
                if j < k {
                    assert(r@[base + j] == prev[base + j]);
                }
            }
        }
        k += 1;
    }
    proof {
        let recs = account_views(records@);
        let resolved_views = Seq::new(resolved@.len(), |i: int| resolved@[i]@);
        assert(account_views(extras@).len() == resolved_views.len());
        assert(extras@.len() == resolved_views.len());
        assert forall|j: int| 0 <= j < target.len() implies account_views(r@)[j] == target[j] by {
            if j < 5 {
                assert(r@[j] == with_records[j]);
                assert(with_records[j] == head[j]);
            } else if j < 5 + recs.len() {
                let jj = j - 5;
                assert(r@[j] == with_records[j]);
                assert(with_records[5 + jj]@ == recs[jj]);
                assert(target[j] == recs[jj]);
            } else {
                let jj = j - base;
                assert(r@[base + jj]@ == account_views(extras@)[jj]);
                assert(account_views(extras@)[jj] == AccountViewV {
                    address: resolved_views[jj].address,
                    is_signer: resolved_views[jj].is_signer,
                    is_writable: resolved_views[jj].is_writable,
                    data: Seq::empty(),
                });
                assert(target[j] == AccountViewV {
                    address: resolved_views[jj].address,
                    is_signer: resolved_views[jj].is_signer,
                    is_writable: resolved_views[jj].is_writable,
                    data: Seq::empty(),
                });
            }
        }
        assert(account_views(r@) =~= target);
    }
    r
}


/// Every account forwarded to a gate invocation is non-signing and
/// read-only, for every member of the forwarded set, whatever capabilities
/// the request or the registry declared.
pub proof fn lemma_forwarded_accounts_powerless(
    caller: AccountViewV,
    token_address: Seq<u8>,
    mint: Seq<u8>,
    metas_address: Seq<u8>,
    user: Seq<u8>,
    records: Seq<AccountViewV>,
    resolved: Seq<AccountDescriptorV>,
)
    ensures
        forall|i: int|
            0 <= i < spec_forwarded_accounts(
                caller,
                token_address,
                mint,
                metas_address,
                user,
                records,
                resolved,
            ).len() ==> !(#[trigger] spec_forwarded_accounts(
                caller,
                token_address,
                mint,
                metas_address,
                user,
                records,
                resolved,
            )[i]).is_signer && !(spec_forwarded_accounts(
                caller,
                token_address,
                mint,
                metas_address,
                user,
                records,
                resolved,
            )[i]).is_writable,
{
}

fn tag_bytes(thaw: bool) -> (r: Vec<u8>)
    ensures
        r@ == if thaw {
            spec_thaw_tag()
        } else {
            spec_freeze_tag()
        },
{
    let tag: [u8; 8] = if thaw {
        thaw_tag()
    } else {
        freeze_tag()
    };
    let mut r: Vec<u8> = Vec::new();
    let mut k: usize = 0;
    while k < 8
        invariant
            0 <= k <= 8,
            tag@ == if thaw {
                spec_thaw_tag()
            } else {
                spec_freeze_tag()
            },
            r@ == tag@.take(k as int),
        decreases 8 - k,
    {
        r.push(tag[k]);
        proof {
            assert(r@ =~= tag@.take(k + 1));
        }
        k += 1;
    }
    proof {
        assert(r@ =~= tag@);
    }
    r
}

fn records_located_check(
    gate: &Gate,
    gate_program: &Address,
    mint: &Address,
    user: &Address,
    records: &Vec<AccountView>,
) -> (r: bool)
    ensures
        r == records_located(*gate, gate_program@, mint@, user@, account_views(records@)),
{
    match gate {
        Gate::AllowList => records.len() == 1 && check_allow_record_location(
            records.get(0).unwrap(),
            gate_program,
            mint,
            user,
        ),
        Gate::BlockList => records.len() == 1 && check_block_record_location(
            records.get(0).unwrap(),
            gate_program,
            mint,
            user,
        ),
        Gate::Hybrid => records.len() == 2 && check_allow_record_location(
            records.get(0).unwrap(),
            gate_program,
            mint,
            user,
        ) && check_block_record_location(records.get(1).unwrap(), gate_program, mint, user),
    }
}

fn permissionless_op(
    thaw: bool,
    config: &MintConfig,
    gate: &Gate,
    registry: &ExtraAccountsRegistry,
    caller: &AccountView,
    token: &mut TokenAccount,
    user: &Address,
    records: &Vec<AccountView>,
    now: i64,
) -> (r: Result<(), GatewayError>)
    ensures
        r == spec_permissionless_outcome(
            thaw,
            config@,
            *gate,
            caller@,
            old(token)@.address,
            user@,
            account_views(records@),
            crate::accounts::spec_resolve(registry@, config@.mint, thaw),
            now,
        ),
        r is Ok ==> final(token)@ == (TokenAccountV { frozen: !thaw, ..old(token)@ }),
        r is Err ==> *final(token) == *old(token),
{
    let flag = if thaw {
        config.enable_permissionless_thaw
    } else {
        config.enable_permissionless_freeze
    };
    if !flag {
        return Err(GatewayError::OperationDisabled);
    }
    if config.gating_program.is_unset_exec() {
        return Err(GatewayError::GateNotConfigured);
    }
    if !records_located_check(gate, &config.gating_program, &config.mint, user, records) {
        return Err(GatewayError::InvalidDerivedAddress);
    }
    let resolved = registry.resolve(&config.mint, thaw);
    let metas_address = match derive_extra_metas_address(thaw, &config.mint, &config.gating_program)
    {
        Some(p) => p.0,
        None => Address::unset(),
    };
    proof {
        assert(metas_address@ == spec_metas_address(thaw, config@.mint, config@.gating_program));
    }
    let raw = build_raw_invocation(
        caller,
        &token.address,
        &config.mint,
        &metas_address,
        user,
        records,
        &resolved,
    );
    let forwarded = deescalate_accounts(&raw);
    let data = tag_bytes(thaw);
    proof {
        if thaw {
            assert(data@[0] == 8);
            assert(data@.take(8) =~= spec_thaw_tag());
            assert(spec_parse_operation(data@) == Ok::<Operation, GatewayError>(Operation::CanThaw));
        } else {
            assert(data@[0] == 214);
            assert(data@.take(8) =~= spec_freeze_tag());
            assert(spec_parse_operation(data@) == Ok::<Operation, GatewayError>(
                Operation::CanFreeze,
            ));
        }
    }
    let allowed = gate_process_instruction(gate, &config.gating_program, &forwarded, &data, now);
    if !allowed {
        return Err(GatewayError::GateDenied);
    }
    token.frozen = !thaw;
    Ok(())
}


/// Permissionless thaw. Fails closed: it succeeds exactly when the thaw
/// flag is set, a gate is bound, the supplied record accounts sit at the
/// gate's own derived addresses, and the bound gate allows the de-escalated
/// invocation — and then the token account is thawed; any other outcome
/// rejects with the matching error and changes nothing.
pub fn permissionless_thaw(
    config: &MintConfig,
    gate: &Gate,
    registry: &ExtraAccountsRegistry,
    caller: &AccountView,
    token: &mut TokenAccount,
    user: &Address,
    records: &Vec<AccountView>,
    now: i64,
) -> (r: Result<(), GatewayError>)
    ensures
        r == spec_permissionless_outcome(
            true,
            config@,
            *gate,
            caller@,
            old(token)@.address,
            user@,
            account_views(records@),
            crate::accounts::spec_resolve(registry@, config@.mint, true),
            now,
        ),
        r is Ok ==> final(token)@ == (TokenAccountV { frozen: false, ..old(token)@ }),
        r is Err ==> *final(token) == *old(token),
{
    permissionless_op(true, config, gate, registry, caller, token, user, records, now)
}

/// Permissionless freeze; the mirror of `permissionless_thaw` under the
/// freeze flag, freezing the account on success.
pub fn permissionless_freeze(
    config: &MintConfig,
    gate: &Gate,
    registry: &ExtraAccountsRegistry,
    caller: &AccountView,
    token: &mut TokenAccount,
    user: &Address,
    records: &Vec<AccountView>,
    now: i64,
) -> (r: Result<(), GatewayError>)
    ensures
        r == spec_permissionless_outcome(
            false,
            config@,
            *gate,
            caller@,
            old(token)@.address,
            user@,
            account_views(records@),
            crate::accounts::spec_resolve(registry@, config@.mint, false),
            now,
        ),
        r is Ok ==> final(token)@ == (TokenAccountV { frozen: true, ..old(token)@ }),
        r is Err ==> *final(token) == *old(token),
{
    permissionless_op(false, config, gate, registry, caller, token, user, records, now)
}

/// A permissionless operation succeeds exactly when its enable-flag is set,
/// a gate is bound, the record accounts sit at the re-derived addresses,
/// and the bound gate allows; with any of these false it fails closed, with the
/// error that names the first failing condition.
pub proof fn lemma_permissionless_fails_closed(
    thaw: bool,
    config: MintConfigV,
    gate: Gate,
    caller: AccountViewV,
    token_address: Seq<u8>,
    user: Seq<u8>,
    records: Seq<AccountViewV>,
    resolved: Seq<AccountDescriptorV>,
    now: i64,
)
    ensures
        spec_permissionless_outcome(
            thaw,
            config,
            gate,
            caller,
            token_address,
            user,
            records,
            resolved,
            now,
        ) is Ok <==> {
            &&& if thaw {
                config.enable_permissionless_thaw
            } else {
                config.enable_permissionless_freeze
            }
            &&& config.gating_program != Address::spec_unset()
            &&& records_located(gate, config.gating_program, config.mint, user, records)
            &&& spec_gate_allows(
                gate,
                thaw,
                config.gating_program,
                spec_forwarded_accounts(
                    caller,
                    token_address,
                    config.mint,
                    spec_metas_address(thaw, config.mint, config.gating_program),
                    user,
                    records,
                    resolved,
                ),
                now,
            )
        },
{
}


/// A permissionless operation can succeed only while it is reachable: the
/// matching enable-flag is set and a gate is bound. This is the
/// configuration invariant of the permissionless paths.
pub proof fn lemma_permissionless_requires_reachable(
    thaw: bool,
    config: MintConfigV,
    gate: Gate,
    caller: AccountViewV,
    token_address: Seq<u8>,
    user: Seq<u8>,
    records: Seq<AccountViewV>,
    resolved: Seq<AccountDescriptorV>,
    now: i64,
)
    ensures
        spec_permissionless_outcome(
            thaw,
            config,
            gate,
            caller,
            token_address,
            user,
            records,
            resolved,
            now,
        ) is Ok ==> if thaw {
            config.thaw_reachable()
        } else {
            config.freeze_reachable()
        },
{
}

} // verus!
