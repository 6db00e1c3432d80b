//! Account references and capability handling: the view of an account a
//! request carries, the de-escalation transform that strips every signing
//! and writing capability before untrusted code sees the list, and the
//! per-(mint, operation) registry of extra accounts a gate asks for.

use vstd::prelude::*;

use crate::addr::Address;

verus! {

/// The mathematical value of an account reference.
pub ghost struct AccountViewV {
    pub address: Seq<u8>,
    pub is_signer: bool,
    pub is_writable: bool,
    pub data: Seq<u8>,
}

/// One account as a request sees it: its address, whether it signed the
/// request, whether the request may write it, and a snapshot of its data
/// (empty for an absent account).
#[derive(Debug, Clone)]
pub struct AccountView {
    pub address: Address,
    pub is_signer: bool,
    pub is_writable: bool,
    pub data: Vec<u8>,
}

impl View for AccountView {
    type V = AccountViewV;

    open spec fn view(&self) -> AccountViewV {
        AccountViewV {
            address: self.address@,
            is_signer: self.is_signer,
            is_writable: self.is_writable,
            data: self.data@,
        }
    }
}

impl AccountView {
    /// A plain, non-signing, read-only reference without data.
    pub fn readonly(address: Address) -> (r: AccountView)
        ensures
            r@ == (AccountViewV {
                address: address@,
                is_signer: false,
                is_writable: false,
                data: Seq::empty(),
            }),
    {
        let r = AccountView { address, is_signer: false, is_writable: false, data: Vec::new() };
        proof {
            assert(r@.data =~= Seq::<u8>::empty());
        }
        r
    }
}

/// The values of a list of account references.
pub open spec fn account_views(accounts: Seq<AccountView>) -> Seq<AccountViewV> {
    Seq::new(accounts.len(), |i: int| accounts[i]@)
}

/// The strictly-weaker-capability copy of an account list: same addresses
/// and data, but nothing signs and nothing is writable.
pub open spec fn spec_deescalate(accounts: Seq<AccountViewV>) -> Seq<AccountViewV> {
    Seq::new(
        accounts.len(),
        |i: int|
            AccountViewV { is_signer: false, is_writable: false, ..accounts[i] },
    )
}

/// No member of a de-escalated list carries any signing or writing
/// capability, whatever the incoming list claimed.
pub proof fn lemma_deescalated_powerless(accounts: Seq<AccountViewV>)
    ensures
        spec_deescalate(accounts).len() == accounts.len(),
        forall|i: int|
            0 <= i < accounts.len() ==> !(#[trigger] spec_deescalate(accounts)[i]).is_signer && !(
            spec_deescalate(accounts)[i]).is_writable,
        forall|i: int|
            0 <= i < accounts.len() ==> (#[trigger] spec_deescalate(accounts)[i]).address
                == accounts[i].address && spec_deescalate(accounts)[i].data == accounts[i].data,
{
}

fn clone_bytes(v: &Vec<u8>) -> (r: Vec<u8>)
    ensures
        r@ == v@,
{
    let mut r: Vec<u8> = Vec::new();
    let mut i: usize = 0;
    while i < v.len()
        invariant
            0 <= i <= v@.len(),
            r@ == v@.take(i as int),
        decreases v@.len() - i,
    {
        r.push(*v.get(i).unwrap());
        proof {
            assert(r@ =~= v@.take(i + 1));
        }
        i += 1;
    }
    proof {
        assert(r@ =~= v@);
    }
    r
}

/// Produce the de-escalated copy of an account list. This is the boundary
/// where interface narrowing is enforced: the copy, not the original, is
/// what an untrusted gate receives.
pub fn deescalate_accounts(accounts: &Vec<AccountView>) -> (r: Vec<AccountView>)
    ensures
        account_views(r@) == spec_deescalate(account_views(accounts@)),
{
    let mut r: Vec<AccountView> = Vec::new();
    let mut i: usize = 0;
    while i < accounts.len()
        invariant
            0 <= i <= accounts@.len(),
            r@.len() == i,
            account_views(r@) =~= spec_deescalate(account_views(accounts@)).take(i as int),
        decreases accounts@.len() - i,
    {
        let a = accounts.get(i).unwrap();
        let copy = AccountView {
            address: a.address,
            is_signer: false,
            is_writable: false,
            data: clone_bytes(&a.data),
        };
        proof {
            assert(copy@ == spec_deescalate(account_views(accounts@))[i as int]);
        }
        let ghost prev = r@;
        r.push(copy);
        proof {
            assert forall|j: int| 0 <= j < i + 1 implies account_views(r@)[j] == spec_deescalate(
                account_views(accounts@),
            ).take(i + 1)[j] by {
                if j < i {
                    assert(r@[j] == prev[j]);
                    assert(account_views(prev)[j] == spec_deescalate(
                        account_views(accounts@),
                    ).take(i as int)[j]);
                } else {
                    assert(r@[j] == copy);
                }
            }
            assert(account_views(r@) =~= spec_deescalate(account_views(accounts@)).take(i + 1));
        }
        i += 1;
    }
    proof {
        assert(spec_deescalate(account_views(accounts@)).take(accounts@.len() as int) =~= spec_deescalate(
            account_views(accounts@),
        ));
    }
    r
}

/// How one extra account is declared in the registry: its address and the
/// capabilities its deployer asked for. The manager treats the flags as
/// a hint only and re-applies de-escalation regardless.
#[derive(Debug, Clone)]
pub struct AccountDescriptor {
    pub address: Address,
    pub is_signer: bool,
    pub is_writable: bool,
}

/// The mathematical value of a descriptor.
pub ghost struct AccountDescriptorV {
    pub address: Seq<u8>,
    pub is_signer: bool,
    pub is_writable: bool,
}

impl View for AccountDescriptor {
    type V = AccountDescriptorV;

    open spec fn view(&self) -> AccountDescriptorV {
        AccountDescriptorV {
            address: self.address@,
            is_signer: self.is_signer,
            is_writable: self.is_writable,
        }
    }
}

/// One registered entry: the extra accounts a gate asks for when a given
/// operation runs for a given mint.
#[derive(Debug, Clone)]
pub struct ExtraMetasEntry {
    pub mint: Address,
    pub thaw: bool,
    pub metas: Vec<AccountDescriptor>,
}

/// The mathematical value of a registry entry.
pub ghost struct ExtraMetasEntryV {
    pub mint: Seq<u8>,
    pub thaw: bool,
    pub metas: Seq<AccountDescriptorV>,
}

impl View for ExtraMetasEntry {
    type V = ExtraMetasEntryV;

    open spec fn view(&self) -> ExtraMetasEntryV {
        ExtraMetasEntryV {
            mint: self.mint@,
            thaw: self.thaw,
            metas: Seq::new(self.metas@.len(), |i: int| self.metas@[i]@),
        }
    }
}

/// The per-mint, per-operation registry of extra accounts, populated by the
/// gate deployer.
#[derive(Debug, Clone)]
pub struct ExtraAccountsRegistry {
    pub entries: Vec<ExtraMetasEntry>,
}

impl View for ExtraAccountsRegistry {
    type V = Seq<ExtraMetasEntryV>;

    open spec fn view(&self) -> Seq<ExtraMetasEntryV> {
        Seq::new(self.entries@.len(), |i: int| self.entries@[i]@)
    }
}

/// The descriptors of the first entry registered for (mint, operation); an
/// absent entry resolves to the empty list, which is valid: a gate
/// supporting only one operation need not register the other.
pub open spec fn spec_resolve(
    entries: Seq<ExtraMetasEntryV>,
    mint: Seq<u8>,
    thaw: bool,
) -> Seq<AccountDescriptorV>
    decreases entries.len(),
{
    if entries.len() == 0 {
        Seq::empty()
    } else if entries[0].mint == mint && entries[0].thaw == thaw {
        entries[0].metas
    } else {
        spec_resolve(entries.drop_first(), mint, thaw)
    }
}

impl ExtraAccountsRegistry {
    pub fn new() -> (r: ExtraAccountsRegistry)
        ensures
            r@.len() == 0,
    {
        ExtraAccountsRegistry { entries: Vec::new() }
    }

    /// Register the extra accounts for one (mint, operation) pair.
    pub fn register(&mut self, entry: ExtraMetasEntry)
        ensures
            final(self)@ == old(self)@.push(entry@),
    {
        self.entries.push(entry);
        proof {
            assert(self@ =~= old(self)@.push(entry@));
        }
    }

    /// Look up the extra accounts registered for (mint, operation).
    pub fn resolve(&self, mint: &Address, thaw: bool) -> (r: Vec<AccountDescriptor>)
        ensures
            Seq::new(r@.len(), |i: int| r@[i]@) == spec_resolve(self@, mint@, thaw),
    {
        proof {
            assert(self@.skip(0) =~= self@);
        }
        let mut i: usize = 0;
        while i < self.entries.len()
            invariant
                0 <= i <= self.entries@.len(),
                self@.len() == self.entries@.len(),
                spec_resolve(self@, mint@, thaw) == spec_resolve(
                    self@.skip(i as int),
                    mint@,
                    thaw,
                ),
            decreases self.entries@.len() - i,
        {
            let entry = self.entries.get(i).unwrap();
            proof {
                assert(self@.skip(i as int)[0] == self@[i as int]);
                assert(self@[i as int] == self.entries@[i as int]@);
            }
            if &entry.mint == mint && entry.thaw == thaw {
                let metas = clone_descriptors(&entry.metas);
                proof {
                    assert(Seq::new(metas@.len(), |k: int| metas@[k]@) =~= self@[i as int].metas);
                }
                return metas;
            }
            proof {
                assert(self@.skip(i as int).drop_first() =~= self@.skip(i + 1));
            }
            i += 1;
        }
        proof {
            assert(self@.skip(self.entries@.len() as int) =~= Seq::<ExtraMetasEntryV>::empty());
        }
        let r: Vec<AccountDescriptor> = Vec::new();
        proof {
            assert(Seq::new(r@.len(), |i: int| r@[i]@) =~= Seq::<AccountDescriptorV>::empty());
        }
        r
    }
}

fn clone_descriptors(v: &Vec<AccountDescriptor>) -> (r: Vec<AccountDescriptor>)
    ensures
        Seq::new(r@.len(), |i: int| r@[i]@) == Seq::new(v@.len(), |i: int| v@[i]@),
        r@.len() == v@.len(),
{
    let mut r: Vec<AccountDescriptor> = Vec::new();
    let mut i: usize = 0;
    while i < v.len()
        invariant
            0 <= i <= v@.len(),
            r@.len() == i,
            forall|j: int| 0 <= j < i ==> (#[trigger] r@[j])@ == v@[j]@,
        decreases v@.len() - i,
    {
        let d = v.get(i).unwrap();
        r.push(
            AccountDescriptor {
                address: d.address,
                is_signer: d.is_signer,
                is_writable: d.is_writable,
            },
        );
        i += 1;
    }
    proof {
        assert(Seq::new(r@.len(), |i: int| r@[i]@) =~= Seq::new(v@.len(), |i: int| v@[i]@));
    }
    r
}

} // verus!
