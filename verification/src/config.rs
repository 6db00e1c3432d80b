//! Per-mint configuration: the record that binds a mint to its authority
//! and its gate, and the administrative operations on it. No gate operation
//! can reach any of these mutations; that asymmetry is the trust boundary.

use vstd::prelude::*;

use crate::accounts::AccountView;
use crate::addr::Address;
use crate::error::GatewayError;

verus! {

/// The mathematical value of a mint configuration record.
pub ghost struct MintConfigV {
    pub mint: Seq<u8>,
    pub authority: Seq<u8>,
    pub gating_program: Seq<u8>,
    pub enable_permissionless_thaw: bool,
    pub enable_permissionless_freeze: bool,
}

impl MintConfigV {
    /// Whether permissionless thaw is reachable: the flag is set and a gate
    /// is bound.
    pub open spec fn thaw_reachable(self) -> bool {
        self.enable_permissionless_thaw && self.gating_program != Address::spec_unset()
    }

    /// Whether permissionless freeze is reachable.
    pub open spec fn freeze_reachable(self) -> bool {
        self.enable_permissionless_freeze && self.gating_program != Address::spec_unset()
    }
}

/// One mint's configuration: the governed asset, the principal with
/// privileged control, the bound gate (all-zero when unset), and the two
/// independent permissionless enable-flags.
#[derive(Debug, Clone, PartialEq)]
pub struct MintConfig {
    pub discriminator: u8,
    pub mint: Address,
    pub authority: Address,
    pub gating_program: Address,
    pub enable_permissionless_thaw: bool,
    pub enable_permissionless_freeze: bool,
}

impl View for MintConfig {
    type V = MintConfigV;

    open spec fn view(&self) -> MintConfigV {
        MintConfigV {
            mint: self.mint@,
            authority: self.authority@,
            gating_program: self.gating_program@,
            enable_permissionless_thaw: self.enable_permissionless_thaw,
            enable_permissionless_freeze: self.enable_permissionless_freeze,
        }
    }
}

impl MintConfig {
    /// The leading type-discriminator byte of a persisted configuration
    /// record.
    pub const DISCRIMINATOR: u8 = 0x01;

    /// Every live configuration record carries the fixed discriminator.
    pub open spec fn wf(self) -> bool {
        self.discriminator == 0x01
    }

    /// A fresh configuration: both permissionless flags off, and the gating program
    /// unset unless one is bound at creation.
    pub fn new(mint: Address, authority: Address, gating_program: Option<Address>) -> (r:
        MintConfig)
        ensures
            r.wf(),
            r@.mint == mint@,
            r@.authority == authority@,
            r@.gating_program == match gating_program {
                Some(g) => g@,
                None => Address::spec_unset(),
            },
            !r@.enable_permissionless_thaw,
            !r@.enable_permissionless_freeze,
    {
        MintConfig {
            discriminator: MintConfig::DISCRIMINATOR,
            mint,
            authority,
            gating_program: match gating_program {
                Some(g) => g,
                None => Address::unset(),
            },
            enable_permissionless_thaw: false,
            enable_permissionless_freeze: false,
        }
    }
}

/// The persistent store of configuration records, one per mint.
pub struct ConfigStore {
    pub configs: Vec<MintConfig>,
}

impl View for ConfigStore {
    type V = Seq<MintConfigV>;

    open spec fn view(&self) -> Seq<MintConfigV> {
        Seq::new(self.configs@.len(), |i: int| self.configs@[i]@)
    }
}

impl ConfigStore {
    /// Whether some record already governs the given mint.
    pub open spec fn spec_has_config(self, mint: Seq<u8>) -> bool {
        exists|i: int| 0 <= i < self@.len() && self@[i].mint == mint
    }

    /// All records are well-formed and no two govern the same mint.
    pub open spec fn wf(self) -> bool {
        &&& forall|i: int| 0 <= i < self.configs@.len() ==> (#[trigger] self.configs@[i]).wf()
        &&& forall|i: int, j: int|
            0 <= i < j < self@.len() ==> (#[trigger] self@[i]).mint != (#[trigger] self@[j]).mint
    }

    pub fn new() -> (r: ConfigStore)
        ensures
            r.wf(),
            r@.len() == 0,
    {
        ConfigStore { configs: Vec::new() }
    }

    /// Find the record that governs a mint.
    pub fn lookup(&self, mint: &Address) -> (r: Option<&MintConfig>)
        ensures
            match r {
                Some(c) => self.spec_has_config(mint@) && c@.mint == mint@ && exists|i: int|
                    0 <= i < self@.len() && self@[i] == c@,
                None => !self.spec_has_config(mint@),
            },
    {
        let mut i: usize = 0;
        while i < self.configs.len()
            invariant
                0 <= i <= self.configs@.len(),
                self@.len() == self.configs@.len(),
                forall|j: int| 0 <= j < i ==> (#[trigger] self@[j]).mint != mint@,
            decreases self.configs@.len() - i,
        {
            proof {
                assert(self@[i as int].mint == self.configs@[i as int].mint@);
            }
            if &self.configs[i].mint == mint {
                return Some(&self.configs[i]);
            }
            i += 1;
        }
        None
    }

    /// Create the configuration record for a mint. Fails with
    /// `ConfigAlreadyExists` when one is present, and with `Unauthorized`
    /// when the named authority did not co-sign; on success the new record
    /// has both flags off and the given gate binding.
    pub fn initialize(
        &mut self,
        mint: &Address,
        authority: &AccountView,
        gating_program: Option<Address>,
    ) -> (r: Result<(), GatewayError>)
        requires
            old(self).wf(),
        ensures
            final(self).wf(),
            r is Ok <==> !old(self).spec_has_config(mint@) && authority@.is_signer,
            r is Ok ==> {
                &&& final(self)@.len() == old(self)@.len() + 1
                &&& final(self)@.take(old(self)@.len() as int) == old(self)@
                &&& final(self)@.last() == (MintConfigV {
                    mint: mint@,
                    authority: authority@.address,
                    gating_program: match gating_program {
                        Some(g) => g@,
                        None => Address::spec_unset(),
                    },
                    enable_permissionless_thaw: false,
                    enable_permissionless_freeze: false,
                })
            },
            r is Err ==> final(self)@ == old(self)@ && (r == Err::<(), GatewayError>(
                GatewayError::ConfigAlreadyExists,
            ) <==> old(self).spec_has_config(mint@)),
            r is Err && !old(self).spec_has_config(mint@) ==> r == Err::<(), GatewayError>(
                GatewayError::Unauthorized,
            ),
    {
        if self.lookup(mint).is_some() {
            return Err(GatewayError::ConfigAlreadyExists);
        }
        if !authority.is_signer {
            return Err(GatewayError::Unauthorized);
        }
        let config = MintConfig::new(*mint, authority.address, gating_program);
        let ghost old_view = self@;
        let ghost old_configs = self.configs@;
        self.configs.push(config);
        proof {
            assert forall|k: int| 0 <= k < old_view.len() implies self@[k] == old_view[k] by {
                assert(self.configs@[k] == old_configs[k]);
            }
            assert(self@[old_view.len() as int] == config@);
            assert(self@.take(old_view.len() as int) =~= old_view);
            assert forall|i: int, j: int| 0 <= i < j < self@.len() implies (#[trigger] self@[i]).mint
                != (#[trigger] self@[j]).mint by {
                if j == self@.len() - 1 {
                    assert(self@[i] == old_view[i]);
                    assert(old_view[i].mint != mint@);
                    assert(self@[j].mint == mint@);
                } else {
                    assert(self@[i] == old_view[i]);
                    assert(self@[j] == old_view[j]);
                }
            }
        }
        Ok(())
    }
}

/// Re-point the gating program binding. Only the configured authority, signing, may do
/// so; the all-zero address disables permissionless operations entirely.
pub fn set_gate(config: &mut MintConfig, caller: &AccountView, new_gate: &Address) -> (r: Result<
    (),
    GatewayError,
>)
    requires
        old(config).wf(),
    ensures
        final(config).wf(),
        r is Ok <==> caller@.address == old(config)@.authority && caller@.is_signer,
        r is Ok ==> final(config)@ == (MintConfigV { gating_program: new_gate@, ..old(config)@ }),
        r is Err ==> *final(config) == *old(config) && r == Err::<(), GatewayError>(
            GatewayError::Unauthorized,
        ),
{
    if !caller.is_signer || !(&caller.address == &config.authority) {
        return Err(GatewayError::Unauthorized);
    }
    config.gating_program = *new_gate;
    Ok(())
}

/// Set the permissionless enable-flags. Only the configured authority,
/// signing; enabling either flag while no gate is bound fails with
/// `GateNotConfigured` and changes nothing.
pub fn set_flags(
    config: &mut MintConfig,
    caller: &AccountView,
    enable_thaw: bool,
    enable_freeze: bool,
) -> (r: Result<(), GatewayError>)
    requires
        old(config).wf(),
    ensures
        final(config).wf(),
        r is Ok <==> caller@.address == old(config)@.authority && caller@.is_signer && ((
        !enable_thaw && !enable_freeze) || old(config)@.gating_program != Address::spec_unset()),
        r is Ok ==> final(config)@ == (MintConfigV {
            enable_permissionless_thaw: enable_thaw,
            enable_permissionless_freeze: enable_freeze,
            ..old(config)@
        }),
        r is Err ==> *final(config) == *old(config),
        r is Err ==> r == Err::<(), GatewayError>(
            if caller@.address == old(config)@.authority && caller@.is_signer {
                GatewayError::GateNotConfigured
            } else {
                GatewayError::Unauthorized
            },
        ),
{
    if !caller.is_signer || !(&caller.address == &config.authority) {
        return Err(GatewayError::Unauthorized);
    }
    if (enable_thaw || enable_freeze) && config.gating_program.is_unset_exec() {
        return Err(GatewayError::GateNotConfigured);
    }
    config.enable_permissionless_thaw = enable_thaw;
    config.enable_permissionless_freeze = enable_freeze;
    Ok(())
}

/// Hand privileged control to a new principal. Only the current authority,
/// signing, may do so.
pub fn transfer_authority(config: &mut MintConfig, caller: &AccountView, new_authority: &Address) -> (r:
    Result<(), GatewayError>)
    requires
        old(config).wf(),
    ensures
        final(config).wf(),
        r is Ok <==> caller@.address == old(config)@.authority && caller@.is_signer,
        r is Ok ==> final(config)@ == (MintConfigV { authority: new_authority@, ..old(config)@ }),
        r is Err ==> *final(config) == *old(config) && r == Err::<(), GatewayError>(
            GatewayError::Unauthorized,
        ),
{
    if !caller.is_signer || !(&caller.address == &config.authority) {
        return Err(GatewayError::Unauthorized);
    }
    config.authority = *new_authority;
    Ok(())
}

} // verus!
