//! The insurance contract's governance and release entry points: the
//! M-of-N signer configuration, and upgrades and rollbacks of its
//! executable.

use vstd::prelude::*;
use crate::governance::{distinct, meets_threshold, valid_signer_set, validate_signers, AdminConfig};
use crate::address_list::copy_addresses;
use crate::insurance::InsuranceContract;
use crate::types::{abort, err, Abort, Address, ContractError, Failure, Hash32};
use crate::version::{version_lt, version_of, VersionState};

verus! {

impl InsuranceContract {
    /// Why an admin-gated call that honours the pause fails.
    pub open spec fn gated_failure(&self, signers: Seq<Address>) -> Option<Failure> {
        if self.paused {
            Some(err(ContractError::Paused))
        } else if !meets_threshold(self.admin.signers@, self.admin.threshold, signers) {
            Some(err(ContractError::Unauthorized))
        } else {
            None
        }
    }

    /// The primary admin: the first configured signer.
    pub fn get_admin(&self) -> (r: Result<Address, Failure>)
        ensures
            if self.admin.signers@.len() > 0 {
                r == Ok::<Address, Failure>(self.admin.signers@[0])
            } else {
                r == Err::<Address, Failure>(abort(Abort::NotInitialized))
            },
    {
        if self.admin.signers.len() == 0 {
            return Err(Failure::Abort(Abort::NotInitialized));
        }
        Ok(self.admin.signers[0])
    }

    /// The whole M-of-N configuration.
    pub fn get_admin_config(&self) -> (c: AdminConfig)
        ensures
            c.signers@ == self.admin.signers@,
            c.threshold == self.admin.threshold,
    {
        AdminConfig { signers: copy_addresses(&self.admin.signers), threshold: self.admin.threshold }
    }

    pub fn get_signers(&self) -> (v: Vec<Address>)
        ensures
            v@ == self.admin.signers@,
    {
        copy_addresses(&self.admin.signers)
    }

    pub fn get_threshold(&self) -> (t: u32)
        ensures
            t == self.admin.threshold,
    {
        self.admin.threshold
    }

    /// Replace the signer set and threshold; the new pair must be a valid
    /// one. Threshold-gated.
    pub fn set_signers(&mut self, signers: &Vec<Address>, new_signers: &Vec<Address>, new_threshold: u32) -> (r: Result<(), Failure>)
        requires
            old(self).wf(),
        ensures
            final(self).wf(),
            match old(self).gated_failure(signers@) {
                Some(f) => r == Err::<(), Failure>(f) && *final(self) == *old(self),
                None => if valid_signer_set(new_signers@, new_threshold) {
                    &&& r is Ok
                    &&& final(self).admin.signers@ == new_signers@
                    &&& final(self).admin.threshold == new_threshold
                    &&& *final(self) == (InsuranceContract { admin: final(self).admin, ..*old(self) })
                } else {
                    r == Err::<(), Failure>(err(ContractError::InvalidInput)) && *final(self) == *old(self)
                },
            },
    {
        if self.paused {
            return Err(Failure::Contract(ContractError::Paused));
        }
        self.assert_admin(signers)?;
        validate_signers(new_signers, new_threshold)?;
        self.admin = AdminConfig { signers: copy_addresses(new_signers), threshold: new_threshold };
        Ok(())
    }

    /// Collapse the configuration to a single new admin. Threshold-gated.
    pub fn transfer_admin(&mut self, signers: &Vec<Address>, new_admin: Address) -> (r: Result<(), Failure>)
        requires
            old(self).wf(),
        ensures
            final(self).wf(),
            match old(self).gated_failure(signers@) {
                Some(f) => r == Err::<(), Failure>(f) && *final(self) == *old(self),
                None => {
                    &&& r is Ok
                    &&& final(self).admin.signers@ == seq![new_admin]
                    &&& final(self).admin.threshold == 1
                    &&& *final(self) == (InsuranceContract { admin: final(self).admin, ..*old(self) })
                },
            },
    {
        if self.paused {
            return Err(Failure::Contract(ContractError::Paused));
        }
        self.assert_admin(signers)?;
        self.admin = AdminConfig::bootstrap(new_admin);
        Ok(())
    }

    /// The committed version.
    pub fn version(&self) -> (v: Vec<u8>)
        ensures
            v@ == self.versions.version@,
    {
        self.versions.contract_version()
    }

    /// Schedule an upgrade to `new_wasm` at `new_version`, which must be
    /// strictly newer; the running executable `current_wasm` is kept as the
    /// rollback target. Returns the executable for the host to install.
    /// Threshold-gated (and allowed while paused).
    pub fn upgrade(&mut self, signers: &Vec<Address>, current_wasm: Hash32, new_wasm: Hash32, new_version: &Vec<u8>) -> (r: Result<Hash32, Failure>)
        requires
            old(self).wf(),
        ensures
            final(self).wf(),
            if !meets_threshold(old(self).admin.signers@, old(self).admin.threshold, signers@) {
                r == Err::<Hash32, Failure>(err(ContractError::Unauthorized)) && *final(self) == *old(self)
            } else if old(self).versions.pending is Some {
                r == Err::<Hash32, Failure>(err(ContractError::UpgradePending)) && *final(self) == *old(self)
            } else if !(version_of(new_version@) matches Some(nv) && version_lt(version_of(old(self).versions.version@).unwrap(), nv)) {
                r == Err::<Hash32, Failure>(err(ContractError::InvalidVersion)) && *final(self) == *old(self)
            } else {
                &&& r == Ok::<Hash32, Failure>(new_wasm)
                &&& VersionState::upgrade_recorded(old(self).versions, final(self).versions, current_wasm, new_wasm, new_version@)
                &&& *final(self) == (InsuranceContract { versions: final(self).versions, ..*old(self) })
            },
    {
        self.assert_admin(signers)?;
        self.versions.begin_upgrade(current_wasm, new_wasm, new_version)?;
        Ok(new_wasm)
    }

    /// Commit the upgrade in flight once the new executable runs.
    /// Threshold-gated. Returns the version committed.
    pub fn post_upgrade(&mut self, signers: &Vec<Address>) -> (r: Result<Vec<u8>, Failure>)
        requires
            old(self).wf(),
        ensures
            final(self).wf(),
            if !meets_threshold(old(self).admin.signers@, old(self).admin.threshold, signers@) {
                r == Err::<Vec<u8>, Failure>(err(ContractError::Unauthorized)) && *final(self) == *old(self)
            } else {
                match old(self).versions.pending {
                    None => r == Err::<Vec<u8>, Failure>(err(ContractError::UpgradeNotPending)) && *final(self) == *old(self),
                    Some(p) => {
                        &&& r matches Ok(v) && v@ == p.version@
                        &&& VersionState::upgrade_committed(old(self).versions, final(self).versions)
                        &&& version_lt(version_of(old(self).versions.version@).unwrap(), version_of(final(self).versions.version@).unwrap())
                        &&& *final(self) == (InsuranceContract { versions: final(self).versions, ..*old(self) })
                    },
                }
            },
    {
        self.assert_admin(signers)?;
        self.versions.complete_upgrade()
    }

    /// Roll back to the previous executable and version, which is then used
    /// up. Threshold-gated. Returns the executable for the host to install.
    pub fn rollback(&mut self, signers: &Vec<Address>) -> (r: Result<Hash32, Failure>)
        requires
            old(self).wf(),
        ensures
            final(self).wf(),
            if !meets_threshold(old(self).admin.signers@, old(self).admin.threshold, signers@) {
                r == Err::<Hash32, Failure>(err(ContractError::Unauthorized)) && *final(self) == *old(self)
            } else if old(self).versions.pending is Some {
                r == Err::<Hash32, Failure>(err(ContractError::UpgradePending)) && *final(self) == *old(self)
            } else if old(self).versions.previous_wasm is None || old(self).versions.previous_version is None {
                r == Err::<Hash32, Failure>(err(ContractError::RollbackUnavailable)) && *final(self) == *old(self)
            } else {
                &&& r == Ok::<Hash32, Failure>(old(self).versions.previous_wasm.unwrap())
                &&& VersionState::rolled_back(old(self).versions, final(self).versions, old(self).versions.previous_wasm.unwrap())
                &&& *final(self) == (InsuranceContract { versions: final(self).versions, ..*old(self) })
            },
    {
        self.assert_admin(signers)?;
        let (wasm, version) = self.versions.rollback_target()?;
        self.versions.commit_rollback(&version);
        Ok(wasm)
    }
}

} // verus!
