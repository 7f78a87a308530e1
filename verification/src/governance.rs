//! M-of-N admin governance: a set of signer addresses and the number of
//! distinct signers that must co-authorize an admin-gated call.

use vstd::prelude::*;
use crate::types::{abort, err, Abort, Address, ContractError, Failure, MAX_ADMIN_SIGNERS};

verus! {

/// `threshold` distinct, authorized addresses out of `signers` are required
/// to authorize any admin-gated call.
#[derive(Clone, Debug, PartialEq, Eq)]
pub struct AdminConfig {
    pub signers: Vec<Address>,
    pub threshold: u32,
}

/// No address occurs twice.
pub open spec fn distinct(s: Seq<Address>) -> bool {
    forall|i: int, j: int| 0 <= i < s.len() && 0 <= j < s.len() && i != j ==> s[i] != s[j]
}

/// A candidate `(signers, threshold)` pair that `set_signers` may write.
pub open spec fn valid_signer_set(signers: Seq<Address>, threshold: u32) -> bool {
    &&& 0 < signers.len() <= MAX_ADMIN_SIGNERS
    &&& 1 <= threshold <= signers.len()
    &&& distinct(signers)
}

/// The calls that `provided` may authorize under `cfg`: every address is a
/// signer, none is named twice, and there are at least `threshold` of them.
pub open spec fn meets_threshold(signers: Seq<Address>, threshold: u32, provided: Seq<Address>) -> bool {
    &&& forall|i: int| 0 <= i < provided.len() ==> signers.contains(#[trigger] provided[i])
    &&& distinct(provided)
    &&& provided.len() >= threshold
}

impl AdminConfig {
    /// Single-admin bootstrap mode: one signer, threshold one.
    pub fn bootstrap(admin: Address) -> (cfg: AdminConfig)
        ensures
            cfg.signers@ == seq![admin],
            cfg.threshold == 1,
            valid_signer_set(cfg.signers@, cfg.threshold),
    {
        let mut signers: Vec<Address> = Vec::new();
        signers.push(admin);
        AdminConfig { signers, threshold: 1 }
    }
}

/// One-time setup of the admin configuration: fails when one exists already.
pub fn init_admin_config(current: &Option<AdminConfig>, admin: Address) -> (r: Result<
    AdminConfig,
    Failure,
>)
    ensures
        match r {
            Ok(cfg) => current is None && cfg.signers@ == seq![admin] && cfg.threshold == 1,
            Err(f) => current is Some && f == abort(Abort::AlreadyInitialized),
        },
{
    if current.is_some() {
        return Err(Failure::Abort(Abort::AlreadyInitialized));
    }
    Ok(AdminConfig::bootstrap(admin))
}

/// True if `who` is a member of `cfg.signers`.
pub fn is_signer(cfg: &AdminConfig, who: Address) -> (b: bool)
    ensures
        b == cfg.signers@.contains(who),
{
    let mut i: usize = 0;
    while i < cfg.signers.len()
        invariant
            i <= cfg.signers@.len(),
            forall|j: int| 0 <= j < i ==> cfg.signers@[j] != who,
        decreases cfg.signers@.len() - i,
    {
        if cfg.signers[i] == who {
            assert(cfg.signers@[i as int] == who);
            return true;
        }
        i = i + 1;
    }
    false
}

fn contains_address(list: &Vec<Address>, who: Address) -> (b: bool)
    ensures
        b == list@.contains(who),
{
    let mut i: usize = 0;
    while i < list.len()
        invariant
            i <= list@.len(),
            forall|j: int| 0 <= j < i ==> list@[j] != who,
        decreases list@.len() - i,
    {
        if list[i] == who {
            assert(list@[i as int] == who);
            return true;
        }
        i = i + 1;
    }
    false
}

/// Validates a candidate `(signers, threshold)` pair: non-empty, at most
/// `MAX_ADMIN_SIGNERS`, threshold in `[1, signers.len()]`, no duplicate.
pub fn validate_signers(signers: &Vec<Address>, threshold: u32) -> (r: Result<(), Failure>)
    ensures
        r is Ok <==> valid_signer_set(signers@, threshold),
        r is Err ==> r == Err::<(), Failure>(err(ContractError::InvalidInput)),
{
    if signers.len() == 0 || signers.len() > 20 {
        return Err(Failure::Contract(ContractError::InvalidInput));
    }
    if threshold == 0 || threshold as usize > signers.len() {
        return Err(Failure::Contract(ContractError::InvalidInput));
    }
    let n = signers.len();
    let mut i: usize = 0;
    while i < n
        invariant
            n == signers@.len(),
            i <= n,
            forall|a: int, b: int| 0 <= a < i && 0 <= b < n && a != b ==> signers@[a] != signers@[b],
        decreases n - i,
    {
        let mut j: usize = 0;
        while j < n
            invariant
                n == signers@.len(),
                i < n,
                j <= n,
                forall|a: int, b: int| 0 <= a < i && 0 <= b < n && a != b ==> signers@[a] != signers@[b],
                forall|b: int| 0 <= b < j && i != b ==> signers@[i as int] != signers@[b],
            decreases n - j,
        {
            if i != j && signers[i] == signers[j] {
                return Err(Failure::Contract(ContractError::InvalidInput));
            }
            j = j + 1;
        }
        i = i + 1;
    }
    Ok(())
}

/// The core threshold check: every address in `provided` must be a distinct
/// member of `cfg.signers`, and there must be at least `cfg.threshold` of
/// them. The host additionally requires each of them to authorize the call.
pub fn assert_threshold(cfg: &AdminConfig, provided: &Vec<Address>) -> (r: Result<(), Failure>)
    ensures
        r is Ok <==> meets_threshold(cfg.signers@, cfg.threshold, provided@),
        r is Err ==> r == Err::<(), Failure>(err(ContractError::Unauthorized)),
{
    let mut counted: Vec<Address> = Vec::new();
    let n = provided.len();
    let mut i: usize = 0;
    while i < n
        invariant
            n == provided@.len(),
            i <= n,
            counted@ == provided@.take(i as int),
            forall|a: int| 0 <= a < i ==> cfg.signers@.contains(#[trigger] provided@[a]),
            distinct(counted@),
        decreases n - i,
    {
        let who = provided[i];
        if !is_signer(cfg, who) {
            return Err(Failure::Contract(ContractError::Unauthorized));
        }
        if contains_address(&counted, who) {
            proof {
                let k = choose|k: int| 0 <= k < counted@.len() && counted@[k] == who;
                assert(provided@[k] == provided@[i as int]);
                assert(!distinct(provided@));
            }
            return Err(Failure::Contract(ContractError::Unauthorized));
        }
        counted.push(who);
        proof {
            assert(counted@ == provided@.take(i as int + 1));
        }
        i = i + 1;
    }
    proof {
        assert(provided@.take(n as int) == provided@);
    }
    if (counted.len() as u64) < (cfg.threshold as u64) {
        return Err(Failure::Contract(ContractError::Unauthorized));
    }
    Ok(())
}


/// Governance can never lock itself out: every signer set that may be
/// configured (and the financing and insurance contracts hold one as part
/// of their invariant) authorizes an admin-gated call when all of its
/// signers sign.
pub proof fn law_full_signer_set_authorizes(signers: Seq<Address>, threshold: u32)
    requires
        valid_signer_set(signers, threshold),
    ensures
        meets_threshold(signers, threshold, signers),
{
    assert forall|i: int| 0 <= i < signers.len() implies signers.contains(#[trigger] signers[i]) by {}
}

} // verus!
