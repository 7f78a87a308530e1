//! Contract versions: strict `MAJOR.MINOR.PATCH` parsing and numeric
//! ordering, and the upgrade / rollback bookkeeping that keeps a version
//! moving forward and a previous executable at hand.

use vstd::prelude::*;
use crate::types::{err, ContractError, Failure, Hash32};

verus! {

/// Numeric components of a strict `MAJOR.MINOR.PATCH` version.
#[derive(Clone, Copy, Debug, PartialEq, Eq, Structural)]
pub struct SemanticVersion {
    pub major: u32,
    pub minor: u32,
    pub patch: u32,
}

/// `a` orders strictly before `b`: by major, then minor, then patch, each
/// compared as a number.
pub open spec fn version_lt(a: SemanticVersion, b: SemanticVersion) -> bool {
    a.major < b.major || (a.major == b.major && (a.minor < b.minor || (a.minor == b.minor && a.patch < b.patch)))
}

impl SemanticVersion {
    /// Whether `self` orders strictly before `other`.
    pub fn precedes(&self, other: &SemanticVersion) -> (b: bool)
        ensures
            b == version_lt(*self, *other),
    {
        self.major < other.major || (self.major == other.major && (self.minor < other.minor || (self.minor == other.minor
            && self.patch < other.patch)))
    }
}

pub open spec fn is_digit(b: u8) -> bool {
    48 <= b <= 57
}

/// The number written by the decimal digits `c`.
pub open spec fn digits_value(c: Seq<u8>) -> int
    decreases c.len(),
{
    if c.len() == 0 {
        0
    } else {
        digits_value(c.drop_last()) * 10 + (c.last() - 48)
    }
}

/// One component: at least one digit, no leading zero, at most `u32::MAX`.
pub open spec fn valid_component(c: Seq<u8>) -> bool {
    &&& c.len() >= 1
    &&& forall|i: int| 0 <= i < c.len() ==> is_digit(#[trigger] c[i])
    &&& (c.len() == 1 || c[0] != 48)
    &&& digits_value(c) <= u32::MAX
}

/// Index of the first `.` at or after `i`; `s.len()` if there is none.
pub open spec fn next_dot(s: Seq<u8>, i: int) -> int
    decreases s.len() - i,
{
    if i < 0 || i >= s.len() {
        s.len() as int
    } else if s[i] == 46 {
        i
    } else {
        next_dot(s, i + 1)
    }
}

/// The version `s` spells, if it is between 5 and 32 bytes of exactly
/// three valid components separated by dots.
pub open spec fn version_of(s: Seq<u8>) -> Option<SemanticVersion> {
    let d1 = next_dot(s, 0);
    let d2 = next_dot(s, d1 + 1);
    let a = s.subrange(0, d1);
    let b = s.subrange(d1 + 1, d2);
    let c = s.subrange(d2 + 1, s.len() as int);
    if 5 <= s.len() <= 32 && d1 < s.len() && d2 < s.len() && valid_component(a) && valid_component(b) && valid_component(c) {
        Some(SemanticVersion { major: digits_value(a) as u32, minor: digits_value(b) as u32, patch: digits_value(c) as u32 })
    } else {
        None
    }
}

proof fn lemma_digits_value_nonneg(c: Seq<u8>)
    requires
        forall|i: int| 0 <= i < c.len() ==> is_digit(#[trigger] c[i]),
    ensures
        digits_value(c) >= 0,
    decreases c.len(),
{
    if c.len() > 0 {
        lemma_digits_value_nonneg(c.drop_last());
    }
}

/// Parse the component `s[start..end]`.
fn parse_component(s: &Vec<u8>, start: usize, end: usize) -> (r: Option<u32>)
    requires
        start <= end <= s@.len(),
    ensures
        match r {
            Some(v) => valid_component(s@.subrange(start as int, end as int)) && v == digits_value(s@.subrange(start as int, end as int)),
            None => !valid_component(s@.subrange(start as int, end as int)),
        },
{
    let ghost c = s@.subrange(start as int, end as int);
    if start == end {
        return None;
    }
    if end - start > 1 && s[start] == 48 {
        proof {
            assert(c[0] == s@[start as int]);
        }
        return None;
    }
    let mut value: u32 = 0;
    let mut i: usize = start;
    while i < end
        invariant
            start <= i <= end <= s@.len(),
            c == s@.subrange(start as int, end as int),
            forall|j: int| 0 <= j < i - start ==> is_digit(#[trigger] c[j]),
            value == digits_value(c.subrange(0, i - start)),
        decreases end - i,
    {
        let b = s[i];
        proof {
            assert(c[i - start] == b);
            assert(c.subrange(0, i - start + 1).drop_last() =~= c.subrange(0, i - start));
        }
        if b < 48 || b > 57 {
            return None;
        }
        let next = match value.checked_mul(10) {
            Some(v) => v.checked_add((b - 48) as u32),
            None => None,
        };
        match next {
            Some(v) => {
                value = v;
            },
            None => {
                proof {
                    let n = i - start + 1;
                    assert(digits_value(c.subrange(0, n)) == value * 10 + (b - 48));
                    if forall|j: int| 0 <= j < c.len() ==> is_digit(#[trigger] c[j]) {
                        lemma_prefix_value_bound(c, n);
                    }
                }
                return None;
            },
        }
        i = i + 1;
    }
    proof {
        assert(c.subrange(0, end - start) =~= c);
        lemma_digits_value_nonneg(c);
    }
    Some(value)
}

/// A longer run of digits is worth at least as much as its prefix.
proof fn lemma_prefix_value_bound(c: Seq<u8>, n: int)
    requires
        0 <= n <= c.len(),
        forall|j: int| 0 <= j < c.len() ==> is_digit(#[trigger] c[j]),
    ensures
        digits_value(c.subrange(0, n)) <= digits_value(c),
    decreases c.len() - n,
{
    if n < c.len() {
        lemma_prefix_value_bound(c, n + 1);
        assert(c.subrange(0, n + 1).drop_last() =~= c.subrange(0, n));
        assert(forall|j: int| 0 <= j < n ==> is_digit(#[trigger] c.subrange(0, n)[j]));
        lemma_digits_value_nonneg(c.subrange(0, n));
    } else {
        assert(c.subrange(0, n) =~= c);
    }
}

proof fn lemma_next_dot_bounds(s: Seq<u8>, i: int)
    requires
        0 <= i <= s.len(),
    ensures
        i <= next_dot(s, i) <= s.len(),
    decreases s.len() - i,
{
    if i < s.len() {
        lemma_next_dot_bounds(s, i + 1);
    }
}

/// Index of the first `.` at or after `from`.
fn find_dot(s: &Vec<u8>, from: usize) -> (d: usize)
    requires
        from <= s@.len(),
    ensures
        d == next_dot(s@, from as int),
{
    let mut i = from;
    while i < s.len()
        invariant
            from <= i <= s@.len(),
            next_dot(s@, from as int) == next_dot(s@, i as int),
        decreases s@.len() - i,
    {
        if s[i] == 46 {
            return i;
        }
        i = i + 1;
    }
    i
}

/// Parse a version in exactly `MAJOR.MINOR.PATCH` form: 5 to 32 bytes,
/// three components of digits, no leading zeros, each at most `u32::MAX`.
pub fn parse_semantic_version(s: &Vec<u8>) -> (r: Result<SemanticVersion, Failure>)
    ensures
        match version_of(s@) {
            Some(v) => r == Ok::<SemanticVersion, Failure>(v),
            None => r == Err::<SemanticVersion, Failure>(err(ContractError::InvalidVersion)),
        },
{
    let len = s.len();
    if len < 5 || len > 32 {
        return Err(Failure::Contract(ContractError::InvalidVersion));
    }
    let d1 = find_dot(s, 0);
    if d1 >= len {
        return Err(Failure::Contract(ContractError::InvalidVersion));
    }
    let d2 = find_dot(s, d1 + 1);
    proof {
        lemma_next_dot_bounds(s@, d1 as int + 1);
    }
    if d2 >= len {
        return Err(Failure::Contract(ContractError::InvalidVersion));
    }
    let major = parse_component(s, 0, d1);
    let minor = parse_component(s, d1 + 1, d2);
    let patch = parse_component(s, d2 + 1, len);
    match (major, minor, patch) {
        (Some(a), Some(b), Some(c)) => Ok(SemanticVersion { major: a, minor: b, patch: c }),
        _ => Err(Failure::Contract(ContractError::InvalidVersion)),
    }
}

/// An executable update awaiting its post-upgrade hook.
pub struct PendingUpgrade {
    pub version: Vec<u8>,
    pub wasm_hash: Hash32,
}

/// A contract's version record: the committed version, the executable and
/// version that came before it, and an upgrade in flight.
pub struct VersionState {
    pub version: Vec<u8>,
    pub previous_version: Option<Vec<u8>>,
    pub previous_wasm: Option<Hash32>,
    pub pending: Option<PendingUpgrade>,
}

fn copy_bytes(s: &Vec<u8>) -> (c: Vec<u8>)
    ensures
        c@ == s@,
{
    let mut out: Vec<u8> = Vec::new();
    let mut i: usize = 0;
    while i < s.len()
        invariant
            i <= s@.len(),
            out@ == s@.take(i as int),
        decreases s@.len() - i,
    {
        out.push(s[i]);
        proof {
            assert(out@ =~= s@.take(i as int + 1));
        }
        i = i + 1;
    }
    proof {
        assert(out@ =~= s@);
    }
    out
}

impl VersionState {
    /// `post` is `pre` with an upgrade to `new_wasm` at `new_version`
    /// recorded: the committed version unchanged, it and the running
    /// executable `current_wasm` kept to roll back to.
    pub open spec fn upgrade_recorded(pre: VersionState, post: VersionState, current_wasm: Hash32, new_wasm: Hash32, new_version: Seq<u8>) -> bool {
        &&& post.version@ == pre.version@
        &&& post.previous_version matches Some(p) && p@ == pre.version@
        &&& post.previous_wasm == Some(current_wasm)
        &&& post.pending matches Some(p) && p.version@ == new_version && p.wasm_hash == new_wasm
    }

    /// `post` is `pre` with the upgrade in flight committed.
    pub open spec fn upgrade_committed(pre: VersionState, post: VersionState) -> bool {
        &&& pre.pending matches Some(p) && post.version@ == p.version@
        &&& post.pending is None
        &&& post.previous_version == pre.previous_version
        &&& post.previous_wasm == pre.previous_wasm
    }

    /// `post` is `pre` rolled back to its previous executable `wasm` and
    /// version, which are then used up.
    pub open spec fn rolled_back(pre: VersionState, post: VersionState, wasm: Hash32) -> bool {
        &&& pre.previous_wasm == Some(wasm)
        &&& pre.previous_version matches Some(p) && post.version@ == p@
        &&& post.previous_version is None
        &&& post.previous_wasm is None
        &&& post.pending is None
    }
}

impl VersionState {
    /// The committed version is a valid one, and an upgrade in flight is
    /// to a strictly newer valid version.
    pub open spec fn wf(&self) -> bool {
        &&& version_of(self.version@) is Some
        &&& self.pending matches Some(p) ==> version_of(p.version@) matches Some(nv)
            && version_lt(version_of(self.version@).unwrap(), nv)
        &&& self.previous_version matches Some(p) ==> version_of(p@) is Some
    }

    /// Record the initial version; it must parse.
    pub fn initialize_contract_version(version: &Vec<u8>) -> (r: Result<VersionState, Failure>)
        ensures
            match r {
                Ok(st) => version_of(version@) is Some && st.wf() && st.version@ == version@ && st.previous_version is None
                    && st.previous_wasm is None && st.pending is None,
                Err(f) => version_of(version@) is None && f == err(ContractError::InvalidVersion),
            },
    {
        parse_semantic_version(version)?;
        Ok(VersionState { version: copy_bytes(version), previous_version: None, previous_wasm: None, pending: None })
    }

    /// The committed version.
    pub fn contract_version(&self) -> (v: Vec<u8>)
        ensures
            v@ == self.version@,
    {
        copy_bytes(&self.version)
    }

    /// Validate and record an upgrade before the executable is replaced:
    /// none may be in flight, and the new version must be strictly newer.
    /// The running executable `current_wasm` becomes the rollback target.
    pub fn begin_upgrade(&mut self, current_wasm: Hash32, new_wasm: Hash32, new_version: &Vec<u8>) -> (r: Result<(), Failure>)
        requires
            old(self).wf(),
        ensures
            final(self).wf(),
            if old(self).pending is Some {
                r == Err::<(), Failure>(err(ContractError::UpgradePending)) && *final(self) == *old(self)
            } else if !(version_of(new_version@) matches Some(nv) && version_lt(version_of(old(self).version@).unwrap(), nv)) {
                r == Err::<(), Failure>(err(ContractError::InvalidVersion)) && *final(self) == *old(self)
            } else {
                r is Ok && Self::upgrade_recorded(*old(self), *final(self), current_wasm, new_wasm, new_version@)
            },
    {
        if self.pending.is_some() {
            return Err(Failure::Contract(ContractError::UpgradePending));
        }
        let nv = parse_semantic_version(new_version)?;
        let cv = parse_semantic_version(&self.version)?;
        if !cv.precedes(&nv) {
            return Err(Failure::Contract(ContractError::InvalidVersion));
        }
        self.previous_version = Some(copy_bytes(&self.version));
        self.previous_wasm = Some(current_wasm);
        self.pending = Some(PendingUpgrade { version: copy_bytes(new_version), wasm_hash: new_wasm });
        Ok(())
    }

    /// Commit the upgrade in flight once the new executable's hook ran;
    /// returns the version now committed.
    pub fn complete_upgrade(&mut self) -> (r: Result<Vec<u8>, Failure>)
        requires
            old(self).wf(),
        ensures
            final(self).wf(),
            match old(self).pending {
                None => r == Err::<Vec<u8>, Failure>(err(ContractError::UpgradeNotPending)) && *final(self) == *old(self),
                Some(p) => r matches Ok(v) && v@ == p.version@ && Self::upgrade_committed(*old(self), *final(self))
                    && version_lt(version_of(old(self).version@).unwrap(), version_of(final(self).version@).unwrap()),
            },
    {
        let pending = match self.pending.take() {
            Some(p) => p,
            None => {
                return Err(Failure::Contract(ContractError::UpgradeNotPending));
            },
        };
        let committed = copy_bytes(&pending.version);
        self.version = pending.version;
        Ok(committed)
    }

    /// The previous executable and its version, to roll back to; none while
    /// an upgrade is in flight or once the previous one was used.
    pub fn rollback_target(&self) -> (r: Result<(Hash32, Vec<u8>), Failure>)
        ensures
            if self.pending is Some {
                r == Err::<(Hash32, Vec<u8>), Failure>(err(ContractError::UpgradePending))
            } else if self.previous_wasm is None || self.previous_version is None {
                r == Err::<(Hash32, Vec<u8>), Failure>(err(ContractError::RollbackUnavailable))
            } else {
                r matches Ok(t) && t.0 == self.previous_wasm.unwrap() && t.1@ == self.previous_version.unwrap()@
            },
    {
        if self.pending.is_some() {
            return Err(Failure::Contract(ContractError::UpgradePending));
        }
        let wasm = match self.previous_wasm {
            Some(h) => h,
            None => {
                return Err(Failure::Contract(ContractError::RollbackUnavailable));
            },
        };
        let version = match &self.previous_version {
            Some(v) => copy_bytes(v),
            None => {
                return Err(Failure::Contract(ContractError::RollbackUnavailable));
            },
        };
        Ok((wasm, version))
    }

    /// Commit a rollback to `version`: the previous executable is used up.
    pub fn commit_rollback(&mut self, version: &Vec<u8>)
        requires
            old(self).wf(),
            old(self).pending is None,
            version_of(version@) is Some,
        ensures
            final(self).wf(),
            final(self).version@ == version@,
            final(self).previous_version is None,
            final(self).previous_wasm is None,
            final(self).pending == old(self).pending,
    {
        self.version = copy_bytes(version);
        self.previous_version = None;
        self.previous_wasm = None;
    }
}

/// Version order is a strict order: irreflexive and transitive.
pub proof fn law_order_is_strict(a: SemanticVersion, b: SemanticVersion, c: SemanticVersion)
    ensures
        !version_lt(a, a),
        version_lt(a, b) && version_lt(b, c) ==> version_lt(a, c),
        version_lt(a, b) ==> !version_lt(b, a),
{
}


/// An upgrade carried through and then rolled back restores the release
/// that ran before it: after an upgrade is recorded, committed and rolled
/// back, the committed version is the one it started from and the executable
/// handed back is the one the upgrade replaced.
pub proof fn law_rollback_restores_previous_release(
    v0: VersionState,
    v1: VersionState,
    v2: VersionState,
    v3: VersionState,
    current_wasm: Hash32,
    new_wasm: Hash32,
    new_version: Seq<u8>,
    rolled_back_to: Hash32,
)
    requires
        VersionState::upgrade_recorded(v0, v1, current_wasm, new_wasm, new_version),
        VersionState::upgrade_committed(v1, v2),
        VersionState::rolled_back(v2, v3, rolled_back_to),
    ensures
        v3.version@ == v0.version@,
        rolled_back_to == current_wasm,
        v3.pending is None,
{
}

} // verus!
