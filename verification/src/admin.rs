use vstd::prelude::*;

use crate::arith::{div_pos, div_toward_zero, sat_mul};
use crate::contract::{require_auth, EventEntry, EventsContract};
use crate::idempotency::sat_add_u64;
use crate::effects::Effect;
use crate::errors::Error;
use crate::events::{
    AdminUpdated, FeeAccountUpdated, FeeBpsUpdated, Migrated, Notice, Paused, PendingAdminSet,
    PendingUpgradeCancelled, PendingUpgradeProposed, ProfileContractUpdated, UpgradeApplied,
    Unpaused, Upgraded,
};
use crate::grant::grant_share;
use crate::types::{copy_vec, lookup, Account, EventRecord, ReleaseKind, Winner, Hash32, Invocation, PendingAdmin, PendingUpgrade, PercentMap};

verus! {

/// Ledgers during which a proposed admin may accept.
pub const PENDING_ADMIN_TTL_LEDGERS: u32 = 120_960;

/// Highest fee rate, in basis points (10%).
pub const MAX_FEE_BPS: u32 = 1_000;

/// Ledgers between an upgrade proposal and the earliest ledger it may apply.
pub const UPGRADE_TIMELOCK_LEDGERS: u32 = 17_280;

/// Ledgers after which an upgrade proposal lapses.
pub const PENDING_UPGRADE_TTL_LEDGERS: u32 = 518_400;

/// The version string a fresh deployment reports: "1.7.0".
pub open spec fn initial_version() -> Seq<u8> {
    seq![0x31u8, 0x2eu8, 0x37u8, 0x2eu8, 0x30u8]
}

/// The version a migration starts from when none ran before: "0.0.0".
pub open spec fn zero_version() -> Seq<u8> {
    seq![0x30u8, 0x2eu8, 0x30u8, 0x2eu8, 0x30u8]
}

/// `a.saturating_add(b)` on `u32`, as a mathematical value.
pub open spec fn sat_add_u32(a: u32, b: u32) -> u32 {
    if a + b > u32::MAX { u32::MAX } else { (a + b) as u32 }
}

/// Whether two byte strings are equal.
pub fn bytes_eq(a: &Vec<u8>, b: &Vec<u8>) -> (r: bool)
    ensures
        r == (a@ == b@),
{
    if a.len() != b.len() {
        return false;
    }
    let mut i: usize = 0;
    while i < a.len()
        invariant
            a@.len() == b@.len(),
            i <= a@.len(),
            forall|j: int| 0 <= j < i ==> a@[j] == b@[j],
        decreases a@.len() - i,
    {
        if a[i] != b[i] {
            return false;
        }
        i += 1;
    }
    assert(a@ =~= b@);
    true
}

impl EventsContract {
    /// Why a call restricted to the admin is refused, if it is.
    pub open spec fn admin_error(&self, inv: &Invocation) -> Option<Error> {
        match self.admin {
            None => Some(Error::NotInitialized),
            Some(a) => if !inv.authorizes(a) { Some(Error::Unauthorized) } else { None },
        }
    }

    /// The state of a contract that has not been initialized yet.
    pub fn new() -> (c: EventsContract)
        ensures
            c.wf(),
            !c.is_initialized(),
            c.events@.len() == 0,
            c.seen_ops@.len() == 0,
            c.legacy_seen_ops@.len() == 0,
            c.supported_tokens@.len() == 0,
            !c.paused,
            c.admin is None,
            c.pending_admin is None,
            c.fee_account == 0,
            c.fee_bps == 0,
            c.profile_contract == 0,
            c.deployment_seq == 0,
            c.version is None,
            c.pending_upgrade is None,
            c.migrated_to_version is None,
            c.next_event_id is None,
    {
        EventsContract {
            admin: None,
            pending_admin: None,
            fee_account: 0,
            fee_bps: 0,
            profile_contract: 0,
            paused: false,
            deployment_seq: 0,
            version: None,
            pending_upgrade: None,
            migrated_to_version: None,
            supported_tokens: Vec::new(),
            next_event_id: None,
            events: Vec::new(),
            seen_ops: Vec::new(),
            legacy_seen_ops: Vec::new(),
        }
    }

    /// Sets up admin, fee account, fee rate and profile contract, records
    /// the deployment ledger (the base of event ids) and the initial version.
    pub fn initialize(
        &mut self,
        inv: &Invocation,
        admin: Account,
        fee_account: Account,
        fee_bps: u32,
        profile_contract: Account,
    ) -> (r: Result<Vec<Effect>, Error>)
        requires
            old(self).wf(),
        ensures
            final(self).wf(),
            r is Err ==> *final(self) == *old(self),
            r matches Err(e) ==> e == if old(self).is_initialized() {
                Error::AlreadyInitialized
            } else {
                Error::InvalidFeeBps
            },
            r is Ok <==> !old(self).is_initialized() && fee_bps <= MAX_FEE_BPS,
            r matches Ok(fx) ==> {
                &&& final(self).admin == Some(admin)
                &&& final(self).fee_account == fee_account
                &&& final(self).fee_bps == fee_bps
                &&& final(self).profile_contract == profile_contract
                &&& final(self).deployment_seq == inv.sequence
                &&& !final(self).paused
                &&& final(self).version matches Some(v) && v@ == initial_version()
                &&& final(self).pending_admin == old(self).pending_admin
                &&& final(self).pending_upgrade == old(self).pending_upgrade
                &&& final(self).migrated_to_version == old(self).migrated_to_version
                &&& final(self).supported_tokens == old(self).supported_tokens
                &&& final(self).next_event_id == old(self).next_event_id
                &&& final(self).events == old(self).events
                &&& final(self).seen_ops == old(self).seen_ops
                &&& final(self).legacy_seen_ops == old(self).legacy_seen_ops
                &&& fx@ == seq![
                    Effect::Publish(Notice::AdminUpdated(AdminUpdated { new_admin: admin })),
                    Effect::Publish(Notice::FeeAccountUpdated(FeeAccountUpdated { new_account: fee_account })),
                    Effect::Publish(Notice::FeeBpsUpdated(FeeBpsUpdated { new_bps: fee_bps })),
                    Effect::Publish(Notice::ProfileContractUpdated(ProfileContractUpdated { new_addr: profile_contract })),
                ]
            },
    {
        if self.admin.is_some() {
            return Err(Error::AlreadyInitialized);
        }
        if fee_bps > MAX_FEE_BPS {
            return Err(Error::InvalidFeeBps);
        }
        self.admin = Some(admin);
        self.fee_account = fee_account;
        self.fee_bps = fee_bps;
        self.profile_contract = profile_contract;
        self.deployment_seq = inv.sequence;
        self.paused = false;
        let v: Vec<u8> = vec![0x31u8, 0x2eu8, 0x37u8, 0x2eu8, 0x30u8];
        assert(v@ =~= initial_version());
        self.version = Some(v);
        let mut fx: Vec<Effect> = Vec::new();
        fx.push(Effect::Publish(Notice::AdminUpdated(AdminUpdated { new_admin: admin })));
        fx.push(Effect::Publish(Notice::FeeAccountUpdated(FeeAccountUpdated { new_account: fee_account })));
        fx.push(Effect::Publish(Notice::FeeBpsUpdated(FeeBpsUpdated { new_bps: fee_bps })));
        fx.push(Effect::Publish(Notice::ProfileContractUpdated(ProfileContractUpdated { new_addr: profile_contract })));
        Ok(fx)
    }

    /// Refuses the call unless the contract is initialized and its admin
    /// signed the invocation.
    pub fn require_admin(&self, inv: &Invocation) -> (r: Result<(), Error>)
        ensures
            r is Err <==> self.admin_error(inv) is Some,
            r matches Err(e) ==> Some(e) == self.admin_error(inv),
    {
        match self.admin {
            None => Err(Error::NotInitialized),
            Some(a) => require_auth(inv, a),
        }
    }

    /// First step of an admin rotation: proposes `new_admin`, who must
    /// accept within `PENDING_ADMIN_TTL_LEDGERS` ledgers.
    pub fn set_admin(&mut self, inv: &Invocation, new_admin: Account) -> (r: Result<Vec<Effect>, Error>)
        requires
            old(self).wf(),
        ensures
            final(self).wf(),
            r is Err ==> *final(self) == *old(self),
            r is Err <==> old(self).admin_error(inv) is Some,
            r matches Err(e) ==> Some(e) == old(self).admin_error(inv),
            r matches Ok(fx) ==> {
                &&& *final(self) == EventsContract {
                    pending_admin: Some(PendingAdmin {
                        target: new_admin,
                        expires_at_ledger: sat_add_u32(inv.sequence, PENDING_ADMIN_TTL_LEDGERS),
                    }),
                    ..*old(self)
                }
                &&& fx@ == seq![Effect::Publish(Notice::PendingAdminSet(PendingAdminSet { target: new_admin }))]
            },
    {
        self.require_admin(inv)?;
        let expires_at = inv.sequence.saturating_add(PENDING_ADMIN_TTL_LEDGERS);
        self.pending_admin = Some(PendingAdmin { target: new_admin, expires_at_ledger: expires_at });
        let mut fx: Vec<Effect> = Vec::new();
        fx.push(Effect::Publish(Notice::PendingAdminSet(PendingAdminSet { target: new_admin })));
        Ok(fx)
    }

    /// Why `accept_admin` is refused, if it is.
    pub open spec fn accept_admin_error(&self, inv: &Invocation) -> Option<Error> {
        match self.pending_admin {
            None => Some(Error::PendingAdminMismatch),
            Some(p) => if inv.sequence > p.expires_at_ledger {
                Some(Error::PendingAdminExpired)
            } else if !inv.authorizes(p.target) {
                Some(Error::Unauthorized)
            } else {
                None
            },
        }
    }

    /// Second step of an admin rotation: the proposed admin, signing before
    /// the proposal lapses, becomes the admin.
    pub fn accept_admin(&mut self, inv: &Invocation) -> (r: Result<Vec<Effect>, Error>)
        requires
            old(self).wf(),
        ensures
            final(self).wf(),
            r is Err ==> *final(self) == *old(self),
            r is Err <==> old(self).accept_admin_error(inv) is Some,
            r matches Err(e) ==> Some(e) == old(self).accept_admin_error(inv),
            r matches Ok(fx) ==> {
                let target = old(self).pending_admin->0.target;
                &&& *final(self) == EventsContract { admin: Some(target), pending_admin: None, ..*old(self) }
                &&& fx@ == seq![Effect::Publish(Notice::AdminUpdated(AdminUpdated { new_admin: target }))]
            },
    {
        let pending = match self.pending_admin {
            None => return Err(Error::PendingAdminMismatch),
            Some(p) => p,
        };
        if inv.sequence > pending.expires_at_ledger {
            return Err(Error::PendingAdminExpired);
        }
        require_auth(inv, pending.target)?;
        self.admin = Some(pending.target);
        self.pending_admin = None;
        let mut fx: Vec<Effect> = Vec::new();
        fx.push(Effect::Publish(Notice::AdminUpdated(AdminUpdated { new_admin: pending.target })));
        Ok(fx)
    }

    /// Changes the global fee rate; at most `MAX_FEE_BPS`.
    pub fn set_fee_bps(&mut self, inv: &Invocation, new_bps: u32) -> (r: Result<Vec<Effect>, Error>)
        requires
            old(self).wf(),
        ensures
            final(self).wf(),
            r is Err ==> *final(self) == *old(self),
            r is Err <==> old(self).admin_error(inv) is Some || new_bps > MAX_FEE_BPS,
            r matches Err(e) ==> e == match old(self).admin_error(inv) {
                Some(a) => a,
                None => Error::InvalidFeeBps,
            },
            r matches Ok(fx) ==> {
                &&& *final(self) == EventsContract { fee_bps: new_bps, ..*old(self) }
                &&& fx@ == seq![Effect::Publish(Notice::FeeBpsUpdated(FeeBpsUpdated { new_bps }))]
            },
    {
        self.require_admin(inv)?;
        if new_bps > MAX_FEE_BPS {
            return Err(Error::InvalidFeeBps);
        }
        self.fee_bps = new_bps;
        let mut fx: Vec<Effect> = Vec::new();
        fx.push(Effect::Publish(Notice::FeeBpsUpdated(FeeBpsUpdated { new_bps })));
        Ok(fx)
    }

    /// Changes the account that receives fees.
    pub fn set_fee_account(&mut self, inv: &Invocation, new_account: Account) -> (r: Result<Vec<Effect>, Error>)
        requires
            old(self).wf(),
        ensures
            final(self).wf(),
            r is Err ==> *final(self) == *old(self),
            r is Err <==> old(self).admin_error(inv) is Some,
            r matches Err(e) ==> Some(e) == old(self).admin_error(inv),
            r matches Ok(fx) ==> {
                &&& *final(self) == EventsContract { fee_account: new_account, ..*old(self) }
                &&& fx@ == seq![Effect::Publish(Notice::FeeAccountUpdated(FeeAccountUpdated { new_account }))]
            },
    {
        self.require_admin(inv)?;
        self.fee_account = new_account;
        let mut fx: Vec<Effect> = Vec::new();
        fx.push(Effect::Publish(Notice::FeeAccountUpdated(FeeAccountUpdated { new_account })));
        Ok(fx)
    }

    /// Rebinds the profile contract that receives reputation and earnings.
    pub fn set_profile_contract(&mut self, inv: &Invocation, new_addr: Account) -> (r: Result<Vec<Effect>, Error>)
        requires
            old(self).wf(),
        ensures
            final(self).wf(),
            r is Err ==> *final(self) == *old(self),
            r is Err <==> old(self).admin_error(inv) is Some,
            r matches Err(e) ==> Some(e) == old(self).admin_error(inv),
            r matches Ok(fx) ==> {
                &&& *final(self) == EventsContract { profile_contract: new_addr, ..*old(self) }
                &&& fx@ == seq![Effect::Publish(Notice::ProfileContractUpdated(ProfileContractUpdated { new_addr }))]
            },
    {
        self.require_admin(inv)?;
        self.profile_contract = new_addr;
        let mut fx: Vec<Effect> = Vec::new();
        fx.push(Effect::Publish(Notice::ProfileContractUpdated(ProfileContractUpdated { new_addr })));
        Ok(fx)
    }

    /// Stops every state-changing event operation until `unpause`.
    pub fn pause(&mut self, inv: &Invocation) -> (r: Result<Vec<Effect>, Error>)
        requires
            old(self).wf(),
        ensures
            final(self).wf(),
            r is Err ==> *final(self) == *old(self),
            r is Err <==> old(self).admin_error(inv) is Some,
            r matches Err(e) ==> Some(e) == old(self).admin_error(inv),
            r matches Ok(fx) ==> {
                &&& *final(self) == EventsContract { paused: true, ..*old(self) }
                &&& fx@ == seq![Effect::Publish(Notice::Paused(Paused {}))]
            },
    {
        self.require_admin(inv)?;
        self.paused = true;
        let mut fx: Vec<Effect> = Vec::new();
        fx.push(Effect::Publish(Notice::Paused(Paused {})));
        Ok(fx)
    }

    /// Lifts a pause.
    pub fn unpause(&mut self, inv: &Invocation) -> (r: Result<Vec<Effect>, Error>)
        requires
            old(self).wf(),
        ensures
            final(self).wf(),
            r is Err ==> *final(self) == *old(self),
            r is Err <==> old(self).admin_error(inv) is Some,
            r matches Err(e) ==> Some(e) == old(self).admin_error(inv),
            r matches Ok(fx) ==> {
                &&& *final(self) == EventsContract { paused: false, ..*old(self) }
                &&& fx@ == seq![Effect::Publish(Notice::Unpaused(Unpaused {}))]
            },
    {
        self.require_admin(inv)?;
        self.paused = false;
        let mut fx: Vec<Effect> = Vec::new();
        fx.push(Effect::Publish(Notice::Unpaused(Unpaused {})));
        Ok(fx)
    }

    /// Why a call that needs a pending upgrade proposal is refused, if it is.
    pub open spec fn apply_upgrade_error(&self, inv: &Invocation) -> Option<Error> {
        if self.admin_error(inv) is Some {
            self.admin_error(inv)
        } else {
            match self.pending_upgrade {
                None => Some(Error::UpgradeNotProposed),
                Some(p) => if inv.sequence > p.expires_at_ledger {
                    Some(Error::UpgradeProposalExpired)
                } else if inv.sequence < p.available_at_ledger {
                    Some(Error::UpgradeTimelockNotElapsed)
                } else {
                    None
                },
            }
        }
    }

    /// Proposes new contract code. It can be applied once
    /// `UPGRADE_TIMELOCK_LEDGERS` ledgers have passed and until
    /// `PENDING_UPGRADE_TTL_LEDGERS` have. An empty version label is refused
    /// (reported as `InvalidPillar`).
    pub fn propose_upgrade(&mut self, inv: &Invocation, new_wasm_hash: Hash32, new_version: Vec<u8>) -> (r: Result<
        Vec<Effect>,
        Error,
    >)
        requires
            old(self).wf(),
        ensures
            final(self).wf(),
            r is Err ==> *final(self) == *old(self),
            r is Err <==> old(self).admin_error(inv) is Some || new_version@.len() == 0,
            r matches Err(e) ==> e == match old(self).admin_error(inv) {
                Some(a) => a,
                None => Error::InvalidPillar,
            },
            r matches Ok(fx) ==> {
                let available = sat_add_u32(inv.sequence, UPGRADE_TIMELOCK_LEDGERS);
                let expires = sat_add_u32(inv.sequence, PENDING_UPGRADE_TTL_LEDGERS);
                &&& final(self).pending_upgrade matches Some(p) && p.wasm_hash == new_wasm_hash
                    && p.new_version@ == new_version@ && p.proposed_at_ledger == inv.sequence
                    && p.available_at_ledger == available && p.expires_at_ledger == expires
                &&& *final(self) == EventsContract { pending_upgrade: final(self).pending_upgrade, ..*old(self) }
                &&& fx@.len() == 1
                &&& fx@[0] matches Effect::Publish(Notice::PendingUpgradeProposed(n)) && n.wasm_hash == new_wasm_hash
                    && n.new_version@ == new_version@ && n.available_at_ledger == available
                    && n.expires_at_ledger == expires
            },
    {
        self.require_admin(inv)?;
        if new_version.len() == 0 {
            return Err(Error::InvalidPillar);
        }
        let now = inv.sequence;
        let available_at = now.saturating_add(UPGRADE_TIMELOCK_LEDGERS);
        let expires_at = now.saturating_add(PENDING_UPGRADE_TTL_LEDGERS);
        let label = copy_vec(&new_version);
        self.pending_upgrade = Some(PendingUpgrade {
            wasm_hash: new_wasm_hash,
            new_version,
            proposed_at_ledger: now,
            available_at_ledger: available_at,
            expires_at_ledger: expires_at,
        });
        let mut fx: Vec<Effect> = Vec::new();
        fx.push(Effect::Publish(Notice::PendingUpgradeProposed(PendingUpgradeProposed {
            wasm_hash: new_wasm_hash,
            new_version: label,
            available_at_ledger: available_at,
            expires_at_ledger: expires_at,
        })));
        Ok(fx)
    }

    /// Applies the pending upgrade inside its window: the code is replaced,
    /// the version becomes the proposed label and the proposal is cleared.
    pub fn apply_upgrade(&mut self, inv: &Invocation) -> (r: Result<Vec<Effect>, Error>)
        requires
            old(self).wf(),
        ensures
            final(self).wf(),
            r is Err ==> *final(self) == *old(self),
            r is Err <==> old(self).apply_upgrade_error(inv) is Some,
            r matches Err(e) ==> Some(e) == old(self).apply_upgrade_error(inv),
            r matches Ok(fx) ==> {
                let p = old(self).pending_upgrade->0;
                &&& final(self).version matches Some(v) && v@ == p.new_version@
                &&& final(self).pending_upgrade is None
                &&& *final(self) == EventsContract { version: final(self).version, pending_upgrade: None, ..*old(self) }
                &&& fx@.len() == 3
                &&& fx@[0] == Effect::UpdateWasm { hash: p.wasm_hash }
                &&& fx@[1] matches Effect::Publish(Notice::UpgradeApplied(n)) && n.wasm_hash == p.wasm_hash
                    && n.new_version@ == p.new_version@
                &&& fx@[2] == Effect::Publish(Notice::Upgraded(Upgraded { new_wasm_hash: p.wasm_hash }))
            },
    {
        self.require_admin(inv)?;
        let (hash, expires, available) = match &self.pending_upgrade {
            None => return Err(Error::UpgradeNotProposed),
            Some(p) => (p.wasm_hash, p.expires_at_ledger, p.available_at_ledger),
        };
        let now = inv.sequence;
        if now > expires {
            return Err(Error::UpgradeProposalExpired);
        }
        if now < available {
            return Err(Error::UpgradeTimelockNotElapsed);
        }
        let pending = self.pending_upgrade.take();
        let p = pending.unwrap();
        let label = copy_vec(&p.new_version);
        self.version = Some(p.new_version);
        let mut fx: Vec<Effect> = Vec::new();
        fx.push(Effect::UpdateWasm { hash });
        fx.push(Effect::Publish(Notice::UpgradeApplied(UpgradeApplied { wasm_hash: hash, new_version: label })));
        fx.push(Effect::Publish(Notice::Upgraded(Upgraded { new_wasm_hash: hash })));
        Ok(fx)
    }

    /// Withdraws the pending upgrade proposal.
    pub fn cancel_pending_upgrade(&mut self, inv: &Invocation) -> (r: Result<Vec<Effect>, Error>)
        requires
            old(self).wf(),
        ensures
            final(self).wf(),
            r is Err ==> *final(self) == *old(self),
            r is Err <==> old(self).admin_error(inv) is Some || old(self).pending_upgrade is None,
            r matches Err(e) ==> e == match old(self).admin_error(inv) {
                Some(a) => a,
                None => Error::UpgradeNotProposed,
            },
            r matches Ok(fx) ==> {
                &&& *final(self) == EventsContract { pending_upgrade: None, ..*old(self) }
                &&& fx@ == seq![
                    Effect::Publish(Notice::PendingUpgradeCancelled(PendingUpgradeCancelled {
                        cancelled_at_ledger: inv.sequence,
                    })),
                ]
            },
    {
        self.require_admin(inv)?;
        if self.pending_upgrade.is_none() {
            return Err(Error::UpgradeNotProposed);
        }
        self.pending_upgrade = None;
        let mut fx: Vec<Effect> = Vec::new();
        fx.push(Effect::Publish(Notice::PendingUpgradeCancelled(PendingUpgradeCancelled {
            cancelled_at_ledger: inv.sequence,
        })));
        Ok(fx)
    }

    /// Why `migrate` is refused, if it is.
    pub open spec fn migrate_error(&self, inv: &Invocation) -> Option<Error> {
        if self.admin_error(inv) is Some {
            self.admin_error(inv)
        } else {
            match self.version {
                None => Some(Error::NotInitialized),
                Some(v) => if self.migrated_to_version matches Some(m) && m@ == v@ {
                    Some(Error::MigrationAlreadyApplied)
                } else if v@ == initial_version() && self.next_id_spec() > self.migration_start() + MIGRATION_MAX_ROWS {
                    Some(Error::MigrationRangeTooLarge)
                } else {
                    None
                },
            }
        }
    }

    /// Runs the one-shot migration for the current version and stamps it,
    /// so the same migration cannot run twice. At the initial version the
    /// migration rewrites every event's prize floors from its percentages; it
    /// is refused, and nothing stamped, when more ids were issued than one
    /// pass covers.
    pub fn migrate(&mut self, inv: &Invocation) -> (r: Result<Vec<Effect>, Error>)
        requires
            old(self).wf(),
        ensures
            final(self).wf(),
            r is Err ==> *final(self) == *old(self),
            r is Err <==> old(self).migrate_error(inv) is Some,
            r matches Err(e) ==> Some(e) == old(self).migrate_error(inv),
            r matches Ok(fx) ==> {
                let current = old(self).version->0@;
                let from = match old(self).migrated_to_version {
                    Some(m) => m@,
                    None => zero_version(),
                };
                &&& final(self).migrated_to_version matches Some(m) && m@ == current
                &&& *final(self) == EventsContract {
                    migrated_to_version: final(self).migrated_to_version,
                    events: final(self).events,
                    ..*old(self)
                }
                &&& if current == initial_version() {
                    floors_rewritten(old(self).events@, final(self).events@, old(self).migration_start(),
                        old(self).migration_end(), old(self).events@.len() as int)
                } else {
                    final(self).events@ == old(self).events@
                }
                &&& fx@.len() == 1
                &&& fx@[0] matches Effect::Publish(Notice::Migrated(n)) && n.from_version@ == from
                    && n.to_version@ == current
            },
    {
        self.require_admin(inv)?;
        let current = match &self.version {
            None => return Err(Error::NotInitialized),
            Some(v) => copy_vec(v),
        };
        let from_version = match &self.migrated_to_version {
            Some(m) => {
                if bytes_eq(m, &current) {
                    return Err(Error::MigrationAlreadyApplied);
                }
                copy_vec(m)
            },
            None => {
                let z: Vec<u8> = vec![0x30u8, 0x2eu8, 0x30u8, 0x2eu8, 0x30u8];
                assert(z@ =~= zero_version());
                z
            },
        };
        let initial: Vec<u8> = vec![0x31u8, 0x2eu8, 0x37u8, 0x2eu8, 0x30u8];
        assert(initial@ =~= initial_version());
        if bytes_eq(&current, &initial) {
            let start = self.id_base().saturating_add(1);
            let next = match self.next_event_id {
                Some(n) => n,
                None => start,
            };
            if next > start && next - start > MIGRATION_MAX_ROWS {
                return Err(Error::MigrationRangeTooLarge);
            }
            self.migrate_prize_floors();
        }
        let to_version = copy_vec(&current);
        self.migrated_to_version = Some(current);
        let mut fx: Vec<Effect> = Vec::new();
        fx.push(Effect::Publish(Notice::Migrated(Migrated { from_version, to_version })));
        Ok(fx)
    }

    /// The admin of an initialized contract.
    pub fn get_admin(&self) -> (a: Account)
        requires
            self.is_initialized(),
        ensures
            self.admin == Some(a),
    {
        self.admin.unwrap()
    }

    pub fn get_fee_bps(&self) -> (b: u32)
        ensures
            b == self.fee_bps,
    {
        self.fee_bps
    }

    pub fn get_fee_account(&self) -> (a: Account)
        ensures
            a == self.fee_account,
    {
        self.fee_account
    }

    pub fn get_profile_contract(&self) -> (a: Account)
        ensures
            a == self.profile_contract,
    {
        self.profile_contract
    }

    pub fn is_paused(&self) -> (p: bool)
        ensures
            p == self.paused,
    {
        self.paused
    }

    /// The version label the contract reports.
    pub fn version(&self) -> (v: Vec<u8>)
        requires
            self.version is Some,
        ensures
            v@ == self.version->0@,
    {
        match &self.version {
            Some(v) => copy_vec(v),
            None => Vec::new(),
        }
    }

    /// The pending upgrade proposal, if any: (wasm hash, version label,
    /// proposed, available and expiry ledgers).
    pub fn get_pending_upgrade(&self) -> (r: Option<PendingUpgrade>)
        ensures
            r is Some <==> self.pending_upgrade is Some,
            r matches Some(p) ==> {
                let q = self.pending_upgrade->0;
                &&& p.wasm_hash == q.wasm_hash
                &&& p.new_version@ == q.new_version@
                &&& p.proposed_at_ledger == q.proposed_at_ledger
                &&& p.available_at_ledger == q.available_at_ledger
                &&& p.expires_at_ledger == q.expires_at_ledger
            },
    {
        match &self.pending_upgrade {
            None => None,
            Some(q) => Some(PendingUpgrade {
                wasm_hash: q.wasm_hash,
                new_version: copy_vec(&q.new_version),
                proposed_at_ledger: q.proposed_at_ledger,
                available_at_ledger: q.available_at_ledger,
                expires_at_ledger: q.expires_at_ledger,
            }),
        }
    }

    /// The last version a migration ran for, if any.
    pub fn get_migrated_to_version(&self) -> (r: Option<Vec<u8>>)
        ensures
            r is Some <==> self.migrated_to_version is Some,
            r matches Some(v) ==> v@ == self.migrated_to_version->0@,
    {
        match &self.migrated_to_version {
            None => None,
            Some(v) => Some(copy_vec(v)),
        }
    }
}

/// The fixed prize amount of each position under the percentage layout:
/// `total_budget * percent / 100` (saturating, rounded toward zero), keeping
/// only positive amounts, in the order of the distribution's entries.
pub open spec fn prize_floors_spec(total_budget: i128, dist: Seq<(u32, u32)>) -> Seq<(u32, i128)>
    decreases dist.len(),
{
    if dist.len() == 0 {
        seq![]
    } else {
        let rest = prize_floors_spec(total_budget, dist.drop_last());
        let (pos, pct) = dist.last();
        let floor = div_toward_zero(crate::arith::clamp_i128(total_budget * pct) as int, 100);
        if floor > 0 {
            rest.push((pos, floor as i128))
        } else {
            rest
        }
    }
}

/// Converts a percentage distribution into prize floors, the layout that
/// replaced percentages in later versions of the contract.
pub fn prize_floors_of(total_budget: i128, dist: &PercentMap) -> (r: Vec<(u32, i128)>)
    ensures
        r@ == prize_floors_spec(total_budget, dist.entries@),
{
    let mut out: Vec<(u32, i128)> = Vec::new();
    let mut i: usize = 0;
    while i < dist.entries.len()
        invariant
            i <= dist.entries@.len(),
            out@ == prize_floors_spec(total_budget, dist.entries@.subrange(0, i as int)),
        decreases dist.entries@.len() - i,
    {
        let (pos, pct) = dist.entries[i];
        let floor = crate::arith::div_pos(crate::arith::sat_mul(total_budget, pct as i128), 100);
        proof {
            let pre = dist.entries@.subrange(0, i + 1);
            assert(pre.drop_last() =~= dist.entries@.subrange(0, i as int));
            assert(pre.last() == (pos, pct));
        }
        if floor > 0 {
            out.push((pos, floor));
        }
        i += 1;
    }
    assert(dist.entries@.subrange(0, dist.entries@.len() as int) =~= dist.entries@);
    out
}

/// Most event rows one migration pass scans.
pub const MIGRATION_MAX_ROWS: u64 = 256;

/// A winner row after the migration: a multi-release anchor recorded with
/// no amount carries the share its position's percentage gives.
pub open spec fn anchor_row(w: Winner, total_budget: i128, dist: Seq<(u32, u32)>) -> Winner {
    if w.milestone is None && w.amount == 0 && lookup(dist, w.position) is Some {
        Winner { amount: grant_share(total_budget, lookup(dist, w.position)->0), ..w }
    } else {
        w
    }
}

/// `ws1` is `ws0` with every row passed through `anchor_row`.
pub open spec fn anchors_rewritten(ws0: Seq<Winner>, ws1: Seq<Winner>, total_budget: i128, dist: Seq<(u32, u32)>) -> bool {
    &&& ws1.len() == ws0.len()
    &&& forall|i: int| 0 <= i < ws0.len() ==> #[trigger] ws1[i] == anchor_row(ws0[i], total_budget, dist)
}

/// Event `e1` is `e0` after the migration step for it: when `rewrite` holds
/// and its id lies in `[start, end)`, its prize floors are rewritten from its
/// percentage distribution and, for a multi-release event, its anchors get
/// their shares; otherwise it is unchanged.
pub open spec fn floors_row(e0: EventEntry, e1: EventEntry, start: int, end: int, rewrite: bool) -> bool {
    let rec = e0.record;
    let dist = rec.winner_distribution.entries@;
    let hit = rewrite && start <= rec.id < end;
    &&& e1 == (EventEntry { record: EventRecord { prize_floors: e1.record.prize_floors, ..rec }, winners: e1.winners, ..e0 })
    &&& e1.record.prize_floors@ == if hit { prize_floors_spec(rec.total_budget, dist) } else { rec.prize_floors@ }
    &&& if hit && rec.release_kind != ReleaseKind::Single {
        anchors_rewritten(e0.winners@, e1.winners@, rec.total_budget, dist)
    } else {
        e1.winners@ == e0.winners@
    }
}

/// The rows of `ws`, with every multi-release anchor that carries no amount
/// given the share its position's percentage gives.
fn rewrite_anchors(ws: &Vec<Winner>, total_budget: i128, dist: &PercentMap) -> (r: Vec<Winner>)
    ensures
        anchors_rewritten(ws@, r@, total_budget, dist.entries@),
{
    let mut out: Vec<Winner> = Vec::new();
    let mut k: usize = 0;
    while k < ws.len()
        invariant
            k <= ws@.len(),
            out@.len() == k,
            forall|i: int| 0 <= i < k ==> #[trigger] out@[i] == anchor_row(ws@[i], total_budget, dist.entries@),
        decreases ws@.len() - k,
    {
        let w = ws[k];
        let row = if w.milestone.is_none() && w.amount == 0 {
            match dist.get(w.position) {
                Some(pct) => Winner { amount: div_pos(sat_mul(total_budget, pct as i128), 100), ..w },
                None => w,
            }
        } else {
            w
        };
        out.push(row);
        k += 1;
    }
    out
}

/// `new` is `old` with the prize floors of the first `upto` events rewritten
/// where their ids lie in `[start, end)`.
pub open spec fn floors_rewritten(old: Seq<EventEntry>, new: Seq<EventEntry>, start: int, end: int, upto: int) -> bool {
    &&& new.len() == old.len()
    &&& forall|j: int| 0 <= j < old.len() ==> floors_row(old[j], #[trigger] new[j], start, end, j < upto)
}

impl EventsContract {
    /// First id the migration scans: the one after this deployment's base.
    pub open spec fn migration_start(&self) -> int {
        sat_add_u64(self.id_base_spec(), 1) as int
    }

    /// End (exclusive) of the scanned ids: the next id to be issued, at most
    /// `MIGRATION_MAX_ROWS` ids past the start.
    pub open spec fn migration_end(&self) -> int {
        let start = self.migration_start();
        let next = self.next_id_spec() as int;
        if next <= start {
            start
        } else if next < start + MIGRATION_MAX_ROWS {
            next
        } else {
            start + MIGRATION_MAX_ROWS
        }
    }

    /// Rewrites the prize floors of every stored event in this deployment's
    /// id range (bounded by the id counter and by `MIGRATION_MAX_ROWS`) from
    /// its percentage distribution against its total budget, and gives the
    /// anchors of multi-release events that carry no amount their share.
    /// Nothing else changes.
    fn migrate_prize_floors(&mut self)
        requires
            old(self).wf(),
        ensures
            final(self).wf(),
            floors_rewritten(old(self).events@, final(self).events@, old(self).migration_start(),
                old(self).migration_end(), old(self).events@.len() as int),
            *final(self) == (EventsContract { events: final(self).events, ..*old(self) }),
    {
        let base = self.id_base();
        let start = base.saturating_add(1);
        let next = match self.next_event_id {
            Some(n) => n,
            None => start,
        };
        let end: u64 = if next <= start {
            start
        } else if next - start < MIGRATION_MAX_ROWS {
            next
        } else {
            start + MIGRATION_MAX_ROWS
        };
        assert(end as int == self.migration_end());
        let ghost before = *self;
        let ghost old_events = self.events@;
        let mut i: usize = 0;
        while i < self.events.len()
            invariant
                i <= self.events@.len(),
                before.wf(),
                old_events == before.events@,
                start as int == before.migration_start(),
                end as int == before.migration_end(),
                floors_rewritten(old_events, self.events@, start as int, end as int, i as int),
                *self == (EventsContract { events: self.events, ..before }),
            decreases self.events@.len() - i,
        {
            let id = self.events[i].record.id;
            let ghost pre = self.events@;
            if start <= id && id < end {
                let floors = prize_floors_of(self.events[i].record.total_budget, &self.events[i].record.winner_distribution);
                self.events[i].record.prize_floors = floors;
                assert(self.events@ =~= pre.update(i as int, self.events@[i as int]));
                if self.events[i].record.release_kind != ReleaseKind::Single {
                    let ws = rewrite_anchors(&self.events[i].winners, self.events[i].record.total_budget,
                        &self.events[i].record.winner_distribution);
                    let ghost mid = self.events@;
                    self.events[i].winners = ws;
                    assert(self.events@ =~= mid.update(i as int, self.events@[i as int]));
                }
            }
            proof {
                assert forall|j: int| 0 <= j < old_events.len() implies floors_row(old_events[j], #[trigger] self.events@[j],
                    start as int, end as int, j < i + 1) by {
                    assert(floors_row(old_events[j], pre[j], start as int, end as int, j < i));
                }
            }
            i += 1;
        }
        proof {
            let n = self.events@.len() as int;
            assert forall|a: int, b: int| 0 <= a < b < n implies self.events@[a].record.id != self.events@[b].record.id by {
                assert(floors_row(old_events[a], self.events@[a], start as int, end as int, a < n));
                assert(floors_row(old_events[b], self.events@[b], start as int, end as int, b < n));
            }
            assert forall|j: int| 0 <= j < n implies (#[trigger] self.events@[j]).wf() by {
                assert(floors_row(old_events[j], self.events@[j], start as int, end as int, j < n));
                assert(old_events[j].wf());
                assert(self.events@[j].winners@.len() == old_events[j].winners@.len());
            }
        }
    }
}

/// The migration gives a multi-release anchor that carried no amount the
/// share its percentage gives: `total_budget * percent / 100` for its
/// position, the rest of the row unchanged; rows that already carry an
/// amount, and paid milestone rows, are left as they were. With
/// percentages adding up to at most 100 the anchors therefore carry no more
/// than the budget between them.
pub proof fn law_migrated_anchor_carries_its_percentage(
    ws0: Seq<Winner>,
    ws1: Seq<Winner>,
    total_budget: i128,
    dist: Seq<(u32, u32)>,
    i: int,
)
    requires
        anchors_rewritten(ws0, ws1, total_budget, dist),
        0 <= i < ws0.len(),
        total_budget >= 0,
    ensures
        ws1.len() == ws0.len(),
        ws1[i].recipient == ws0[i].recipient,
        ws1[i].position == ws0[i].position,
        ws1[i].milestone == ws0[i].milestone,
        ws0[i].milestone is None && ws0[i].amount == 0 && lookup(dist, ws0[i].position) is Some
            && total_budget * (lookup(dist, ws0[i].position)->0) <= i128::MAX
            ==> ws1[i].amount as int == (total_budget as int * (lookup(dist, ws0[i].position)->0) as int) / 100,
        !(ws0[i].milestone is None && ws0[i].amount == 0) ==> ws1[i] == ws0[i],
{
    assert(ws1[i] == anchor_row(ws0[i], total_budget, dist));
    if ws0[i].milestone is None && ws0[i].amount == 0 && lookup(dist, ws0[i].position) is Some {
        let p = lookup(dist, ws0[i].position)->0;
        assert(total_budget * p >= 0) by (nonlinear_arith)
            requires
                total_budget >= 0,
                p >= 0,
        ;
    }
}

} // verus!
