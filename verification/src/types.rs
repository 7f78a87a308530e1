//! Shared value types, protocol constants and the failure vocabulary used by
//! every contract of the protocol.

use vstd::prelude::*;

verus! {

// ─── Identities ──────────────────────────────────────────────────────────────

/// An account or contract on the ledger. The protocol only ever asks two
/// addresses whether they are the same one, and orders them as keys; the
/// host picks ids that sort as the ledger sorts the addresses, and keeps
/// the ledger-level key material.
#[derive(Clone, Copy, Debug, PartialEq, Eq, Structural)]
pub struct Address(pub u64);

/// A short identifier (invoice id, offer id, currency code, event type),
/// by an id that the host picks to sort as the ledger sorts the symbols.
#[derive(Clone, Copy, Debug, PartialEq, Eq, Structural)]
pub struct Symbol(pub u64);

/// A 32-byte digest of off-chain evidence, carried but never inspected.
#[derive(Clone, Copy, Debug, PartialEq, Eq)]
pub struct Hash32(pub [u8; 32]);

// ─── Constants ───────────────────────────────────────────────────────────────

/// Grace period after `due_date` before a lender can reclaim on an Overdue
/// invoice: 7 days, in seconds.
pub const GRACE_PERIOD_SECS: u64 = 604_800;

/// Minimum financing duration of an offer: 1 day, in seconds.
pub const MIN_OFFER_DURATION_SECS: u64 = 86_400;

/// Maximum financing duration of an offer: 365 days, in seconds.
pub const MAX_OFFER_DURATION_SECS: u64 = 31_536_000;

/// Maximum interest rate of an offer, in basis points (100%).
pub const MAX_INTEREST_BPS: u32 = 10_000;

/// Minimum invoice amount in stroops (10 XLM).
pub const MIN_INVOICE_AMOUNT: i128 = 10_000_000;

/// Default offer-negotiation window: 72 hours, in seconds.
pub const DEFAULT_NEGOTIATION_WINDOW_SECS: u64 = 259_200;

/// Shortest negotiation window an admin may configure: 1 hour.
pub const MIN_NEGOTIATION_WINDOW_SECS: u64 = 3_600;

/// Longest negotiation window an admin may configure: 30 days.
pub const MAX_NEGOTIATION_WINDOW_SECS: u64 = 2_592_000;

/// Cap on recorded negotiation rounds per offer.
pub const MAX_NEGOTIATION_ROUNDS: u32 = 20;

/// Default validity of a verification attestation: 90 days, in seconds.
pub const DEFAULT_ATTESTATION_VALIDITY_SECS: u64 = 7_776_000;

/// Shortest attestation validity an admin may configure: 1 day.
pub const MIN_ATTESTATION_VALIDITY_SECS: u64 = 86_400;

/// Longest attestation validity an admin may configure: 365 days.
pub const MAX_ATTESTATION_VALIDITY_SECS: u64 = 31_536_000;

/// Ceiling of the verification fee, in basis points (5%).
pub const MAX_VERIFICATION_FEE_BPS: u32 = 500;

/// Ceiling of the protocol fee, in basis points (5%).
pub const MAX_PROTOCOL_FEE_BPS: u32 = 500;

/// Maximum size of the trusted verifier set.
pub const MAX_VERIFIERS: u32 = 20;

/// Maximum number of signers an admin configuration may hold.
pub const MAX_ADMIN_SIGNERS: u32 = 20;

/// Maximum attestations retained per invoice.
pub const MAX_ATTESTATIONS_PER_INVOICE: u32 = 60;

/// Maximum transition records retained per invoice.
pub const MAX_TRANSITION_HISTORY: u32 = 20;

/// Basis-point denominator.
pub const BPS_DENOMINATOR: i128 = 10_000;

// ─── Failures ────────────────────────────────────────────────────────────────

/// The protocol's typed, stable error codes.
#[derive(Clone, Copy, Debug, PartialEq, Eq, Structural)]
pub enum ContractError {
    Unauthorized,
    NotFound,
    InvalidTransition,
    Paused,
    InsufficientBalance,
    InvalidInput,
    AlreadyExists,
    Blacklisted,
    InvalidVersion,
    UpgradePending,
    UpgradeNotPending,
    RollbackUnavailable,
    OfferExpired,
}

impl ContractError {
    /// The stable numeric code clients branch on.
    pub fn code(&self) -> (c: u32)
        ensures
            c == self.spec_code(),
            1 <= c <= 13,
    {
        match self {
            ContractError::Unauthorized => 1,
            ContractError::NotFound => 2,
            ContractError::InvalidTransition => 3,
            ContractError::Paused => 4,
            ContractError::InsufficientBalance => 5,
            ContractError::InvalidInput => 6,
            ContractError::AlreadyExists => 7,
            ContractError::Blacklisted => 8,
            ContractError::InvalidVersion => 9,
            ContractError::UpgradePending => 10,
            ContractError::UpgradeNotPending => 11,
            ContractError::RollbackUnavailable => 12,
            ContractError::OfferExpired => 13,
        }
    }

    pub open spec fn spec_code(&self) -> u32 {
        match self {
            ContractError::Unauthorized => 1,
            ContractError::NotFound => 2,
            ContractError::InvalidTransition => 3,
            ContractError::Paused => 4,
            ContractError::InsufficientBalance => 5,
            ContractError::InvalidInput => 6,
            ContractError::AlreadyExists => 7,
            ContractError::Blacklisted => 8,
            ContractError::InvalidVersion => 9,
            ContractError::UpgradePending => 10,
            ContractError::UpgradeNotPending => 11,
            ContractError::RollbackUnavailable => 12,
            ContractError::OfferExpired => 13,
        }
    }
}

/// Aborts that carry a message rather than a typed code.
#[derive(Clone, Copy, Debug, PartialEq, Eq, Structural)]
pub enum Abort {
    /// "Not initialized"
    NotInitialized,
    /// "Already initialized"
    AlreadyInitialized,
    /// An intermediate value left its integer type.
    ArithmeticOverflow,
    /// "Financing contract not configured"
    FinancingNotConfigured,
    /// "Repayment contract not configured"
    RepaymentNotConfigured,
    /// "No payout caller configured"
    PayoutCallerNotConfigured,
    /// "Registry not configured"
    RegistryNotConfigured,
    /// "Verification fee token not configured for currency"
    FeeTokenNotConfigured,
    /// "offer amount must be greater than zero"
    OfferAmountNotPositive,
    /// "interest_rate must be greater than zero"
    InterestRateZero,
    /// "interest_rate must be at most 10000 bps"
    InterestRateTooHigh,
    /// "duration must be at least 1 day (86400 seconds)"
    DurationTooShort,
    /// "duration must be at most 365 days"
    DurationTooLong,
    /// "Invoice must be Pending to accept offers"
    InvoiceNotPending,
    /// "lender cannot finance their own invoice"
    SelfFinancing,
    /// "offer amount must not exceed the invoice amount"
    OfferExceedsInvoice,
    /// "count must be at least 1"
    InstallmentCountZero,
    /// "count must be at most 1200 installments"
    InstallmentCountTooHigh,
    /// "first_due must be in the future"
    FirstDueNotInFuture,
    /// "installment amount must be greater than zero"
    InstallmentAmountNotPositive,
    /// "Only the current admin can perform this action"
    NotAdmin,
    /// "Not a registered recorder"
    NotRecorder,
    /// "Event not found"
    EventNotFound,
    /// "start must be <= end"
    InvalidTimeRange,
    /// "Contract is paused"
    ContractPaused,
    /// "rate_bps must be between 0 and 10000"
    RateOutOfRange,
    /// "Rate not set for this tier"
    RateNotSet,
    /// "fee_bps must be at most 500 (5%)"
    FeeOutOfRange,
    /// "amount must be greater than zero"
    AmountNotPositive,
    /// "due_date must be in the future"
    DueDateNotInFuture,
    /// "Invoice with this ID already exists"
    InvoiceExists,
    /// "Invoice not found"
    InvoiceNotFound,
    /// "Offer with this ID already exists"
    OfferExists,
    /// "Offer not found"
    OfferNotFound,
    /// "Offer is not in Pending status"
    OfferNotPending,
    /// "Only the invoice originator can ..."
    NotOriginator,
    /// "Invoice is not in Pending status" / "Only Pending invoices ..."
    InvoiceNotInPending,
    /// "Invoice must be Financed before repayment"
    InvoiceNotFinanced,
    /// "Offer does not belong to this invoice"
    OfferInvoiceMismatch,
    /// "Offer must be Accepted or Financed before ..."
    OfferNotActive,
    /// "repayment amount must be greater than zero"
    RepaymentNotPositive,
    /// "Repayment amount exceeds remaining balance"
    RepaymentExceedsBalance,
    /// "Invoice must be Overdue before reclaim"
    InvoiceNotOverdue,
    /// "Grace period has not elapsed"
    GracePeriodNotElapsed,
    /// "Only the financing lender can reclaim" / "Only the offer lender can withdraw"
    NotLender,
    /// "Only Financed invoices can be marked Overdue"
    NotFinancedForOverdue,
    /// "Invoice due date has not passed"
    DueDateNotPassed,
    /// "Only admin can ..."
    NotAdminCaller,
    /// "Address is blacklisted"
    AddressBlacklisted,
    /// `unwrap` on a value that is absent.
    MissingValue,
}

/// Why a contract call aborted: a typed protocol error or a message panic.
#[derive(Clone, Copy, Debug, PartialEq, Eq, Structural)]
pub enum Failure {
    Contract(ContractError),
    Abort(Abort),
}

pub open spec fn err(e: ContractError) -> Failure {
    Failure::Contract(e)
}

pub open spec fn abort(a: Abort) -> Failure {
    Failure::Abort(a)
}

// ─── Shared records ──────────────────────────────────────────────────────────

/// Risk tier for yield-rate lookups. A = low risk, C = high risk.
#[derive(Clone, Copy, Debug, PartialEq, Eq, Structural)]
pub enum RiskTier {
    A,
    B,
    C,
}

/// Lifecycle status of an invoice.
#[derive(Clone, Copy, Debug, PartialEq, Eq, Structural)]
pub enum InvoiceStatus {
    Pending,
    Financed,
    Repaid,
    Overdue,
    Cancelled,
    Disputed,
    Defaulted,
}

/// An invoice registered on-chain.
#[derive(Clone, Copy, Debug, PartialEq, Eq, Structural)]
pub struct Invoice {
    pub id: Symbol,
    pub originator: Address,
    pub amount: i128,
    pub currency: Symbol,
    pub due_date: u64,
    pub status: InvoiceStatus,
}

/// A record of a single invoice state transition.
#[derive(Clone, Copy, Debug, PartialEq, Eq, Structural)]
pub struct TransitionRecord {
    pub from_status: InvoiceStatus,
    pub to_status: InvoiceStatus,
    pub actor: Address,
    pub timestamp: u64,
}

/// Lifecycle status of a financing offer.
#[derive(Clone, Copy, Debug, PartialEq, Eq, Structural)]
pub enum OfferStatus {
    Pending,
    Accepted,
    Rejected,
    Financed,
    Repaid,
    Defaulted,
}

/// A financing offer submitted by a lender against an invoice.
#[derive(Clone, Copy, Debug, PartialEq, Eq, Structural)]
pub struct FinancingOffer {
    pub id: Symbol,
    pub invoice_id: Symbol,
    pub lender: Address,
    pub amount: i128,
    pub currency: Symbol,
    /// Interest rate in basis points (500 = 5.00%).
    pub interest_rate: u32,
    /// Financing duration in seconds.
    pub duration: u64,
    /// Unix timestamp after which the offer can no longer be accepted; 0 never.
    pub expires_at: u64,
    pub status: OfferStatus,
    /// Unix timestamp when the offer was accepted; 0 if not yet accepted.
    pub funded_at: u64,
    /// Running total of repayments made against the financing obligation.
    pub amount_repaid: i128,
}

/// Aggregate protocol statistics.
#[derive(Clone, Copy, Debug, PartialEq, Eq, Structural)]
pub struct ProtocolStats {
    pub total_invoices: u32,
    pub total_offers: u32,
    pub total_financed: i128,
    pub total_repaid: i128,
    pub total_fee_revenue: i128,
}

impl ProtocolStats {
    pub fn zero() -> (s: ProtocolStats)
        ensures
            s == Self::spec_zero(),
    {
        ProtocolStats {
            total_invoices: 0,
            total_offers: 0,
            total_financed: 0,
            total_repaid: 0,
            total_fee_revenue: 0,
        }
    }

    pub open spec fn spec_zero() -> ProtocolStats {
        ProtocolStats {
            total_invoices: 0,
            total_offers: 0,
            total_financed: 0,
            total_repaid: 0,
            total_fee_revenue: 0,
        }
    }
}

/// Per-lender activity statistics.
#[derive(Clone, Copy, Debug, PartialEq, Eq, Structural)]
pub struct LenderStats {
    pub total_offered: i128,
    pub total_accepted: i128,
    pub offers_pending: u32,
    pub offers_repaid: u32,
}

impl LenderStats {
    pub fn zero() -> (s: LenderStats)
        ensures
            s == Self::spec_zero(),
    {
        LenderStats { total_offered: 0, total_accepted: 0, offers_pending: 0, offers_repaid: 0 }
    }

    pub open spec fn spec_zero() -> LenderStats {
        LenderStats { total_offered: 0, total_accepted: 0, offers_pending: 0, offers_repaid: 0 }
    }
}

/// Installment frequency for a fixed repayment schedule.
#[derive(Clone, Copy, Debug, PartialEq, Eq, Structural)]
pub enum ScheduleFrequency {
    Daily,
    Weekly,
    Monthly,
}

impl ScheduleFrequency {
    pub open spec fn spec_period_secs(self) -> u64 {
        match self {
            ScheduleFrequency::Daily => 86_400,
            ScheduleFrequency::Weekly => 604_800,
            ScheduleFrequency::Monthly => 2_592_000,
        }
    }

    /// The period in seconds between two installments of this frequency.
    pub fn period_secs(self) -> (p: u64)
        ensures
            p == self.spec_period_secs(),
            p > 0,
    {
        match self {
            ScheduleFrequency::Daily => 86_400,
            ScheduleFrequency::Weekly => 604_800,
            ScheduleFrequency::Monthly => 2_592_000,
        }
    }
}

/// An advisory fixed-installment repayment schedule attached to an offer.
#[derive(Clone, Copy, Debug, PartialEq, Eq, Structural)]
pub struct RepaymentSchedule {
    pub offer_id: Symbol,
    pub count: u32,
    pub frequency: ScheduleFrequency,
    pub installment_amount: i128,
    pub first_due: u64,
}

/// One payment against an invoice.
#[derive(Clone, Copy, Debug, PartialEq, Eq, Structural)]
pub struct PaymentRecord {
    pub payment_id: u32,
    pub amount: i128,
    pub interest_paid: i128,
    pub principal_paid: i128,
    pub timestamp: u64,
    pub payer: Address,
}

/// Which side of a financing negotiation proposed a set of terms.
#[derive(Clone, Copy, Debug, PartialEq, Eq, Structural)]
pub enum NegotiationParty {
    Lender,
    Originator,
}

/// One round of an offer negotiation.
#[derive(Clone, Copy, Debug, PartialEq, Eq, Structural)]
pub struct NegotiationRecord {
    pub party: NegotiationParty,
    pub amount: i128,
    pub interest_rate: u32,
    pub duration: u64,
    pub timestamp: u64,
}

/// Lifecycle status of an offer negotiation.
#[derive(Clone, Copy, Debug, PartialEq, Eq, Structural)]
pub enum NegotiationStatus {
    NoNegotiation,
    Open,
    Expired,
    Closed,
    Accepted,
}

/// The class of off-chain fact an attestation speaks to.
#[derive(Clone, Copy, Debug, PartialEq, Eq, Structural)]
pub enum VerificationType {
    DocumentHash,
    BusinessRegistration,
    TaxCompliance,
}

/// Verification state of an invoice, or of one verification type on it.
#[derive(Clone, Copy, Debug, PartialEq, Eq, Structural)]
pub enum VerificationStatus {
    Pending,
    Verified,
    Rejected,
    Expired,
}

/// A verifier's statement about one off-chain fact.
#[derive(Clone, Copy, Debug, PartialEq, Eq)]
pub struct Attestation {
    pub verifier: Address,
    pub v_type: VerificationType,
    pub hash: Hash32,
    pub timestamp: u64,
    pub valid_until: u64,
    pub status: VerificationStatus,
}

/// An event record stored in the on-chain event index.
#[derive(Clone, Copy, Debug, PartialEq, Eq, Structural)]
pub struct EventRecord {
    pub event_id: u64,
    pub event_type: Symbol,
    pub timestamp: u64,
    pub actor: Address,
    pub contract_id: Address,
    pub data_key: Symbol,
}

} // verus!
