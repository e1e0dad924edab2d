use vstd::prelude::*;

verus! {

/// Failure reasons of the events contract. Each variant carries a stable
/// numeric code, returned by [`Error::code`], which is what callers see on
/// chain.
#[derive(Clone, Copy, Debug, PartialEq, Eq, Structural)]
pub enum Error {
    AlreadyInitialized,
    AdminCannotBeZero,
    FeeAccountCannotBeZero,
    ProfileContractCannotBeZero,
    InvalidFeeBps,
    NotInitialized,
    Unauthorized,
    NotAdmin,
    PendingAdminMismatch,
    PendingAdminExpired,
    TokenNotSupported,
    FeeAccountMissingTrustline,
    EventNotFound,
    EventNotActive,
    InvalidPillar,
    InvalidReleaseKind,
    InvalidDistribution,
    InvalidBudget,
    DeadlineRequired,
    DeadlinePassed,
    DeadlineMustBeFuture,
    TitleTooLong,
    ApplicantAlreadyApplied,
    ApplicantNotApplied,
    SubmissionNotFound,
    SubmissionAlreadyExists,
    NoSubmissions,
    InvalidWinnerPosition,
    DuplicateWinnerPosition,
    DistributionMismatch,
    MilestoneAlreadyClaimed,
    InvalidMilestone,
    InsufficientEscrow,
    WinnersAlreadySelected,
    BelowMinimumContribution,
    InvalidContributionAmount,
    TooManyApplicants,
    OpAlreadySeen,
    TooManyContributors,
    CancellationNotStarted,
    CancellationAlreadyStarted,
    CancellationNotFinished,
    CancellationTotalMissing,
    UpgradeNotProposed,
    UpgradeTimelockNotElapsed,
    UpgradeProposalExpired,
    MigrationAlreadyApplied,
    Paused,
    ProfileCallFailed,
    PrizeAlreadyClaimed,
    EventIdOverflow,
    MigrationRangeTooLarge,
}

impl Error {
    /// The numeric code under which the error is reported.
    pub open spec fn spec_code(self) -> u32 {
        match self {
            Error::AlreadyInitialized => 1,
            Error::AdminCannotBeZero => 2,
            Error::FeeAccountCannotBeZero => 3,
            Error::ProfileContractCannotBeZero => 4,
            Error::InvalidFeeBps => 5,
            Error::NotInitialized => 6,
            Error::Unauthorized => 10,
            Error::NotAdmin => 11,
            Error::PendingAdminMismatch => 12,
            Error::PendingAdminExpired => 13,
            Error::TokenNotSupported => 20,
            Error::FeeAccountMissingTrustline => 21,
            Error::EventNotFound => 30,
            Error::EventNotActive => 31,
            Error::InvalidPillar => 32,
            Error::InvalidReleaseKind => 33,
            Error::InvalidDistribution => 34,
            Error::InvalidBudget => 35,
            Error::DeadlineRequired => 36,
            Error::DeadlinePassed => 37,
            Error::DeadlineMustBeFuture => 38,
            Error::TitleTooLong => 39,
            Error::ApplicantAlreadyApplied => 40,
            Error::ApplicantNotApplied => 41,
            Error::SubmissionNotFound => 42,
            Error::SubmissionAlreadyExists => 43,
            Error::NoSubmissions => 50,
            Error::InvalidWinnerPosition => 51,
            Error::DuplicateWinnerPosition => 52,
            Error::DistributionMismatch => 53,
            Error::MilestoneAlreadyClaimed => 54,
            Error::InvalidMilestone => 55,
            Error::InsufficientEscrow => 56,
            Error::BelowMinimumContribution => 57,
            Error::InvalidContributionAmount => 58,
            Error::TooManyApplicants => 59,
            Error::OpAlreadySeen => 60,
            Error::TooManyContributors => 61,
            Error::CancellationNotStarted => 62,
            Error::CancellationAlreadyStarted => 63,
            Error::CancellationNotFinished => 64,
            Error::UpgradeNotProposed => 65,
            Error::CancellationTotalMissing => 66,
            Error::UpgradeTimelockNotElapsed => 67,
            Error::UpgradeProposalExpired => 68,
            Error::MigrationAlreadyApplied => 69,
            Error::Paused => 70,
            Error::ProfileCallFailed => 80,
            Error::WinnersAlreadySelected => 90,
            Error::PrizeAlreadyClaimed => 91,
            Error::EventIdOverflow => 71,
            Error::MigrationRangeTooLarge => 72,
        }
    }

    /// Returns the numeric code of the error.
    pub fn code(&self) -> (c: u32)
        ensures
            c == self.spec_code(),
    {
        match self {
            Error::AlreadyInitialized => 1,
            Error::AdminCannotBeZero => 2,
            Error::FeeAccountCannotBeZero => 3,
            Error::ProfileContractCannotBeZero => 4,
            Error::InvalidFeeBps => 5,
            Error::NotInitialized => 6,
            Error::Unauthorized => 10,
            Error::NotAdmin => 11,
            Error::PendingAdminMismatch => 12,
            Error::PendingAdminExpired => 13,
            Error::TokenNotSupported => 20,
            Error::FeeAccountMissingTrustline => 21,
            Error::EventNotFound => 30,
            Error::EventNotActive => 31,
            Error::InvalidPillar => 32,
            Error::InvalidReleaseKind => 33,
            Error::InvalidDistribution => 34,
            Error::InvalidBudget => 35,
            Error::DeadlineRequired => 36,
            Error::DeadlinePassed => 37,
            Error::DeadlineMustBeFuture => 38,
            Error::TitleTooLong => 39,
            Error::ApplicantAlreadyApplied => 40,
            Error::ApplicantNotApplied => 41,
            Error::SubmissionNotFound => 42,
            Error::SubmissionAlreadyExists => 43,
            Error::NoSubmissions => 50,
            Error::InvalidWinnerPosition => 51,
            Error::DuplicateWinnerPosition => 52,
            Error::DistributionMismatch => 53,
            Error::MilestoneAlreadyClaimed => 54,
            Error::InvalidMilestone => 55,
            Error::InsufficientEscrow => 56,
            Error::BelowMinimumContribution => 57,
            Error::InvalidContributionAmount => 58,
            Error::TooManyApplicants => 59,
            Error::OpAlreadySeen => 60,
            Error::TooManyContributors => 61,
            Error::CancellationNotStarted => 62,
            Error::CancellationAlreadyStarted => 63,
            Error::CancellationNotFinished => 64,
            Error::UpgradeNotProposed => 65,
            Error::CancellationTotalMissing => 66,
            Error::UpgradeTimelockNotElapsed => 67,
            Error::UpgradeProposalExpired => 68,
            Error::MigrationAlreadyApplied => 69,
            Error::Paused => 70,
            Error::ProfileCallFailed => 80,
            Error::WinnersAlreadySelected => 90,
            Error::PrizeAlreadyClaimed => 91,
            Error::EventIdOverflow => 71,
            Error::MigrationRangeTooLarge => 72,
        }
    }
}

} // verus!
