//! Rejection kinds reported by the validators.
//!
//! A validator accepts a transaction by returning `Ok(())` and rejects
//! it with one of these kinds; the ledger only observes the boundary,
//! the kind is diagnostic.

use vstd::prelude::*;

verus! {

/// Error
#[derive(Clone, Copy, Debug, PartialEq, Eq, Structural)]
pub enum Error {
    // System Errors
    IndexOutOfBound,
    ItemMissing,
    LengthNotEnough,
    Encoding,
    WaitFailure,
    InvalidFd,
    OtherEndClosed,
    MaxVmsSpawned,
    MaxFdsCreated,
    UnexpectedSysError,
    TypeIDError,
    // Verification Errors
    InvalidDisputeMode,
    TotalSizeNotMatch,
    HeaderIsBroken,
    UnknownItem,
    OffsetsNotMatch,
    FieldCountNotMatch,
    // Signature Errors
    SignatureVerificationError,
    // Protocol errors
    NoArgs,
    NoWitness,
    ChannelIdMismatch,
    VersionNumberNotIncreasing,
    StateIsFinal,
    StateNotFinal,
    ChannelNotFunded,
    NotParticipant,
    SumOfBalancesNotEqual,
    OwnIndexNotFound,
    ChannelDoesNotContinue,
    MultipleMatchingOutputs,
    FundsInInputs,
    AppChannelsNotSupported,
    UndefinedBehavior,
    ChannelCellDataIsEmpty,
    ChannelStateNotEqual,
    FundingChanged,
    InvalidParentPCTSHash,
    TypeHashNotFound,
    LedgerChannelDoesNotHaveEnoughFundsForVC,
    UnequalBalanceInLockedFundsAndVirtualChannelBalance,
    ParentsOfVCInOutputHaveDifferentVCStatus,
    InvalidOutputTxForVCDisputeStart,
    OnlyChannelStatusExpectedButThatIsNotTheCase,
    InputCellForGivenParticipantNotFound,
    FundingNotInStatus,
    OwnFundingNotInOutputs,
    FundedBitStatusNotCorrect,
    StateIsFunded,
    ParentPCTSHashNotFound,
    ChannelFundWithoutChannelOutput,
    ChannelDisputeWithoutChannelOutput,
    ChannelCloseWithChannelOutput,
    ChannelForceCloseWithChannelOutput,
    ChannelAbortWithChannelOutput,
    InvalidParentsCountForVC,
    OutputCellForGivenParticipantNotFound,
    InvalidThreadToken,
    InvalidChannelId,
    StartWithNonZeroVersion,
    StartWithFinalizedState,
    InvalidPCLSCodeHash,
    InvalidPCLSHashType,
    PCLSWithArgs,
    VCLSWithArgs,
    StatusDisputed,
    StatusNotDisputed,
    FundingNotZero,
    NotAllPaid,
    TimeLockNotExpired,
    InvalidTimestamp,
    UnableToLoadAnyChannelStatus,
    UnableToLoadVirtualChannelStatus,
    InvalidSignature,
    InvalidMessage,
    InvalidPFLSInOutputs,
    InvalidNumberOfOutputs,
    PCTSNotFound,
    FoundDifferentChannel,
    MoreThanOneChannel,
    BalanceBelowPFLSMinCapacity,
    SamePaymentAddress,
    TypeScriptInPaymentOutput,
    TypeScriptInPFLSOutput,
    InvalidSUDT,
    InvalidSUDTDataLength,
    DecreasingAmount,
    WrongChannelType,
    InvalidVCTx,
    InvalidVCTxStart,
    ParentsOfVCNotFound,
    VCInputCellMissingInMergeTx,
    FundsForVCNotLocked,
    InvalidVCMergeTx,
    FirstForceCloseFlagSet,
    FirstForceCloseFlagNotSet,
    InvalidVCLockScript,
    ParentNotFoundInOutputs,
    InvalidVersionNumberVCProgressTx,
    InvalidVCClose1Tx,
    ParentsLengthMismatch,
    ParentsMismatch,
    ParentNotInForceClose,
    VCInputCellMissingInClose1Tx,
    VCParticipantIdxNotFound,
    InvalidVCParentData,
    SUDTAllocationLengthMismatch,
    VCOutputCellMissingIngStartTx,
    VCDisputeWithoutChannelOutput,
    VCStatusNotEqual,
    NoVCRentPayoutCell,
    InvalidVCRentPayoutCell,
}

} // verus!
