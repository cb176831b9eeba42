use vstd::prelude::*;

verus! {

/// Failures of the two-phase game. Each one aborts the whole operation.
#[derive(Clone, Copy, Debug, PartialEq, Eq, Structural)]
pub enum CatflipError {
    BetBelowMinimum,
    BetExceedsMaxExposure,
    InsufficientVaultBalance,
    GamePaused,
    BetAlreadySettled,
    BetNotTimedOut,
    InvalidVrfAccount,
    Unauthorized,
    MathOverflow,
    BetRoundExists,
}

/// Failures of the direct-transfer game, named after the host's program errors.
#[derive(Clone, Copy, Debug, PartialEq, Eq, Structural)]
pub enum DirectError {
    MissingRequiredSignature,
    AccountAlreadyInitialized,
    UninitializedAccount,
    InvalidArgument,
    InvalidInstructionData,
    InvalidAccountData,
    AccountDataTooSmall,
    InsufficientFunds,
    ArithmeticOverflow,
}

} // verus!
