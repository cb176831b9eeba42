use vstd::prelude::*;

verus! {

/// A 32-byte account identity (a public key).
#[derive(Clone, Copy, Debug)]
pub struct Address {
    pub bytes: [u8; 32],
}

impl Address {
    /// Whether two identities are the same.
    pub fn same_as(&self, other: &Address) -> (r: bool)
        ensures
            r == (self.bytes@ == other.bytes@),
    {
        let mut i: usize = 0;
        while i < 32
            invariant
                i <= 32,
                self.bytes@.len() == 32,
                other.bytes@.len() == 32,
                forall|j: int| 0 <= j < i ==> self.bytes@[j] == other.bytes@[j],
            decreases 32 - i,
        {
            if self.bytes[i] != other.bytes[i] {
                return false;
            }
            i = i + 1;
        }
        assert(self.bytes@ =~= other.bytes@);
        true
    }
}

/// The host clock as the game reads it.
#[derive(Clone, Copy, Debug, PartialEq, Eq, Structural)]
pub struct Clock {
    pub slot: u64,
    pub unix_timestamp: i64,
}

impl Clock {
    /// The stand-in random value of the two-phase game: the product of the
    /// timestamp (taken as unsigned) and the slot, modulo 2^64. Its parity is
    /// that of the full product.
    pub fn parity_randomness(&self) -> (r: u64)
        ensures
            r == ((self.unix_timestamp as u64) as int * self.slot as int) % 0x1_0000_0000_0000_0000,
    {
        (self.unix_timestamp as u64).wrapping_mul(self.slot)
    }
}

/// The bankroll's configuration and statistics in the two-phase game.
#[derive(Clone, Copy, Debug)]
pub struct Vault {
    pub authority: Address,
    pub bump: u8,
    pub is_paused: bool,
    pub min_bet_lamports: u64,
    pub max_exposure_bps: u16,
    pub house_edge_bps: u16,
    pub total_volume: u64,
    pub total_bets: u64,
    pub total_wins: u64,
}

impl Vault {
    /// Bytes the vault's account occupies: discriminator, fields, padding.
    pub const SIZE: usize = 8 + 32 + 1 + 1 + 8 + 2 + 2 + 8 + 8 + 8 + 32;
}

/// One wager of the two-phase game, from escrow to settlement.
#[derive(Clone, Copy, Debug)]
pub struct BetRound {
    pub player: Address,
    pub stake_lamports: u64,
    pub potential_payout: u64,
    pub timestamp: i64,
    pub slot: u64,
    pub vrf_request_randomness: [u8; 32],
    pub is_settled: bool,
    pub is_winner: bool,
    pub bump: u8,
}

impl BetRound {
    /// Bytes a round's account occupies: discriminator, fields, padding.
    pub const SIZE: usize = 8 + 32 + 8 + 8 + 8 + 8 + 32 + 1 + 1 + 1 + 16;

    /// Slots after its creation until an unsettled round may be refunded.
    pub const TIMEOUT_SLOTS: u64 = 150;
}

} // verus!
