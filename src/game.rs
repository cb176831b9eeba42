use vstd::prelude::*;
use crate::catflip::{
    bet, bet_rejection, fulfill_randomness, initialize, is_pending_round, new_vault, refund_rejection,
    refund_timeout, refunded_event, round_after_settle, settle_rejection, settled_event,
    vault_after_bet, vault_after_settle, settle_payout, BetRefunded, BetSettled,
};
use crate::error::CatflipError;
use crate::state::{Address, BetRound, Clock, Vault};

verus! {

/// How many of `rounds` still wait for settlement.
pub open spec fn pending_count(rounds: Seq<BetRound>) -> nat
    decreases rounds.len(),
{
    if rounds.len() == 0 {
        0
    } else {
        pending_count(rounds.drop_last()) + if rounds.last().is_settled {
            0nat
        } else {
            1nat
        }
    }
}

proof fn lemma_pending_push(rounds: Seq<BetRound>, round: BetRound)
    ensures
        pending_count(rounds.push(round)) == pending_count(rounds) + if round.is_settled {
            0nat
        } else {
            1nat
        },
{
    assert(rounds.push(round).drop_last() =~= rounds);
}

proof fn lemma_pending_update(rounds: Seq<BetRound>, i: int, round: BetRound)
    requires
        0 <= i < rounds.len(),
    ensures
        pending_count(rounds.update(i, round)) + (if rounds[i].is_settled {
            0nat
        } else {
            1nat
        }) == pending_count(rounds) + (if round.is_settled {
            0nat
        } else {
            1nat
        }),
    decreases rounds.len(),
{
    if i < rounds.len() - 1 {
        lemma_pending_update(rounds.drop_last(), i, round);
        assert(rounds.update(i, round).drop_last() =~= rounds.drop_last().update(i, round));
    } else {
        assert(rounds.update(i, round).drop_last() =~= rounds.drop_last());
    }
}

proof fn lemma_pending_remove(rounds: Seq<BetRound>, i: int)
    requires
        0 <= i < rounds.len(),
    ensures
        pending_count(rounds.remove(i)) + (if rounds[i].is_settled {
            0nat
        } else {
            1nat
        }) == pending_count(rounds),
    decreases rounds.len(),
{
    if i < rounds.len() - 1 {
        lemma_pending_remove(rounds.drop_last(), i);
        assert(rounds.remove(i).drop_last() =~= rounds.drop_last().remove(i));
    } else {
        assert(rounds.remove(i) =~= rounds.drop_last());
    }
}

/// Whether `round` is keyed by `player` and `slot`.
pub open spec fn has_key(round: BetRound, player: Address, slot: u64) -> bool {
    round.player.bytes@ == player.bytes@ && round.slot == slot
}

/// Whether some record of `rounds` is keyed by `player` and `slot`.
pub open spec fn key_taken(rounds: Seq<BetRound>, player: Address, slot: u64) -> bool {
    exists|i: int| 0 <= i < rounds.len() && #[trigger] has_key(rounds[i], player, slot)
}

/// Whether no two records of `rounds` share a key.
pub open spec fn keys_unique(rounds: Seq<BetRound>) -> bool {
    forall|i: int, j: int|
        0 <= i < j < rounds.len() ==> !has_key(#[trigger] rounds[i], (#[trigger] rounds[j]).player, rounds[j].slot)
}

/// Why placing a bet in the game fails, if it does: betting is paused, the
/// player already has a record for this slot, or the vault refuses the bet.
pub open spec fn place_rejection(
    vault: Vault,
    rounds: Seq<BetRound>,
    balance: u64,
    player: Address,
    amount: u64,
    slot: u64,
) -> Option<CatflipError> {
    if vault.is_paused {
        Some(CatflipError::GamePaused)
    } else if key_taken(rounds, player, slot) {
        Some(CatflipError::BetRoundExists)
    } else {
        bet_rejection(vault, balance, amount)
    }
}

/// Whether a record of `rounds` is keyed by `player` and `slot`.
fn find_key(rounds: &Vec<BetRound>, player: &Address, slot: u64) -> (r: bool)
    ensures
        r == key_taken(rounds@, *player, slot),
{
    let mut i: usize = 0;
    while i < rounds.len()
        invariant
            i <= rounds@.len(),
            forall|j: int| 0 <= j < i ==> !has_key(#[trigger] rounds@[j], *player, slot),
        decreases rounds@.len() - i,
    {
        if rounds[i].slot == slot && rounds[i].player.same_as(player) {
            assert(has_key(rounds@[i as int], *player, slot));
            return true;
        }
        i = i + 1;
    }
    false
}

/// The whole two-phase game: the vault, its balance, and the records of the
/// rounds that are still open.
pub struct Game {
    pub vault: Vault,
    pub vault_lamports: u64,
    pub rounds: Vec<BetRound>,
}

impl Game {
    /// No more wins are counted than bets, even counting each pending round
    /// as a bet that may still win; and no two records share a (player, slot) key.
    pub open spec fn wf(&self) -> bool {
        &&& self.vault.total_wins + pending_count(self.rounds@) <= self.vault.total_bets
        &&& keys_unique(self.rounds@)
    }

    /// A game with a fresh vault, an empty balance and no rounds.
    pub fn new(
        authority: Address,
        bump: u8,
        min_bet_lamports: u64,
        max_exposure_bps: u16,
        house_edge_bps: u16,
    ) -> (g: Game)
        ensures
            g.wf(),
            g.vault == new_vault(authority, bump, min_bet_lamports, max_exposure_bps, house_edge_bps),
            g.vault_lamports == 0,
            g.rounds@.len() == 0,
    {
        let vault = initialize(authority, bump, min_bet_lamports, max_exposure_bps, house_edge_bps);
        Game { vault, vault_lamports: 0, rounds: Vec::new() }
    }

    /// Places a bet and keeps its pending round, keyed by the player and the
    /// clock's slot, at the end of the records.
    pub fn place_bet(&mut self, player: Address, amount_lamports: u64, clock: Clock, bump: u8) -> (r:
        Result<(), CatflipError>)
        requires
            old(self).wf(),
        ensures
            final(self).wf(),
            match place_rejection(
                old(self).vault,
                old(self).rounds@,
                old(self).vault_lamports,
                player,
                amount_lamports,
                clock.slot,
            ) {
                None => {
                    &&& r is Ok
                    &&& final(self).vault == vault_after_bet(old(self).vault, amount_lamports)
                    &&& final(self).vault_lamports == old(self).vault_lamports + amount_lamports
                    &&& final(self).rounds@.len() == old(self).rounds@.len() + 1
                    &&& final(self).rounds@.drop_last() == old(self).rounds@
                    &&& is_pending_round(
                        final(self).rounds@.last(),
                        player,
                        amount_lamports,
                        old(self).vault.house_edge_bps,
                        clock,
                        bump,
                    )
                },
                Some(e) => {
                    &&& r == Err::<(), CatflipError>(e)
                    &&& final(self).vault == old(self).vault
                    &&& final(self).vault_lamports == old(self).vault_lamports
                    &&& final(self).rounds@ == old(self).rounds@
                },
            },
    {
        if self.vault.is_paused {
            return Err(CatflipError::GamePaused);
        }
        if find_key(&self.rounds, &player, clock.slot) {
            return Err(CatflipError::BetRoundExists);
        }
        match bet(&mut self.vault, &mut self.vault_lamports, player, amount_lamports, clock, bump) {
            Ok(round) => {
                proof {
                    lemma_pending_push(self.rounds@, round);
                }
                self.rounds.push(round);
                assert(self.rounds@.drop_last() =~= old(self).rounds@);
                Ok(())
            },
            Err(e) => Err(e),
        }
    }

    /// Settles the round at `index` with a random value, paying `player`.
    pub fn settle(&mut self, index: usize, player: Address, randomness: u64, timestamp: i64) -> (r: Result<
        BetSettled,
        CatflipError,
    >)
        requires
            old(self).wf(),
            index < old(self).rounds@.len(),
        ensures
            final(self).wf(),
            match settle_rejection(
                old(self).vault,
                old(self).rounds@[index as int],
                player,
                old(self).vault_lamports,
                randomness,
            ) {
                None => {
                    &&& r == Ok::<BetSettled, CatflipError>(
                        settled_event(old(self).rounds@[index as int], randomness, timestamp),
                    )
                    &&& final(self).vault == vault_after_settle(old(self).vault, randomness)
                    &&& final(self).rounds@ == old(self).rounds@.update(
                        index as int,
                        round_after_settle(old(self).rounds@[index as int], randomness),
                    )
                    &&& final(self).vault_lamports == old(self).vault_lamports - settle_payout(
                        old(self).rounds@[index as int],
                        randomness,
                    )
                },
                Some(e) => {
                    &&& r == Err::<BetSettled, CatflipError>(e)
                    &&& final(self).vault == old(self).vault
                    &&& final(self).vault_lamports == old(self).vault_lamports
                    &&& final(self).rounds@ == old(self).rounds@
                },
            },
    {
        let mut round = self.rounds[index];
        let r = fulfill_randomness(
            &mut self.vault,
            &mut round,
            &mut self.vault_lamports,
            player,
            randomness,
            timestamp,
        );
        if r.is_ok() {
            proof {
                lemma_pending_update(self.rounds@, index as int, round);
            }
            self.rounds.set(index, round);
        }
        r
    }

    /// Refunds the unsettled round at `index` to `player` once timed out, and
    /// removes its record.
    pub fn refund(&mut self, index: usize, player: Address, current_slot: u64, timestamp: i64) -> (r:
        Result<BetRefunded, CatflipError>)
        requires
            old(self).wf(),
            index < old(self).rounds@.len(),
        ensures
            final(self).wf(),
            final(self).vault == old(self).vault,
            match refund_rejection(
                old(self).rounds@[index as int],
                player,
                old(self).vault_lamports,
                current_slot,
            ) {
                None => {
                    &&& r == Ok::<BetRefunded, CatflipError>(
                        refunded_event(old(self).rounds@[index as int], player, timestamp),
                    )
                    &&& final(self).rounds@ == old(self).rounds@.remove(index as int)
                    &&& final(self).vault_lamports == old(self).vault_lamports - old(
                        self,
                    ).rounds@[index as int].stake_lamports
                },
                Some(e) => {
                    &&& r == Err::<BetRefunded, CatflipError>(e)
                    &&& final(self).vault_lamports == old(self).vault_lamports
                    &&& final(self).rounds@ == old(self).rounds@
                },
            },
    {
        let mut record = Some(self.rounds[index]);
        let r = refund_timeout(&mut self.vault_lamports, &mut record, player, current_slot, timestamp);
        if r.is_ok() {
            proof {
                lemma_pending_remove(self.rounds@, index as int);
            }
            self.rounds.remove(index);
        }
        r
    }
}

/// In every well-formed game the vault has counted no more wins than bets.
pub proof fn lemma_wins_within_bets(g: Game)
    requires
        g.wf(),
    ensures
        g.vault.total_wins <= g.vault.total_bets,
{
}

} // verus!
