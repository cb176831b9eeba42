use vstd::prelude::*;
use crate::error::CatflipError;
use crate::state::{Address, BetRound, Clock, Vault};

verus! {

/// Basis points in a whole.
pub const BPS_DENOMINATOR: u64 = 10000;

/// The largest stake the bankroll accepts: `balance * max_exposure_bps / 10000`.
pub open spec fn max_bet(balance: u64, max_exposure_bps: u16) -> int {
    balance as int * max_exposure_bps as int / 10000
}

/// What a winning stake pays: `amount * 2 * (10000 - house_edge_bps) / 10000`.
pub open spec fn payout_of(amount: u64, house_edge_bps: u16) -> int {
    amount as int * 2 * (10000 - house_edge_bps as int) / 10000
}

/// Whether some step of the payout computation leaves the range of `u64`
/// (the edge exceeds a whole, or a product exceeds `u64::MAX`).
pub open spec fn payout_overflows(amount: u64, house_edge_bps: u16) -> bool {
    ||| house_edge_bps > 10000
    ||| amount as int * 2 > u64::MAX
    ||| amount as int * 2 * (10000 - house_edge_bps as int) > u64::MAX
}

/// The first rule a bet of `amount` breaks against the vault and its balance,
/// in the order the rules are checked; `None` when the bet is accepted.
pub open spec fn bet_rejection(vault: Vault, balance: u64, amount: u64) -> Option<CatflipError> {
    if vault.is_paused {
        Some(CatflipError::GamePaused)
    } else if amount < vault.min_bet_lamports {
        Some(CatflipError::BetBelowMinimum)
    } else if balance as int * vault.max_exposure_bps as int > u64::MAX {
        Some(CatflipError::MathOverflow)
    } else if amount > max_bet(balance, vault.max_exposure_bps) {
        Some(CatflipError::BetExceedsMaxExposure)
    } else if payout_overflows(amount, vault.house_edge_bps) {
        Some(CatflipError::MathOverflow)
    } else if balance < payout_of(amount, vault.house_edge_bps) {
        Some(CatflipError::InsufficientVaultBalance)
    } else if balance as int + amount as int > u64::MAX
        || vault.total_volume as int + amount as int > u64::MAX
        || vault.total_bets as int + 1 > u64::MAX {
        Some(CatflipError::MathOverflow)
    } else {
        None
    }
}

/// The vault after an accepted bet of `amount`: its volume and bet count grow.
pub open spec fn vault_after_bet(vault: Vault, amount: u64) -> Vault {
    Vault {
        total_volume: (vault.total_volume + amount) as u64,
        total_bets: (vault.total_bets + 1) as u64,
        ..vault
    }
}

/// Whether `round` is the pending record of a fresh bet of `amount` by
/// `player`, placed at `clock` against a vault with `house_edge_bps`.
pub open spec fn is_pending_round(
    round: BetRound,
    player: Address,
    amount: u64,
    house_edge_bps: u16,
    clock: Clock,
    bump: u8,
) -> bool {
    &&& round.player == player
    &&& round.stake_lamports == amount
    &&& round.potential_payout == payout_of(amount, house_edge_bps)
    &&& round.timestamp == clock.unix_timestamp
    &&& round.slot == clock.slot
    &&& round.vrf_request_randomness@ == Seq::new(32, |i: int| 0u8)
    &&& !round.is_settled
    &&& !round.is_winner
    &&& round.bump == bump
}

/// A fresh vault owned by `authority`: unpaused, with zeroed statistics.
pub open spec fn new_vault(
    authority: Address,
    bump: u8,
    min_bet_lamports: u64,
    max_exposure_bps: u16,
    house_edge_bps: u16,
) -> Vault {
    Vault {
        authority,
        bump,
        is_paused: false,
        min_bet_lamports,
        max_exposure_bps,
        house_edge_bps,
        total_volume: 0,
        total_bets: 0,
        total_wins: 0,
    }
}

/// Creates a vault owned by `authority`, unpaused, with zeroed statistics.
pub fn initialize(
    authority: Address,
    bump: u8,
    min_bet_lamports: u64,
    max_exposure_bps: u16,
    house_edge_bps: u16,
) -> (vault: Vault)
    ensures
        vault == new_vault(authority, bump, min_bet_lamports, max_exposure_bps, house_edge_bps),
{
    Vault {
        authority,
        bump,
        is_paused: false,
        min_bet_lamports,
        max_exposure_bps,
        house_edge_bps,
        total_volume: 0,
        total_bets: 0,
        total_wins: 0,
    }
}

/// Takes a stake of `amount` from `player` into the vault, whose balance is
/// `vault_lamports`, and returns the pending round for it. On any error the
/// vault and its balance are left as they were.
pub fn bet(
    vault: &mut Vault,
    vault_lamports: &mut u64,
    player: Address,
    amount_lamports: u64,
    clock: Clock,
    bump: u8,
) -> (r: Result<BetRound, CatflipError>)
    ensures
        match bet_rejection(*old(vault), *old(vault_lamports), amount_lamports) {
            None => {
                &&& r matches Ok(round) && is_pending_round(
                    round,
                    player,
                    amount_lamports,
                    old(vault).house_edge_bps,
                    clock,
                    bump,
                )
                &&& *final(vault) == vault_after_bet(*old(vault), amount_lamports)
                &&& *final(vault_lamports) == *old(vault_lamports) + amount_lamports
            },
            Some(e) => {
                &&& r == Err::<BetRound, CatflipError>(e)
                &&& *final(vault) == *old(vault)
                &&& *final(vault_lamports) == *old(vault_lamports)
            },
        },
{
    let balance = *vault_lamports;
    if vault.is_paused {
        return Err(CatflipError::GamePaused);
    }
    if amount_lamports < vault.min_bet_lamports {
        return Err(CatflipError::BetBelowMinimum);
    }
    let max_bet = match balance.checked_mul(vault.max_exposure_bps as u64) {
        Some(p) => p / BPS_DENOMINATOR,
        None => return Err(CatflipError::MathOverflow),
    };
    if amount_lamports > max_bet {
        return Err(CatflipError::BetExceedsMaxExposure);
    }
    let edge_multiplier = match BPS_DENOMINATOR.checked_sub(vault.house_edge_bps as u64) {
        Some(m) => m,
        None => return Err(CatflipError::MathOverflow),
    };
    let doubled = match amount_lamports.checked_mul(2) {
        Some(d) => d,
        None => return Err(CatflipError::MathOverflow),
    };
    let potential_payout = match doubled.checked_mul(edge_multiplier) {
        Some(p) => p / BPS_DENOMINATOR,
        None => return Err(CatflipError::MathOverflow),
    };
    if balance < potential_payout {
        return Err(CatflipError::InsufficientVaultBalance);
    }
    let new_balance = match balance.checked_add(amount_lamports) {
        Some(b) => b,
        None => return Err(CatflipError::MathOverflow),
    };
    let total_volume = match vault.total_volume.checked_add(amount_lamports) {
        Some(t) => t,
        None => return Err(CatflipError::MathOverflow),
    };
    let total_bets = match vault.total_bets.checked_add(1) {
        Some(t) => t,
        None => return Err(CatflipError::MathOverflow),
    };
    vault.total_volume = total_volume;
    vault.total_bets = total_bets;
    *vault_lamports = new_balance;
    let no_randomness_yet = [0u8; 32];
    assert(no_randomness_yet@ =~= Seq::new(32, |i: int| 0u8));
    Ok(BetRound {
        player,
        stake_lamports: amount_lamports,
        potential_payout,
        timestamp: clock.unix_timestamp,
        slot: clock.slot,
        vrf_request_randomness: no_randomness_yet,
        is_settled: false,
        is_winner: false,
        bump,
    })
}

/// Record of a settled bet.
#[derive(Clone, Copy, Debug)]
pub struct BetSettled {
    pub player: Address,
    pub stake: u64,
    pub is_winner: bool,
    pub payout: u64,
    pub timestamp: i64,
}

/// Record of a refunded bet.
#[derive(Clone, Copy, Debug)]
pub struct BetRefunded {
    pub player: Address,
    pub stake: u64,
    pub timestamp: i64,
}

/// The record of settling `round` with `randomness` at `timestamp`.
pub open spec fn settled_event(round: BetRound, randomness: u64, timestamp: i64) -> BetSettled {
    BetSettled {
        player: round.player,
        stake: round.stake_lamports,
        is_winner: is_win(randomness),
        payout: settle_payout(round, randomness),
        timestamp,
    }
}

/// The record of refunding `round` to `player` at `timestamp`.
pub open spec fn refunded_event(round: BetRound, player: Address, timestamp: i64) -> BetRefunded {
    BetRefunded { player, stake: round.stake_lamports, timestamp }
}

/// A random value decides a win when it is even.
pub open spec fn is_win(randomness: u64) -> bool {
    randomness % 2 == 0
}

/// Why settling `round` with `randomness`, paying `player`, fails, if it does.
pub open spec fn settle_rejection(
    vault: Vault,
    round: BetRound,
    player: Address,
    balance: u64,
    randomness: u64,
) -> Option<CatflipError> {
    if round.is_settled {
        Some(CatflipError::BetAlreadySettled)
    } else if round.player.bytes@ != player.bytes@ {
        Some(CatflipError::Unauthorized)
    } else if is_win(randomness) && balance < round.potential_payout {
        Some(CatflipError::InsufficientVaultBalance)
    } else if is_win(randomness) && vault.total_wins == u64::MAX {
        Some(CatflipError::MathOverflow)
    } else {
        None
    }
}

/// The round once settled with `randomness`.
pub open spec fn round_after_settle(round: BetRound, randomness: u64) -> BetRound {
    BetRound { is_settled: true, is_winner: is_win(randomness), ..round }
}

/// The vault once a round is settled with `randomness`: a win is counted.
pub open spec fn vault_after_settle(vault: Vault, randomness: u64) -> Vault {
    if is_win(randomness) {
        Vault { total_wins: (vault.total_wins + 1) as u64, ..vault }
    } else {
        vault
    }
}

/// What the vault pays out when `round` is settled with `randomness`.
pub open spec fn settle_payout(round: BetRound, randomness: u64) -> u64 {
    if is_win(randomness) {
        round.potential_payout
    } else {
        0
    }
}

/// Settles a pending round with a random value: an even value wins, and the
/// vault then pays the round's potential payout out of its balance; an odd
/// value loses, and the stake stays in the vault. Only the round's own
/// `player` may be paid. On any error nothing changes.
pub fn fulfill_randomness(
    vault: &mut Vault,
    bet_round: &mut BetRound,
    vault_lamports: &mut u64,
    player: Address,
    randomness: u64,
    timestamp: i64,
) -> (r: Result<BetSettled, CatflipError>)
    ensures
        match settle_rejection(
            *old(vault),
            *old(bet_round),
            player,
            *old(vault_lamports),
            randomness,
        ) {
            None => {
                &&& r == Ok::<BetSettled, CatflipError>(
                    settled_event(*old(bet_round), randomness, timestamp),
                )
                &&& *final(vault) == vault_after_settle(*old(vault), randomness)
                &&& *final(bet_round) == round_after_settle(*old(bet_round), randomness)
                &&& *final(vault_lamports) == *old(vault_lamports) - settle_payout(
                    *old(bet_round),
                    randomness,
                )
            },
            Some(e) => {
                &&& r == Err::<BetSettled, CatflipError>(e)
                &&& *final(vault) == *old(vault)
                &&& *final(bet_round) == *old(bet_round)
                &&& *final(vault_lamports) == *old(vault_lamports)
            },
        },
{
    if bet_round.is_settled {
        return Err(CatflipError::BetAlreadySettled);
    }
    if !bet_round.player.same_as(&player) {
        return Err(CatflipError::Unauthorized);
    }
    let is_winner = randomness % 2 == 0;
    let mut payout: u64 = 0;
    if is_winner {
        payout = bet_round.potential_payout;
        if *vault_lamports < payout {
            return Err(CatflipError::InsufficientVaultBalance);
        }
        let total_wins = match vault.total_wins.checked_add(1) {
            Some(t) => t,
            None => return Err(CatflipError::MathOverflow),
        };
        *vault_lamports = *vault_lamports - payout;
        vault.total_wins = total_wins;
    }
    bet_round.is_settled = true;
    bet_round.is_winner = is_winner;
    Ok(BetSettled {
        player: bet_round.player,
        stake: bet_round.stake_lamports,
        is_winner,
        payout,
        timestamp,
    })
}

/// Whether `current_slot` lies past the refund deadline of a round created at `slot`.
pub open spec fn timed_out(slot: u64, current_slot: u64) -> bool {
    current_slot > slot + BetRound::TIMEOUT_SLOTS
}

/// Why refunding `round` to `player` fails, if it does.
pub open spec fn refund_rejection(
    round: BetRound,
    player: Address,
    balance: u64,
    current_slot: u64,
) -> Option<CatflipError> {
    if round.is_settled {
        Some(CatflipError::BetAlreadySettled)
    } else if round.player.bytes@ != player.bytes@ {
        Some(CatflipError::Unauthorized)
    } else if !timed_out(round.slot, current_slot) {
        Some(CatflipError::BetNotTimedOut)
    } else if balance < round.stake_lamports {
        Some(CatflipError::InsufficientVaultBalance)
    } else {
        None
    }
}

/// Returns the stake of a round that was never settled, once its deadline has
/// passed, and closes the round's record. On any error nothing changes.
pub fn refund_timeout(
    vault_lamports: &mut u64,
    bet_round: &mut Option<BetRound>,
    player: Address,
    current_slot: u64,
    timestamp: i64,
) -> (r: Result<BetRefunded, CatflipError>)
    requires
        old(bet_round).is_some(),
    ensures
        match refund_rejection(old(bet_round).unwrap(), player, *old(vault_lamports), current_slot) {
            None => {
                &&& r == Ok::<BetRefunded, CatflipError>(
                    refunded_event(old(bet_round).unwrap(), player, timestamp),
                )
                &&& *final(bet_round) == None::<BetRound>
                &&& *final(vault_lamports) == *old(vault_lamports) - old(bet_round).unwrap().stake_lamports
            },
            Some(e) => {
                &&& r == Err::<BetRefunded, CatflipError>(e)
                &&& *final(bet_round) == *old(bet_round)
                &&& *final(vault_lamports) == *old(vault_lamports)
            },
        },
{
    let round = bet_round.unwrap();
    if round.is_settled {
        return Err(CatflipError::BetAlreadySettled);
    }
    if !round.player.same_as(&player) {
        return Err(CatflipError::Unauthorized);
    }
    if !(current_slot > round.slot && current_slot - round.slot > BetRound::TIMEOUT_SLOTS) {
        return Err(CatflipError::BetNotTimedOut);
    }
    if *vault_lamports < round.stake_lamports {
        return Err(CatflipError::InsufficientVaultBalance);
    }
    *vault_lamports = *vault_lamports - round.stake_lamports;
    *bet_round = None;
    Ok(BetRefunded { player, stake: round.stake_lamports, timestamp })
}

/// Whether `signer` is the vault's authority.
pub open spec fn is_authority(vault: Vault, signer: Address) -> bool {
    vault.authority.bytes@ == signer.bytes@
}

/// Adds `amount` to the vault's balance; only the authority may.
pub fn fund_vault(vault: &Vault, vault_lamports: &mut u64, authority: Address, amount: u64) -> (r:
    Result<(), CatflipError>)
    ensures
        !is_authority(*vault, authority) ==> r == Err::<(), CatflipError>(
            CatflipError::Unauthorized,
        ),
        is_authority(*vault, authority) && *old(vault_lamports) + amount > u64::MAX ==> r == Err::<
            (),
            CatflipError,
        >(CatflipError::MathOverflow),
        r is Ok <==> is_authority(*vault, authority) && *old(vault_lamports) + amount <= u64::MAX,
        r is Ok ==> *final(vault_lamports) == *old(vault_lamports) + amount,
        r is Err ==> *final(vault_lamports) == *old(vault_lamports),
{
    if !vault.authority.same_as(&authority) {
        return Err(CatflipError::Unauthorized);
    }
    match vault_lamports.checked_add(amount) {
        Some(b) => {
            *vault_lamports = b;
            Ok(())
        },
        None => Err(CatflipError::MathOverflow),
    }
}

/// Pauses or resumes betting; only the authority may.
pub fn set_pause(vault: &mut Vault, authority: Address, is_paused: bool) -> (r: Result<
    (),
    CatflipError,
>)
    ensures
        is_authority(*old(vault), authority) ==> r is Ok && *final(vault) == (Vault {
            is_paused,
            ..*old(vault)
        }),
        !is_authority(*old(vault), authority) ==> r == Err::<(), CatflipError>(
            CatflipError::Unauthorized,
        ) && *final(vault) == *old(vault),
{
    if !vault.authority.same_as(&authority) {
        return Err(CatflipError::Unauthorized);
    }
    vault.is_paused = is_paused;
    Ok(())
}

/// Sets the minimum stake and the exposure cap; only the authority may.
pub fn set_limits(
    vault: &mut Vault,
    authority: Address,
    min_bet_lamports: u64,
    max_exposure_bps: u16,
) -> (r: Result<(), CatflipError>)
    ensures
        is_authority(*old(vault), authority) ==> r is Ok && *final(vault) == (Vault {
            min_bet_lamports,
            max_exposure_bps,
            ..*old(vault)
        }),
        !is_authority(*old(vault), authority) ==> r == Err::<(), CatflipError>(
            CatflipError::Unauthorized,
        ) && *final(vault) == *old(vault),
{
    if !vault.authority.same_as(&authority) {
        return Err(CatflipError::Unauthorized);
    }
    vault.min_bet_lamports = min_bet_lamports;
    vault.max_exposure_bps = max_exposure_bps;
    Ok(())
}

/// Sets the house edge; only the authority may.
pub fn set_edge(vault: &mut Vault, authority: Address, house_edge_bps: u16) -> (r: Result<
    (),
    CatflipError,
>)
    ensures
        is_authority(*old(vault), authority) ==> r is Ok && *final(vault) == (Vault {
            house_edge_bps,
            ..*old(vault)
        }),
        !is_authority(*old(vault), authority) ==> r == Err::<(), CatflipError>(
            CatflipError::Unauthorized,
        ) && *final(vault) == *old(vault),
{
    if !vault.authority.same_as(&authority) {
        return Err(CatflipError::Unauthorized);
    }
    vault.house_edge_bps = house_edge_bps;
    Ok(())
}

/// Every accepted bet meets the vault's minimum, and a stake below the
/// minimum is always refused: with `BetBelowMinimum` unless betting is paused.
pub proof fn lemma_minimum_enforced(vault: Vault, balance: u64, amount: u64)
    ensures
        bet_rejection(vault, balance, amount) is None ==> amount >= vault.min_bet_lamports,
        amount < vault.min_bet_lamports ==> bet_rejection(vault, balance, amount) is Some,
        amount < vault.min_bet_lamports && !vault.is_paused ==> bet_rejection(vault, balance, amount)
            == Some(CatflipError::BetBelowMinimum),
{
}

/// Every accepted bet is at most `balance * max_exposure_bps / 10000`, and a
/// larger stake is always refused.
pub proof fn lemma_exposure_capped(vault: Vault, balance: u64, amount: u64)
    ensures
        bet_rejection(vault, balance, amount) is None ==> amount <= max_bet(
            balance,
            vault.max_exposure_bps,
        ),
        amount > max_bet(balance, vault.max_exposure_bps) ==> bet_rejection(vault, balance, amount) is Some,
{
}

/// An accepted bet's payout is `amount * 2 * (10000 - house_edge_bps) / 10000`
/// computed without overflow, and a bet whose payout computation would
/// overflow is always refused.
pub proof fn lemma_payout_exact(vault: Vault, balance: u64, amount: u64)
    ensures
        bet_rejection(vault, balance, amount) is None ==> {
            &&& !payout_overflows(amount, vault.house_edge_bps)
            &&& 0 <= payout_of(amount, vault.house_edge_bps) <= balance
        },
        payout_overflows(amount, vault.house_edge_bps) ==> bet_rejection(vault, balance, amount) is Some,
{
    if bet_rejection(vault, balance, amount) is None {
        assert(0 <= amount as int * 2 * (10000 - vault.house_edge_bps as int)) by (nonlinear_arith)
            requires
                vault.house_edge_bps <= 10000,
        ;
    }
}

/// A round is settled at most once: settling a pending round marks it
/// settled, and any later attempt on the settled round fails with
/// `BetAlreadySettled`, whatever the vault, recipient, balance and random value.
pub proof fn lemma_settles_once(
    vault: Vault,
    round: BetRound,
    player: Address,
    balance: u64,
    randomness: u64,
    later_vault: Vault,
    later_player: Address,
    later_balance: u64,
    later_randomness: u64,
)
    ensures
        settle_rejection(vault, round, player, balance, randomness) is None ==> !round.is_settled
            && round_after_settle(round, randomness).is_settled,
        settle_rejection(vault, round, player, balance, randomness) is None ==> settle_rejection(
            later_vault,
            round_after_settle(round, randomness),
            later_player,
            later_balance,
            later_randomness,
        ) == Some(CatflipError::BetAlreadySettled),
{
}

/// For a round that belongs to the refunding player, and a vault that holds
/// its stake, a refund succeeds exactly when the round is unsettled and the
/// current slot is past the round's slot plus the timeout.
pub proof fn lemma_refund_window(round: BetRound, player: Address, balance: u64, current_slot: u64)
    requires
        round.player.bytes@ == player.bytes@,
        balance >= round.stake_lamports,
    ensures
        refund_rejection(round, player, balance, current_slot) is None <==> (!round.is_settled
            && current_slot > round.slot + 150),
{
}

/// The vault's balance never goes below zero: each debit larger than the
/// balance is refused with `InsufficientVaultBalance` (settling a win,
/// refunding a stake, or accepting a bet whose payout the balance cannot cover).
pub proof fn lemma_no_overdraft(
    vault: Vault,
    round: BetRound,
    player: Address,
    balance: u64,
    amount: u64,
    randomness: u64,
    current_slot: u64,
)
    ensures
        !round.is_settled && round.player.bytes@ == player.bytes@ && is_win(randomness) && balance
            < round.potential_payout ==> settle_rejection(vault, round, player, balance, randomness)
            == Some(CatflipError::InsufficientVaultBalance),
        settle_rejection(vault, round, player, balance, randomness) is None ==> balance >= settle_payout(
            round,
            randomness,
        ),
        !round.is_settled && round.player.bytes@ == player.bytes@ && timed_out(
            round.slot,
            current_slot,
        ) && balance < round.stake_lamports ==> refund_rejection(round, player, balance, current_slot)
            == Some(CatflipError::InsufficientVaultBalance),
        refund_rejection(round, player, balance, current_slot) is None ==> balance
            >= round.stake_lamports,
        bet_rejection(vault, balance, amount) is None ==> balance >= payout_of(
            amount,
            vault.house_edge_bps,
        ),
{
}

} // verus!
