use vstd::prelude::*;
use crate::bytes::{le_bytes, le_u64_at, lemma_le_round_trip, put_u64_le, read_u64_le, write_u64_le};
use crate::error::DirectError;
use crate::state::{Address, Clock};

verus! {

/// An instruction of the direct-transfer game: a variant tag byte followed by
/// its one little-endian `u64` argument.
#[derive(Clone, Copy, Debug, PartialEq, Eq, Structural)]
pub enum CatflipInstruction {
    /// Creates the vault with the given minimum stake.
    Initialize { min_bet: u64 },
    /// Places a stake, settled at once.
    Bet { amount: u64 },
}

/// The bytes of an instruction.
pub open spec fn instruction_bytes(i: CatflipInstruction) -> Seq<u8> {
    match i {
        CatflipInstruction::Initialize { min_bet } => seq![0u8] + le_bytes(min_bet),
        CatflipInstruction::Bet { amount } => seq![1u8] + le_bytes(amount),
    }
}

/// Whether `s` is the encoding of some instruction.
pub open spec fn is_instruction_record(s: Seq<u8>) -> bool {
    s.len() == 9 && s[0] < 2
}

/// The instruction that an instruction record encodes.
pub open spec fn decoded_instruction(s: Seq<u8>) -> CatflipInstruction {
    if s[0] == 0 {
        CatflipInstruction::Initialize { min_bet: le_u64_at(s, 1) as u64 }
    } else {
        CatflipInstruction::Bet { amount: le_u64_at(s, 1) as u64 }
    }
}

impl CatflipInstruction {
    /// Reads an instruction; the bytes must be exactly one record.
    pub fn unpack(data: &[u8]) -> (r: Result<CatflipInstruction, DirectError>)
        ensures
            r == if is_instruction_record(data@) {
                Ok::<CatflipInstruction, DirectError>(decoded_instruction(data@))
            } else {
                Err::<CatflipInstruction, DirectError>(DirectError::InvalidInstructionData)
            },
    {
        if data.len() != 9 {
            return Err(DirectError::InvalidInstructionData);
        }
        let value = read_u64_le(data, 1);
        if data[0] == 0 {
            Ok(CatflipInstruction::Initialize { min_bet: value })
        } else if data[0] == 1 {
            Ok(CatflipInstruction::Bet { amount: value })
        } else {
            Err(DirectError::InvalidInstructionData)
        }
    }

    /// Writes the instruction's record.
    pub fn pack(&self) -> (r: Vec<u8>)
        ensures
            r@ == instruction_bytes(*self),
    {
        let mut out: Vec<u8> = Vec::new();
        match *self {
            CatflipInstruction::Initialize { min_bet } => {
                out.push(0u8);
                write_u64_le(&mut out, min_bet);
            },
            CatflipInstruction::Bet { amount } => {
                out.push(1u8);
                write_u64_le(&mut out, amount);
            },
        }
        assert(out@ =~= instruction_bytes(*self));
        out
    }
}

/// Reading an instruction's record gives the instruction back.
pub proof fn lemma_instruction_round_trip(i: CatflipInstruction)
    ensures
        is_instruction_record(instruction_bytes(i)),
        decoded_instruction(instruction_bytes(i)) == i,
{
    match i {
        CatflipInstruction::Initialize { min_bet } => {
            lemma_le_round_trip(min_bet);
            assert(le_u64_at(instruction_bytes(i), 1) == le_u64_at(le_bytes(min_bet), 0));
        },
        CatflipInstruction::Bet { amount } => {
            lemma_le_round_trip(amount);
            assert(le_u64_at(instruction_bytes(i), 1) == le_u64_at(le_bytes(amount), 0));
        },
    }
}

/// The vault record of the direct-transfer game.
#[derive(Clone, Copy, Debug)]
pub struct Vault {
    pub is_initialized: bool,
    pub authority: Address,
    pub min_bet: u64,
    pub total_bets: u64,
    pub total_volume: u64,
}

/// Offset of `min_bet` in a vault record.
pub const MIN_BET_AT: usize = 33;

/// Offset of `total_bets` in a vault record; `total_volume` follows it.
pub const TOTAL_BETS_AT: usize = 41;

/// The bytes of a vault record: the flag byte, the authority, then the three
/// counters in little-endian order.
pub open spec fn vault_bytes(v: Vault) -> Seq<u8> {
    seq![if v.is_initialized { 1u8 } else { 0u8 }] + v.authority.bytes@ + le_bytes(v.min_bet)
        + le_bytes(v.total_bets) + le_bytes(v.total_volume)
}

/// Whether `s` is a well-formed vault record: the right length and a flag byte of 0 or 1.
pub open spec fn is_vault_record(s: Seq<u8>) -> bool {
    s.len() == Vault::LEN && s[0] <= 1
}

/// Whether the vault record `s` holds `v`.
pub open spec fn decodes_to(s: Seq<u8>, v: Vault) -> bool {
    &&& v.is_initialized == (s[0] == 1)
    &&& v.authority.bytes@ == s.subrange(1, 33)
    &&& v.min_bet == le_u64_at(s, 33)
    &&& v.total_bets == le_u64_at(s, 41)
    &&& v.total_volume == le_u64_at(s, 49)
}

impl Vault {
    /// Bytes of a vault record.
    pub const LEN: usize = 1 + 32 + 8 + 8 + 8;

    /// Reads a vault record; the bytes must be exactly one record.
    pub fn unpack(data: &[u8]) -> (r: Result<Vault, DirectError>)
        ensures
            r is Ok <==> is_vault_record(data@),
            r matches Ok(v) ==> decodes_to(data@, v),
            r is Err ==> r == Err::<Vault, DirectError>(DirectError::InvalidAccountData),
    {
        if data.len() != Vault::LEN || data[0] > 1 {
            return Err(DirectError::InvalidAccountData);
        }
        let mut key = [0u8; 32];
        let mut i: usize = 0;
        while i < 32
            invariant
                i <= 32,
                data@.len() == Vault::LEN,
                key@.len() == 32,
                forall|j: int| 0 <= j < i ==> key@[j] == data@[j + 1],
            decreases 32 - i,
        {
            key[i] = data[i + 1];
            i = i + 1;
        }
        assert(key@ =~= data@.subrange(1, 33));
        Ok(Vault {
            is_initialized: data[0] == 1,
            authority: Address { bytes: key },
            min_bet: read_u64_le(data, MIN_BET_AT),
            total_bets: read_u64_le(data, TOTAL_BETS_AT),
            total_volume: read_u64_le(data, TOTAL_BETS_AT + 8),
        })
    }

    /// Writes the vault's record.
    pub fn pack(&self) -> (r: Vec<u8>)
        ensures
            r@ == vault_bytes(*self),
    {
        let mut out: Vec<u8> = Vec::new();
        out.push(if self.is_initialized { 1u8 } else { 0u8 });
        let mut i: usize = 0;
        while i < 32
            invariant
                i <= 32,
                self.authority.bytes@.len() == 32,
                out@ =~= seq![if self.is_initialized { 1u8 } else { 0u8 }]
                    + self.authority.bytes@.take(i as int),
            decreases 32 - i,
        {
            out.push(self.authority.bytes[i]);
            i = i + 1;
        }
        assert(self.authority.bytes@.take(32) =~= self.authority.bytes@);
        write_u64_le(&mut out, self.min_bet);
        write_u64_le(&mut out, self.total_bets);
        write_u64_le(&mut out, self.total_volume);
        assert(out@ =~= vault_bytes(*self));
        out
    }
}

/// Reading a vault's record gives the vault back.
pub proof fn lemma_vault_round_trip(v: Vault)
    ensures
        is_vault_record(vault_bytes(v)),
        decodes_to(vault_bytes(v), v),
{
    let s = vault_bytes(v);
    lemma_le_round_trip(v.min_bet);
    lemma_le_round_trip(v.total_bets);
    lemma_le_round_trip(v.total_volume);
    assert(s.subrange(1, 33) =~= v.authority.bytes@);
    assert(le_u64_at(s, 33) == le_u64_at(le_bytes(v.min_bet), 0));
    assert(le_u64_at(s, 41) == le_u64_at(le_bytes(v.total_bets), 0));
    assert(le_u64_at(s, 49) == le_u64_at(le_bytes(v.total_volume), 0));
}

/// What a settled direct bet came to.
#[derive(Clone, Copy, Debug, PartialEq, Eq, Structural)]
pub struct BetOutcome {
    pub is_winner: bool,
    pub payout: u64,
}

/// Why initializing fails on a signer flag and the vault account's bytes, if it does.
pub open spec fn init_rejection(is_signer: bool, s: Seq<u8>) -> Option<DirectError> {
    if !is_signer {
        Some(DirectError::MissingRequiredSignature)
    } else if s.len() > 0 && !is_vault_record(s) {
        Some(DirectError::InvalidAccountData)
    } else if s.len() > 0 && s[0] == 1 {
        Some(DirectError::AccountAlreadyInitialized)
    } else if s.len() == 0 {
        Some(DirectError::AccountDataTooSmall)
    } else {
        None
    }
}

/// Writes a fresh, initialized vault into the vault account's bytes.
pub fn initialize(account_data: &mut Vec<u8>, authority: Address, is_signer: bool, min_bet: u64) -> (r:
    Result<(), DirectError>)
    ensures
        r == match init_rejection(is_signer, old(account_data)@) {
            Some(e) => Err::<(), DirectError>(e),
            None => Ok(()),
        },
        r is Ok ==> final(account_data)@ == vault_bytes(
            Vault { is_initialized: true, authority, min_bet, total_bets: 0, total_volume: 0 },
        ),
        r is Err ==> final(account_data)@ == old(account_data)@,
{
    if !is_signer {
        return Err(DirectError::MissingRequiredSignature);
    }
    if account_data.len() == 0 {
        return Err(DirectError::AccountDataTooSmall);
    }
    match Vault::unpack(account_data.as_slice()) {
        Ok(existing) => {
            if existing.is_initialized {
                return Err(DirectError::AccountAlreadyInitialized);
            }
        },
        Err(e) => return Err(e),
    }
    let vault = Vault { is_initialized: true, authority, min_bet, total_bets: 0, total_volume: 0 };
    *account_data = vault.pack();
    Ok(())
}

/// The mixed clock value that decides a direct bet of `amount`.
pub open spec fn seed_of(clock: Clock, amount: u64) -> u64 {
    (clock.unix_timestamp as u64) ^ clock.slot ^ amount
}

/// A seed wins when its remainder by 100 is below 49.
pub open spec fn is_direct_win(seed: u64) -> bool {
    seed % 100 < 49
}

/// What a winning direct stake pays: 1.96 times the stake, rounded down.
pub open spec fn direct_payout(amount: u64) -> int {
    amount as int * 196 / 100
}

/// The payout of a winning stake of `amount` when `funds` cover it; `None`
/// when they do not (also when the payout exceeds the range of `u64`).
pub fn covered_payout(amount: u64, funds: u64) -> (r: Option<u64>)
    ensures
        r == if direct_payout(amount) <= funds {
            Some(direct_payout(amount) as u64)
        } else {
            None::<u64>
        },
{
    let hundreds = amount / 100;
    let rest = amount % 100;
    let extra = rest * 196 / 100;
    assert(direct_payout(amount) == hundreds * 196 + extra) by (nonlinear_arith)
        requires
            hundreds == amount / 100,
            rest == amount % 100,
            extra == rest * 196 / 100,
    {
        assert(amount == 100 * hundreds + rest);
        assert(amount * 196 == 100 * (196 * hundreds) + rest * 196);
    }
    let base = match hundreds.checked_mul(196) {
        Some(b) => b,
        None => return None,
    };
    if base > funds || extra > funds - base {
        None
    } else {
        Some(base + extra)
    }
}

/// Why a direct bet fails, if it does: `s` is the vault account's bytes and
/// `balance` its lamports before the stake arrives.
pub open spec fn direct_bet_rejection(
    s: Seq<u8>,
    balance: u64,
    is_signer: bool,
    amount: u64,
    clock: Clock,
) -> Option<DirectError> {
    let win = is_direct_win(seed_of(clock, amount));
    if !is_signer {
        Some(DirectError::MissingRequiredSignature)
    } else if !is_vault_record(s) {
        Some(DirectError::InvalidAccountData)
    } else if s[0] == 0 {
        Some(DirectError::UninitializedAccount)
    } else if amount < le_u64_at(s, 33) {
        Some(DirectError::InvalidArgument)
    } else if balance as int + amount as int > u64::MAX {
        Some(DirectError::ArithmeticOverflow)
    } else if win && (balance as int + amount as int) < direct_payout(amount) {
        Some(DirectError::InsufficientFunds)
    } else if le_u64_at(s, 41) + 1 > u64::MAX || le_u64_at(s, 49) + amount as int > u64::MAX {
        Some(DirectError::ArithmeticOverflow)
    } else {
        None
    }
}

/// The outcome of an accepted direct bet of `amount` at `clock`.
pub open spec fn direct_outcome(clock: Clock, amount: u64) -> BetOutcome {
    if is_direct_win(seed_of(clock, amount)) {
        BetOutcome { is_winner: true, payout: direct_payout(amount) as u64 }
    } else {
        BetOutcome { is_winner: false, payout: 0 }
    }
}

/// Takes a stake into the vault and settles it at once from the clock: a win
/// pays 1.96 times the stake out of the vault. The vault's counters in its
/// record grow. On any error nothing changes.
pub fn bet(
    account_data: &mut Vec<u8>,
    vault_lamports: &mut u64,
    is_signer: bool,
    amount: u64,
    clock: Clock,
) -> (r: Result<BetOutcome, DirectError>)
    ensures
        match direct_bet_rejection(old(account_data)@, *old(vault_lamports), is_signer, amount, clock) {
            Some(e) => {
                &&& r == Err::<BetOutcome, DirectError>(e)
                &&& final(account_data)@ == old(account_data)@
                &&& *final(vault_lamports) == *old(vault_lamports)
            },
            None => {
                &&& r == Ok::<BetOutcome, DirectError>(direct_outcome(clock, amount))
                &&& *final(vault_lamports) == *old(vault_lamports) + amount - direct_outcome(
                    clock,
                    amount,
                ).payout
                &&& final(account_data)@ == old(account_data)@.subrange(0, 41) + le_bytes(
                    (le_u64_at(old(account_data)@, 41) + 1) as u64,
                ) + le_bytes((le_u64_at(old(account_data)@, 49) + amount) as u64)
            },
        },
{
    if !is_signer {
        return Err(DirectError::MissingRequiredSignature);
    }
    let vault = match Vault::unpack(account_data.as_slice()) {
        Ok(v) => v,
        Err(e) => return Err(e),
    };
    if !vault.is_initialized {
        return Err(DirectError::UninitializedAccount);
    }
    if amount < vault.min_bet {
        return Err(DirectError::InvalidArgument);
    }
    let funded = match vault_lamports.checked_add(amount) {
        Some(b) => b,
        None => return Err(DirectError::ArithmeticOverflow),
    };
    let seed = (clock.unix_timestamp as u64) ^ clock.slot ^ amount;
    let is_winner = seed % 100 < 49;
    let mut payout: u64 = 0;
    if is_winner {
        payout = match covered_payout(amount, funded) {
            Some(p) => p,
            None => return Err(DirectError::InsufficientFunds),
        };
    }
    let total_bets = match vault.total_bets.checked_add(1) {
        Some(t) => t,
        None => return Err(DirectError::ArithmeticOverflow),
    };
    let total_volume = match vault.total_volume.checked_add(amount) {
        Some(t) => t,
        None => return Err(DirectError::ArithmeticOverflow),
    };
    let ghost before = account_data@;
    put_u64_le(account_data, TOTAL_BETS_AT, total_bets);
    put_u64_le(account_data, TOTAL_BETS_AT + 8, total_volume);
    assert(account_data@ =~= before.subrange(0, 41) + le_bytes(total_bets) + le_bytes(total_volume));
    *vault_lamports = funded - payout;
    Ok(BetOutcome { is_winner, payout })
}

/// The entropy a player's identity adds: its first eight bytes, little-endian.
pub open spec fn key_entropy(player: Address) -> u64 {
    le_u64_at(player.bytes@, 0) as u64
}

/// Why a bet that moves lamports between player and house fails, if it does.
/// `data` is the instruction's bytes, whose first eight hold the stake.
pub open spec fn player_bet_rejection(
    data: Seq<u8>,
    is_signer: bool,
    player: Address,
    player_balance: u64,
    house_balance: u64,
    clock: Clock,
) -> Option<DirectError> {
    let amount = le_u64_at(data, 0) as u64;
    let win = is_direct_win(seed_of(clock, amount) ^ key_entropy(player));
    if data.len() < 8 {
        Some(DirectError::InvalidInstructionData)
    } else if !is_signer {
        Some(DirectError::MissingRequiredSignature)
    } else if player_balance < amount {
        Some(DirectError::InsufficientFunds)
    } else if house_balance + amount > u64::MAX {
        Some(DirectError::ArithmeticOverflow)
    } else if win && (house_balance + amount) < direct_payout(amount) {
        Some(DirectError::InsufficientFunds)
    } else if win && player_balance - amount + direct_payout(amount) > u64::MAX {
        Some(DirectError::ArithmeticOverflow)
    } else {
        None
    }
}

/// Takes a stake read from the instruction's bytes from the player into the
/// house and settles it at once, with the seed also mixed with the player's
/// identity: a win then pays 1.96 times the stake from the house to the
/// player, a loss leaves the stake with the house. On any error nothing changes.
pub fn player_bet(
    instruction_data: &[u8],
    is_signer: bool,
    player: Address,
    player_lamports: &mut u64,
    house_lamports: &mut u64,
    clock: Clock,
) -> (r: Result<BetOutcome, DirectError>)
    ensures
        match player_bet_rejection(
            instruction_data@,
            is_signer,
            player,
            *old(player_lamports),
            *old(house_lamports),
            clock,
        ) {
            Some(e) => {
                &&& r == Err::<BetOutcome, DirectError>(e)
                &&& *final(player_lamports) == *old(player_lamports)
                &&& *final(house_lamports) == *old(house_lamports)
            },
            None => {
                let amount = le_u64_at(instruction_data@, 0) as u64;
                if is_direct_win(seed_of(clock, amount) ^ key_entropy(player)) {
                    &&& r == Ok::<BetOutcome, DirectError>(
                        BetOutcome { is_winner: true, payout: direct_payout(amount) as u64 },
                    )
                    &&& *final(player_lamports) == *old(player_lamports) - amount + direct_payout(
                        amount,
                    )
                    &&& *final(house_lamports) == *old(house_lamports) + amount - direct_payout(
                        amount,
                    )
                } else {
                    &&& r == Ok::<BetOutcome, DirectError>(
                        BetOutcome { is_winner: false, payout: 0 },
                    )
                    &&& *final(player_lamports) == *old(player_lamports) - amount
                    &&& *final(house_lamports) == *old(house_lamports) + amount
                }
            },
        },
{
    if instruction_data.len() < 8 {
        return Err(DirectError::InvalidInstructionData);
    }
    if !is_signer {
        return Err(DirectError::MissingRequiredSignature);
    }
    let amount = read_u64_le(instruction_data, 0);
    let entropy = read_u64_le(player.bytes.as_slice(), 0);
    let seed = (clock.unix_timestamp as u64) ^ clock.slot ^ amount;
    if *player_lamports < amount {
        return Err(DirectError::InsufficientFunds);
    }
    let staked_player = *player_lamports - amount;
    let staked_house = match house_lamports.checked_add(amount) {
        Some(b) => b,
        None => return Err(DirectError::ArithmeticOverflow),
    };
    if (seed ^ entropy) % 100 < 49 {
        let payout = match covered_payout(amount, staked_house) {
            Some(p) => p,
            None => return Err(DirectError::InsufficientFunds),
        };
        let credited = match staked_player.checked_add(payout) {
            Some(b) => b,
            None => return Err(DirectError::ArithmeticOverflow),
        };
        *house_lamports = staked_house - payout;
        *player_lamports = credited;
        Ok(BetOutcome { is_winner: true, payout })
    } else {
        *player_lamports = staked_player;
        *house_lamports = staked_house;
        Ok(BetOutcome { is_winner: false, payout: 0 })
    }
}

/// No balance is debited below zero in the direct game: a payout the funds
/// cannot cover, or a stake the player does not hold, is refused with
/// `InsufficientFunds`, and an accepted bet is always covered: the player
/// holds the stake, and the funds with the stake hold any payout.
pub proof fn lemma_direct_no_overdraft(
    s: Seq<u8>,
    data: Seq<u8>,
    is_signer: bool,
    player: Address,
    balance: u64,
    player_balance: u64,
    house_balance: u64,
    amount: u64,
    clock: Clock,
)
    ensures
        direct_bet_rejection(s, balance, is_signer, amount, clock) is None ==> balance + amount
            >= direct_outcome(clock, amount).payout,
        is_signer && is_vault_record(s) && s[0] == 1 && amount >= le_u64_at(s, 33) && balance
            + amount <= u64::MAX && is_direct_win(seed_of(clock, amount)) && (balance + amount)
            < direct_payout(amount) ==> direct_bet_rejection(
            s,
            balance,
            is_signer,
            amount,
            clock,
        ) == Some(DirectError::InsufficientFunds),
        player_bet_rejection(data, is_signer, player, player_balance, house_balance, clock) is None
            ==> {
            let amount = le_u64_at(data, 0) as u64;
            &&& player_balance >= amount
            &&& is_direct_win(seed_of(clock, amount) ^ key_entropy(player)) ==> house_balance
                + amount >= direct_payout(amount)
        },
        data.len() >= 8 && is_signer && player_balance < le_u64_at(data, 0) ==> player_bet_rejection(
            data,
            is_signer,
            player,
            player_balance,
            house_balance,
            clock,
        ) == Some(DirectError::InsufficientFunds),
        ({
            let amount = le_u64_at(data, 0) as u64;
            &&& data.len() >= 8
            &&& is_signer
            &&& player_balance >= amount
            &&& house_balance + amount <= u64::MAX
            &&& is_direct_win(seed_of(clock, amount) ^ key_entropy(player))
            &&& (house_balance + amount) < direct_payout(amount)
        }) ==> player_bet_rejection(data, is_signer, player, player_balance, house_balance, clock)
            == Some(DirectError::InsufficientFunds),
{
}

} // verus!
