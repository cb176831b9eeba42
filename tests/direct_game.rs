use catflip::direct::{bet, initialize, player_bet, BetOutcome, CatflipInstruction, Vault};
use catflip::error::DirectError;
use catflip::state::{Address, Clock};

fn zero_clock() -> Clock {
    Clock { slot: 0, unix_timestamp: 0 }
}

fn initialized(min_bet: u64) -> Vec<u8> {
    let mut data = vec![0u8; Vault::LEN];
    initialize(&mut data, Address { bytes: [3u8; 32] }, true, min_bet).unwrap();
    data
}

#[test]
fn instruction_bytes_are_read() {
    let mut data = vec![0u8, 0xe8, 0x03, 0, 0, 0, 0, 0, 0];
    assert_eq!(
        CatflipInstruction::unpack(&data),
        Ok(CatflipInstruction::Initialize { min_bet: 1000 })
    );
    data[0] = 1;
    data[8] = 1;
    assert_eq!(
        CatflipInstruction::unpack(&data),
        Ok(CatflipInstruction::Bet { amount: 1000 + (1u64 << 56) })
    );
}

#[test]
fn malformed_instructions_are_refused() {
    let bad = [
        vec![2u8, 0, 0, 0, 0, 0, 0, 0, 0],
        vec![0u8, 0, 0, 0, 0, 0, 0, 0],
        vec![0u8, 0, 0, 0, 0, 0, 0, 0, 0, 0],
        vec![],
    ];
    for data in bad.iter() {
        assert_eq!(
            CatflipInstruction::unpack(data),
            Err(DirectError::InvalidInstructionData)
        );
    }
}

#[test]
fn instruction_round_trip() {
    for i in [
        CatflipInstruction::Initialize { min_bet: 0 },
        CatflipInstruction::Bet { amount: u64::MAX },
        CatflipInstruction::Bet { amount: 0x0102_0304_0506_0708 },
    ] {
        let bytes = i.pack();
        assert_eq!(bytes.len(), 9);
        assert_eq!(CatflipInstruction::unpack(&bytes), Ok(i));
    }
    assert_eq!(
        CatflipInstruction::Bet { amount: 0x0102_0304_0506_0708 }.pack(),
        vec![1u8, 8, 7, 6, 5, 4, 3, 2, 1]
    );
}

#[test]
fn vault_record_layout() {
    let v = Vault {
        is_initialized: true,
        authority: Address { bytes: [9u8; 32] },
        min_bet: 1000,
        total_bets: 2,
        total_volume: 0x0100,
    };
    let bytes = v.pack();
    assert_eq!(bytes.len(), 57);
    assert_eq!(Vault::LEN, 57);
    assert_eq!(bytes[0], 1);
    assert_eq!(&bytes[1..33], &[9u8; 32]);
    assert_eq!(&bytes[33..41], &[0xe8, 0x03, 0, 0, 0, 0, 0, 0]);
    assert_eq!(&bytes[41..49], &[2, 0, 0, 0, 0, 0, 0, 0]);
    assert_eq!(&bytes[49..57], &[0, 1, 0, 0, 0, 0, 0, 0]);
    let back = Vault::unpack(&bytes).unwrap();
    assert!(back.is_initialized);
    assert_eq!(back.authority.bytes, [9u8; 32]);
    assert_eq!((back.min_bet, back.total_bets, back.total_volume), (1000, 2, 0x0100));
}

#[test]
fn malformed_vault_records_are_refused() {
    let mut bytes = vec![0u8; 57];
    bytes[0] = 2;
    assert_eq!(Vault::unpack(&bytes).unwrap_err(), DirectError::InvalidAccountData);
    assert_eq!(Vault::unpack(&[0u8; 56]).unwrap_err(), DirectError::InvalidAccountData);
    assert_eq!(Vault::unpack(&[0u8; 58]).unwrap_err(), DirectError::InvalidAccountData);
}

#[test]
fn initialize_writes_a_fresh_vault() {
    let data = initialized(1000);
    let v = Vault::unpack(&data).unwrap();
    assert!(v.is_initialized);
    assert_eq!(v.authority.bytes, [3u8; 32]);
    assert_eq!((v.min_bet, v.total_bets, v.total_volume), (1000, 0, 0));
}

#[test]
fn initialize_refusals() {
    let who = Address { bytes: [3u8; 32] };
    let mut data = vec![0u8; Vault::LEN];
    assert_eq!(initialize(&mut data, who, false, 1).unwrap_err(), DirectError::MissingRequiredSignature);
    assert_eq!(data, vec![0u8; Vault::LEN]);
    let mut empty: Vec<u8> = Vec::new();
    assert_eq!(initialize(&mut empty, who, true, 1).unwrap_err(), DirectError::AccountDataTooSmall);
    let mut short = vec![0u8; 10];
    assert_eq!(initialize(&mut short, who, true, 1).unwrap_err(), DirectError::InvalidAccountData);
    let mut done = initialized(1000);
    let before = done.clone();
    assert_eq!(initialize(&mut done, who, true, 1).unwrap_err(), DirectError::AccountAlreadyInitialized);
    assert_eq!(done, before);
}

#[test]
fn direct_bet_below_minimum_is_refused() {
    let mut data = initialized(1000);
    let mut balance: u64 = 5000;
    let r = bet(&mut data, &mut balance, true, 500, zero_clock());
    assert_eq!(r.unwrap_err(), DirectError::InvalidArgument);
    assert_eq!(balance, 5000);
}

#[test]
fn direct_bet_win_pays_out() {
    let mut data = initialized(1000);
    let mut balance: u64 = 5000;
    let r = bet(&mut data, &mut balance, true, 1000, zero_clock()).unwrap();
    assert_eq!(r, BetOutcome { is_winner: true, payout: 1960 });
    assert_eq!(balance, 5000 + 1000 - 1960);
    let v = Vault::unpack(&data).unwrap();
    assert_eq!((v.min_bet, v.total_bets, v.total_volume), (1000, 1, 1000));
}

#[test]
fn direct_bet_loss_keeps_stake() {
    let mut data = initialized(1000);
    let mut balance: u64 = 5000;
    let r = bet(&mut data, &mut balance, true, 1099, zero_clock()).unwrap();
    assert_eq!(r, BetOutcome { is_winner: false, payout: 0 });
    assert_eq!(balance, 6099);
    let v = Vault::unpack(&data).unwrap();
    assert_eq!((v.total_bets, v.total_volume), (1, 1099));
}

#[test]
fn direct_bet_seed_mixes_the_clock() {
    let mut data = initialized(0);
    let mut balance: u64 = 5000;
    let clock = Clock { slot: 50, unix_timestamp: 0 };
    let r = bet(&mut data, &mut balance, true, 1000, clock).unwrap();
    assert!(!r.is_winner);
}

#[test]
fn direct_bet_refusals() {
    let mut data = initialized(1000);
    let mut balance: u64 = 0;
    assert_eq!(
        bet(&mut data, &mut balance, true, 1000, zero_clock()).unwrap_err(),
        DirectError::InsufficientFunds
    );
    assert_eq!(
        bet(&mut data, &mut balance, false, 1000, zero_clock()).unwrap_err(),
        DirectError::MissingRequiredSignature
    );
    let mut fresh = vec![0u8; Vault::LEN];
    assert_eq!(
        bet(&mut fresh, &mut balance, true, 1000, zero_clock()).unwrap_err(),
        DirectError::UninitializedAccount
    );
    let mut big: u64 = u64::MAX;
    assert_eq!(
        bet(&mut data, &mut big, true, 1099, zero_clock()).unwrap_err(),
        DirectError::ArithmeticOverflow
    );
    let mut rich: u64 = 1000;
    assert_eq!(
        bet(&mut data, &mut rich, true, u64::MAX - 1015, zero_clock()).unwrap_err(),
        DirectError::InsufficientFunds
    );
    let v = Vault::unpack(&data).unwrap();
    assert_eq!(v.total_bets, 0);
}

#[test]
fn player_bet_win_and_loss() {
    let data = 1000u64.to_le_bytes();
    let plain = Address { bytes: [0u8; 32] };
    let (mut p, mut h) = (5000u64, 10000u64);
    let r = player_bet(&data, true, plain, &mut p, &mut h, zero_clock()).unwrap();
    assert_eq!(r, BetOutcome { is_winner: true, payout: 1960 });
    assert_eq!((p, h), (5000 - 1000 + 1960, 10000 + 1000 - 1960));

    let mut key = [0u8; 32];
    key[0] = 50;
    let (mut p, mut h) = (5000u64, 10000u64);
    let r = player_bet(&data, true, Address { bytes: key }, &mut p, &mut h, zero_clock()).unwrap();
    assert_eq!(r, BetOutcome { is_winner: false, payout: 0 });
    assert_eq!((p, h), (4000, 11000));
}

#[test]
fn player_bet_refusals() {
    let plain = Address { bytes: [0u8; 32] };
    let (mut p, mut h) = (500u64, 1000u64);
    assert_eq!(
        player_bet(&[1, 2, 3], true, plain, &mut p, &mut h, zero_clock()).unwrap_err(),
        DirectError::InvalidInstructionData
    );
    let data = 1000u64.to_le_bytes();
    assert_eq!(
        player_bet(&data, false, plain, &mut p, &mut h, zero_clock()).unwrap_err(),
        DirectError::MissingRequiredSignature
    );
    assert_eq!(
        player_bet(&data, true, plain, &mut p, &mut h, zero_clock()).unwrap_err(),
        DirectError::InsufficientFunds
    );
    let lose = 1099u64.to_le_bytes();
    assert_eq!(
        player_bet(&lose, true, plain, &mut p, &mut h, zero_clock()).unwrap_err(),
        DirectError::InsufficientFunds
    );
    assert_eq!((p, h), (500, 1000));

    let (mut p, mut h) = (5000u64, 900u64);
    assert_eq!(
        player_bet(&data, true, plain, &mut p, &mut h, zero_clock()).unwrap_err(),
        DirectError::InsufficientFunds
    );
    assert_eq!((p, h), (5000, 900));

    let (mut p, mut h) = (5000u64, u64::MAX - 999);
    assert_eq!(
        player_bet(&data, true, plain, &mut p, &mut h, zero_clock()).unwrap_err(),
        DirectError::ArithmeticOverflow
    );
}

#[test]
fn player_bet_large_stake_pays_exactly() {
    let amount: u64 = 100_000_000_000_000_000;
    let data = amount.to_le_bytes();
    let plain = Address { bytes: [0u8; 32] };
    let (mut p, mut h) = (amount, amount);
    let r = player_bet(&data, true, plain, &mut p, &mut h, zero_clock()).unwrap();
    assert_eq!(r.payout, 196_000_000_000_000_000);
    assert_eq!((p, h), (196_000_000_000_000_000, 4_000_000_000_000_000));

    let (mut p, mut h) = (amount, 0u64);
    assert_eq!(
        player_bet(&data, true, plain, &mut p, &mut h, zero_clock()).unwrap_err(),
        DirectError::InsufficientFunds
    );
}

#[test]
fn direct_bet_large_stake_pays_exactly() {
    let amount: u64 = 100_000_000_000_000_000;
    let mut data = initialized(0);
    let mut balance: u64 = amount;
    let r = bet(&mut data, &mut balance, true, amount, zero_clock()).unwrap();
    assert_eq!(r, BetOutcome { is_winner: true, payout: 196_000_000_000_000_000 });
    assert_eq!(balance, 4_000_000_000_000_000);

    let mut empty: u64 = 0;
    assert_eq!(
        bet(&mut data, &mut empty, true, amount, zero_clock()).unwrap_err(),
        DirectError::InsufficientFunds
    );
    assert_eq!(empty, 0);
}
