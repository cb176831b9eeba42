use catflip::error::CatflipError;
use catflip::game::Game;
use catflip::state::{Address, Clock};

fn player() -> Address {
    Address { bytes: [5u8; 32] }
}

fn funded_game() -> Game {
    let mut g = Game::new(Address { bytes: [4u8; 32] }, 1, 1000, 5000, 400);
    g.vault_lamports = 10000;
    g
}

#[test]
fn game_starts_empty() {
    let g = Game::new(Address { bytes: [4u8; 32] }, 1, 1000, 5000, 400);
    assert_eq!(g.vault_lamports, 0);
    assert!(g.rounds.is_empty());
    assert_eq!(g.vault.min_bet_lamports, 1000);
}

#[test]
fn game_bet_adds_a_pending_round() {
    let mut g = funded_game();
    assert_eq!(
        g.place_bet(player(), 500, Clock { slot: 10, unix_timestamp: 3 }, 0).unwrap_err(),
        CatflipError::BetBelowMinimum
    );
    assert!(g.rounds.is_empty());
    g.place_bet(player(), 1000, Clock { slot: 10, unix_timestamp: 3 }, 0).unwrap();
    assert_eq!(g.rounds.len(), 1);
    assert!(!g.rounds[0].is_settled);
    assert_eq!(g.rounds[0].slot, 10);
    assert_eq!(g.vault_lamports, 11000);
    assert_eq!(g.vault.total_bets, 1);
}

#[test]
fn game_settles_a_round_once() {
    let mut g = funded_game();
    g.place_bet(player(), 1000, Clock { slot: 10, unix_timestamp: 3 }, 0).unwrap();
    let ev = g.settle(0, player(), 2, 4).unwrap();
    assert!(ev.is_winner);
    assert_eq!(ev.payout, 1920);
    assert_eq!(ev.stake, 1000);
    assert_eq!(ev.player.bytes, [5u8; 32]);
    assert_eq!(ev.timestamp, 4);
    assert!(g.rounds[0].is_settled);
    assert_eq!(g.vault_lamports, 11000 - 1920);
    assert_eq!(g.vault.total_wins, 1);
    assert_eq!(g.settle(0, player(), 2, 5).unwrap_err(), CatflipError::BetAlreadySettled);
    assert_eq!(g.vault.total_wins, 1);
    assert!(g.vault.total_wins <= g.vault.total_bets);
}

#[test]
fn game_refund_removes_the_round() {
    let mut g = funded_game();
    g.place_bet(player(), 1000, Clock { slot: 10, unix_timestamp: 3 }, 0).unwrap();
    g.place_bet(player(), 2000, Clock { slot: 20, unix_timestamp: 3 }, 0).unwrap();
    assert_eq!(g.refund(0, player(), 160, 7).unwrap_err(), CatflipError::BetNotTimedOut);
    assert_eq!(g.rounds.len(), 2);
    let ev = g.refund(0, player(), 161, 7).unwrap();
    assert_eq!(ev.stake, 1000);
    assert_eq!(ev.player.bytes, [5u8; 32]);
    assert_eq!(ev.timestamp, 7);
    assert_eq!(g.rounds.len(), 1);
    assert_eq!(g.rounds[0].stake_lamports, 2000);
    assert_eq!(g.vault_lamports, 13000 - 1000);
}

#[test]
fn game_refuses_a_second_round_in_the_same_slot() {
    let mut g = funded_game();
    g.place_bet(player(), 1000, Clock { slot: 10, unix_timestamp: 3 }, 0).unwrap();
    assert_eq!(
        g.place_bet(player(), 1000, Clock { slot: 10, unix_timestamp: 4 }, 0).unwrap_err(),
        CatflipError::BetRoundExists
    );
    assert_eq!(g.rounds.len(), 1);
    assert_eq!(g.vault_lamports, 11000);
    g.place_bet(Address { bytes: [6u8; 32] }, 1000, Clock { slot: 10, unix_timestamp: 4 }, 0)
        .unwrap();
    g.place_bet(player(), 1000, Clock { slot: 11, unix_timestamp: 4 }, 0).unwrap();
    assert_eq!(g.rounds.len(), 3);
}

#[test]
fn game_settlement_checks_the_recipient() {
    let mut g = funded_game();
    g.place_bet(player(), 1000, Clock { slot: 10, unix_timestamp: 3 }, 0).unwrap();
    let other = Address { bytes: [6u8; 32] };
    assert_eq!(g.settle(0, other, 2, 4).unwrap_err(), CatflipError::Unauthorized);
    assert!(!g.rounds[0].is_settled);
}
