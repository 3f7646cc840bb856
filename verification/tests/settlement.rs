use treasure_board::board::BoardSize;
use treasure_board::errors::GameError;
use treasure_board::game::NearTreasureBoardGame;
use treasure_board::hashing::solution_digest;
use treasure_board::settle::seed_from_entropy;
use treasure_board::units::to_yocto;

fn acct(name: &str) -> String {
    String::from(name)
}

fn entropy() -> Vec<u8> {
    vec![7u8; 32]
}

/// A Small board whose commitment matches `solution`, with slots 2 and 3
/// claimed, owned and half-played by armin.
fn small_board_ready(solution: &Vec<u8>) -> NearTreasureBoardGame {
    let mut contract = NearTreasureBoardGame::default();
    contract
        .new_game(BoardSize::Small, solution_digest(solution), acct("armin.near"), to_yocto(4))
        .unwrap();
    contract.play(1, 2, acct("armin.near"), to_yocto(4)).unwrap();
    contract.play(1, 3, acct("armin.near"), to_yocto(4)).unwrap();
    contract
}

#[test]
fn reveal_succeeds() {
    let solution: Vec<u8> = vec![0, 1, 67, 45, 45, 32, 45, 0];
    let mut contract = small_board_ready(&solution);
    let r = contract.reveal_solution(1, solution, acct("armin.near"), &entropy());
    assert!(r.is_ok());
}

#[test]
fn reveal_by_non_creator_fails() {
    let solution: Vec<u8> = vec![0, 1, 67, 45, 45, 32, 45, 0];
    let mut contract = small_board_ready(&solution);
    let r = contract.reveal_solution(1, solution, acct("mallory.near"), &entropy());
    assert_eq!(r.err(), Some(GameError::Unauthorized));
}

#[test]
fn reveal_before_board_full_fails() {
    let solution: Vec<u8> = vec![0, 1];
    let mut contract = NearTreasureBoardGame::default();
    contract
        .new_game(BoardSize::Small, solution_digest(&solution), acct("armin.near"), to_yocto(4))
        .unwrap();
    contract.play(1, 0, acct("bob.near"), to_yocto(1)).unwrap();
    let r = contract.reveal_solution(1, solution, acct("armin.near"), &entropy());
    assert_eq!(r.err(), Some(GameError::BoardNotClosed));
}

#[test]
fn reveal_missing_game_fails() {
    let mut contract = NearTreasureBoardGame::default();
    let r = contract.reveal_solution(9, vec![0, 1], acct("armin.near"), &entropy());
    assert_eq!(r.err(), Some(GameError::GameNotFound));
}

#[test]
fn reveal_with_mutated_solution_fails() {
    let solution: Vec<u8> = vec![0, 1, 67, 45, 45, 32, 45, 0];
    let mut contract = small_board_ready(&solution);
    // flip a single byte: the digest no longer matches the commitment
    let mut mutated = solution.clone();
    mutated[4] = 46;
    let r = contract.reveal_solution(1, mutated, acct("armin.near"), &entropy());
    assert_eq!(r.err(), Some(GameError::SolutionHashMismatch));
    // the board is untouched and the true solution still reveals
    let r2 = contract.reveal_solution(1, solution, acct("armin.near"), &entropy());
    assert!(r2.is_ok());
}

#[test]
fn reveal_with_short_solution_fails() {
    let solution: Vec<u8> = vec![0];
    let mut contract = small_board_ready(&solution);
    let r = contract.reveal_solution(1, solution, acct("armin.near"), &entropy());
    assert_eq!(r.err(), Some(GameError::SolutionSizeInvalid));
}

#[test]
fn reveal_twice_fails() {
    let solution: Vec<u8> = vec![0, 1, 67, 45, 45, 32, 45, 0];
    let mut contract = small_board_ready(&solution);
    contract.reveal_solution(1, solution.clone(), acct("armin.near"), &entropy()).unwrap();
    let r = contract.reveal_solution(1, solution, acct("armin.near"), &entropy());
    assert_eq!(r.err(), Some(GameError::BoardNotClosed));
}

#[test]
fn reveal_all_bombs_pays_creator_everything() {
    // bombs on slots 0 and 1, and exactly those slots are claimed: both
    // claimants forfeit their stake, and the whole pool drains to the creator
    let solution: Vec<u8> = vec![0, 1, 99];
    let mut contract = NearTreasureBoardGame::default();
    contract
        .new_game(BoardSize::Small, solution_digest(&solution), acct("armin.near"), to_yocto(4))
        .unwrap();
    contract.play(1, 0, acct("bob.near"), to_yocto(1)).unwrap();
    contract.play(1, 1, acct("carol.near"), to_yocto(1)).unwrap();
    let payouts = contract.reveal_solution(1, solution, acct("armin.near"), &entropy()).unwrap();
    assert_eq!(payouts.len(), 1);
    assert_eq!(payouts[0].account, acct("armin.near"));
    assert_eq!(payouts[0].amount, to_yocto(4) + 2 * to_yocto(1));
}

#[test]
fn reveal_conserves_deposit_and_stakes() {
    // bombs on 0 and 1 are unclaimed; the claimed slots 2 and 3 hold treasure
    let solution: Vec<u8> = vec![0, 1, 67, 45, 45, 32, 45, 0];
    let mut contract = NearTreasureBoardGame::default();
    contract
        .new_game(BoardSize::Small, solution_digest(&solution), acct("armin.near"), to_yocto(4))
        .unwrap();
    contract.play(1, 2, acct("bob.near"), to_yocto(1)).unwrap();
    contract.play(1, 3, acct("carol.near"), to_yocto(1)).unwrap();
    let payouts = contract.reveal_solution(1, solution, acct("armin.near"), &entropy()).unwrap();
    let total: u128 = payouts.iter().map(|p| p.amount).sum();
    assert_eq!(total, to_yocto(4) + 2 * to_yocto(1));
    // both claimants got at least their stake back
    for p in &payouts {
        if p.account != acct("armin.near") {
            assert!(p.amount >= to_yocto(1));
        }
    }
    // no account is listed twice
    for (i, p) in payouts.iter().enumerate() {
        for q in payouts.iter().skip(i + 1) {
            assert_ne!(p.account, q.account);
        }
    }
}

#[test]
fn reveal_is_deterministic_for_fixed_entropy() {
    let solution: Vec<u8> = vec![0, 1, 67, 45, 45, 32, 45, 0];
    let mut a = small_board_ready(&solution);
    let mut b = small_board_ready(&solution);
    let pa = a.reveal_solution(1, solution.clone(), acct("armin.near"), &entropy()).unwrap();
    let pb = b.reveal_solution(1, solution, acct("armin.near"), &entropy()).unwrap();
    assert_eq!(pa.len(), pb.len());
    for (x, y) in pa.iter().zip(pb.iter()) {
        assert_eq!(x.account, y.account);
        assert_eq!(x.amount, y.amount);
    }
}

#[test]
fn solution_digest_is_sha256() {
    // the SHA-256 of the empty byte string, a published test vector
    let empty: Vec<u8> = vec![];
    let digest = solution_digest(&empty);
    let expected: Vec<u8> = vec![
        0xe3, 0xb0, 0xc4, 0x42, 0x98, 0xfc, 0x1c, 0x14, 0x9a, 0xfb, 0xf4, 0xc8, 0x99, 0x6f, 0xb9,
        0x24, 0x27, 0xae, 0x41, 0xe4, 0x64, 0x9b, 0x93, 0x4c, 0xa4, 0x95, 0x99, 0x1b, 0x78, 0x52,
        0xb8, 0x55,
    ];
    assert_eq!(digest, expected);
    // the digest of a value is not the value handed back
    let sample: Vec<u8> = vec![1, 2, 3];
    let d = solution_digest(&sample);
    assert_eq!(d.len(), 32);
    assert_ne!(d, sample);
}

#[test]
fn seed_folds_first_eight_bytes() {
    // each of eight one-bytes is weighted by 8 xor its position:
    // 8 + 9 + 10 + 11 + 12 + 13 + 14 + 15 = 92
    let e: Vec<u8> = vec![1, 1, 1, 1, 1, 1, 1, 1, 200, 200];
    assert_eq!(seed_from_entropy(&e), 92);
    let zero: Vec<u8> = vec![0u8; 32];
    assert_eq!(seed_from_entropy(&zero), 0);
}
