use treasure_board::board::BoardSize;
use treasure_board::errors::GameError;
use treasure_board::game::NearTreasureBoardGame;
use treasure_board::units::{to_bytearray, to_yocto, YOCTO_PER_NEAR};

fn acct(name: &str) -> String {
    String::from(name)
}

#[test]
fn newgame() {
    let mut contract = NearTreasureBoardGame::default();
    let r = contract.new_game(BoardSize::Small, vec![1, 2, 3, 4], acct("armin.near"), to_yocto(4));
    assert!(r.is_ok());
    assert_eq!(contract.games()[0].id, 1);
}

#[test]
fn newgame_low_funds() {
    let mut contract = NearTreasureBoardGame::default();
    let r = contract.new_game(
        BoardSize::Big,
        vec![65, 65, 65, 65, 65],
        acct("armin.near"),
        to_yocto(4),
    );
    assert_eq!(r, Err(GameError::InsufficientDeposit));
    assert_eq!(contract.games().len(), 0);
}

#[test]
fn play() {
    let mut contract = NearTreasureBoardGame::default();
    contract
        .new_game(BoardSize::Small, vec![65, 65, 65, 65, 65], acct("armin.near"), to_yocto(4))
        .unwrap();
    contract.play(1, 0, acct("armin.near"), to_yocto(4)).unwrap();
    let board = contract.get_game(1).unwrap();
    assert_eq!(board.answers[0].slot, 0);
    assert_eq!(board.answers[0].player, acct("armin.near"));
}

#[test]
fn play_invalid_game() {
    let mut contract = NearTreasureBoardGame::default();
    let r = contract.play(10000, 1, acct("armin.near"), to_yocto(1));
    assert_eq!(r, Err(GameError::GameNotFound));
}

#[test]
fn play_duplicate() {
    let mut contract = NearTreasureBoardGame::default();
    contract
        .new_game(BoardSize::Small, vec![65, 65, 65, 65, 65], acct("armin.near"), to_yocto(4))
        .unwrap();
    contract.play(1, 1, acct("armin.near"), to_yocto(4)).unwrap();
    let r = contract.play(1, 1, acct("armin.near"), to_yocto(4));
    assert_eq!(r, Err(GameError::SlotTaken));
    // the failed claim left the assignments unchanged
    let board = contract.get_game(1).unwrap();
    assert_eq!(board.answers.len(), 1);
    assert_eq!(board.answers[0].slot, 1);
}

#[test]
fn play_low_fund() {
    let mut contract = NearTreasureBoardGame::default();
    contract
        .new_game(BoardSize::Small, vec![65, 65, 65, 65, 65], acct("armin.near"), to_yocto(4))
        .unwrap();
    let r = contract.play(1, 1, acct("ethuil.near"), to_yocto(0));
    assert_eq!(r, Err(GameError::InsufficientDeposit));
    assert_eq!(contract.get_game(1).unwrap().answers.len(), 0);
}

#[test]
fn play_closed_game() {
    let mut contract = NearTreasureBoardGame::default();
    contract
        .new_game(BoardSize::Small, vec![65, 65, 65, 65, 65], acct("armin.near"), to_yocto(4))
        .unwrap();
    contract.play(1, 0, acct("armin.near"), to_yocto(4)).unwrap();
    contract.play(1, 1, acct("armin.near"), to_yocto(4)).unwrap();
    let r = contract.play(1, 2, acct("armin.near"), to_yocto(4));
    assert_eq!(r, Err(GameError::BoardClosed));
    assert_eq!(contract.get_game(1).unwrap().answers.len(), 2);
}

#[test]
fn play_out_of_range() {
    let mut contract = NearTreasureBoardGame::default();
    contract
        .new_game(BoardSize::Small, vec![65, 65, 65, 65, 65], acct("armin.near"), to_yocto(4))
        .unwrap();
    let r = contract.play(1, 4, acct("bob.near"), to_yocto(1));
    assert_eq!(r, Err(GameError::SlotOutOfRange));
    assert_eq!(contract.get_game(1).unwrap().answers.len(), 0);
}

#[test]
fn third_claim_before_closure_succeeds() {
    // a Medium board holds eight claims; a third claim is fine while it is open
    let mut contract = NearTreasureBoardGame::default();
    contract
        .new_game(BoardSize::Medium, vec![0], acct("armin.near"), to_yocto(16))
        .unwrap();
    contract.play(1, 0, acct("a.near"), to_yocto(1)).unwrap();
    contract.play(1, 1, acct("b.near"), to_yocto(1)).unwrap();
    contract.play(1, 2, acct("c.near"), to_yocto(1)).unwrap();
    assert_eq!(contract.get_game(1).unwrap().answers.len(), 3);
}

#[test]
fn get_game_missing() {
    let contract = NearTreasureBoardGame::default();
    assert_eq!(contract.get_game(7).err(), Some(GameError::GameNotFound));
}

#[test]
fn games_lists_in_ascending_id_order() {
    let mut contract = NearTreasureBoardGame::new(10);
    contract.new_game(BoardSize::Small, vec![1], acct("a.near"), to_yocto(4)).unwrap();
    contract.new_game(BoardSize::Medium, vec![2], acct("b.near"), to_yocto(16)).unwrap();
    contract.new_game(BoardSize::Big, vec![3], acct("c.near"), to_yocto(36)).unwrap();
    contract.play(11, 5, acct("d.near"), to_yocto(1)).unwrap();
    contract.play(11, 3, acct("e.near"), to_yocto(1)).unwrap();
    let listing = contract.games();
    assert_eq!(listing.len(), 3);
    assert_eq!(listing[0].id, 10);
    assert_eq!(listing[1].id, 11);
    assert_eq!(listing[2].id, 12);
    assert!(listing[1].size == BoardSize::Medium);
    // claimed slots come out in claim order
    assert_eq!(listing[1].answers, vec![5, 3]);
    assert_eq!(listing[0].answers, Vec::<u8>::new());
}

#[test]
fn new_starts_at_given_index() {
    let mut contract = NearTreasureBoardGame::new(42);
    contract.new_game(BoardSize::Small, vec![9], acct("a.near"), to_yocto(4)).unwrap();
    assert_eq!(contract.games()[0].id, 42);
}

#[test]
fn to_yocto_scales_by_ten_to_the_24() {
    assert_eq!(YOCTO_PER_NEAR, 1_000_000_000_000_000_000_000_000u128);
    assert_eq!(to_yocto(0), 0);
    assert_eq!(to_yocto(1), 1_000_000_000_000_000_000_000_000u128);
    assert_eq!(to_yocto(4), 4_000_000_000_000_000_000_000_000u128);
    assert_eq!(to_yocto(36), 36_000_000_000_000_000_000_000_000u128);
}

#[test]
fn to_bytearray_is_big_endian() {
    assert_eq!(to_bytearray(0), [0u8; 16]);
    assert_eq!(to_bytearray(1), [0, 0, 0, 0, 0, 0, 0, 0, 0, 0, 0, 0, 0, 0, 0, 1]);
    assert_eq!(
        to_bytearray(0x0102030405060708090a0b0c0d0e0f10),
        [1, 2, 3, 4, 5, 6, 7, 8, 9, 10, 11, 12, 13, 14, 15, 16],
    );
    assert_eq!(to_bytearray(u128::MAX), [0xff; 16]);
}
