//! Random draws against the generator itself.
use misterdrillerterm::dice::Dice;
use misterdrillerterm::game::Game;
use rand::{Rng, RngExt, SeedableRng};
use rand_chacha::ChaCha8Rng;

#[test]
fn numbers_are_drawn_from_the_stream_of_the_seed() {
    let mut dice = Dice::new(42);
    let mut rng = ChaCha8Rng::seed_from_u64(42);

    for n in [2, 7, 100, 3, 1_000_000] {
        let value: usize = rng.random_range(0..n);
        assert_eq!(dice.below(n), value);
        assert_eq!(dice.word_pos, rng.get_word_pos());
    }
}

#[test]
fn coins_are_tossed_from_the_stream_of_the_seed() {
    let mut dice = Dice::new(7);
    let mut rng = ChaCha8Rng::seed_from_u64(7);

    let tosses: Vec<bool> = (0..32).map(|_| dice.toss()).collect();
    let expected: Vec<bool> = (0..32).map(|_| rng.random_ratio(1, 2)).collect();

    assert_eq!(tosses, expected);
    assert!(tosses.contains(&true) && tosses.contains(&false));
}

#[test]
fn bytes_are_drawn_from_the_stream_of_the_seed() {
    let mut dice = Dice::new(9);
    let mut rng = ChaCha8Rng::seed_from_u64(9);

    for len in [8, 3, 0, 20] {
        let mut expected = vec![0u8; len];
        rng.fill_bytes(&mut expected);
        assert_eq!(dice.bytes(len), expected);
        assert_eq!(dice.word_pos, rng.get_word_pos());
    }
}

#[test]
fn a_field_depends_on_its_seed_alone() {
    let a = Game::new(1);
    let b = Game::new(1);
    let c = Game::new(2);

    assert_eq!(a.board.rows, b.board.rows);
    assert_ne!(a.board.rows, c.board.rows);
}
