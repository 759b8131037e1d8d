//! Digests of games.
use misterdrillerterm::board::Cell;
use misterdrillerterm::bombs::{Bomb, BombPhase};
use misterdrillerterm::constants::{FALL_TICK_MS, NANOS_PER_MS};
use misterdrillerterm::game::{Game, InputAction};
use misterdrillerterm::player::Direction;

/// Milliseconds, in nanoseconds.
fn millis(ms: u64) -> u64 {
    ms * NANOS_PER_MS
}

fn clear_board(game: &mut Game) {
    for row in game.board.rows.iter_mut() {
        for cell in row.iter_mut() {
            *cell = Cell::Empty;
        }
    }
}

fn attack_rules_game(seed: u64) -> Game {
    let mut game = Game::new(seed);
    clear_board(&mut game);
    game.set_bomb_spawn_rate_percent(0);
    game.player.row = game.board.depth_rows() - 1;
    game.player.col = 0;
    game.set_attack_rules_enabled(true);
    game
}



const STATE_HASH_TEST_INPUTS: &[InputAction] = &[
    InputAction::MoveRight,
    InputAction::Drill,
    InputAction::MoveRight,
    InputAction::MoveLeft,
    InputAction::FaceUp,
    InputAction::Drill,
    InputAction::FaceDown,
    InputAction::MoveLeft,
    InputAction::Drill,
    InputAction::MoveRight,
    InputAction::MoveRight,
    InputAction::FaceDown,
    InputAction::Drill,
    InputAction::MoveLeft,
    InputAction::MoveLeft,
    InputAction::FaceUp,
    InputAction::Drill,
    InputAction::MoveRight,
    InputAction::Drill,
    InputAction::MoveLeft,
    InputAction::FaceDown,
    InputAction::MoveRight,
    InputAction::Drill,
    InputAction::MoveLeft,
    InputAction::MoveRight,
    InputAction::FaceUp,
    InputAction::Drill,
    InputAction::MoveLeft,
    InputAction::MoveRight,
    InputAction::Drill,
];

#[test]
fn state_hash_matches_for_two_instances_given_the_same_seed_and_input_sequence() {
    let mut a = Game::new(4001);
    let mut b = Game::new(4001);
    assert_eq!(a.state_hash(), b.state_hash());

    for (i, &action) in STATE_HASH_TEST_INPUTS.iter().enumerate() {
        a.apply_input(action);
        b.apply_input(action);
        a.update(millis(FALL_TICK_MS));
        b.update(millis(FALL_TICK_MS));
        assert_eq!(a.state_hash(), b.state_hash());
    }
}

#[test]
fn state_hash_diverges_when_one_instance_gets_an_extra_input() {
    let mut a = Game::new(4002);
    let mut b = Game::new(4002);

    for &action in &STATE_HASH_TEST_INPUTS[..10] {
        a.apply_input(action);
        b.apply_input(action);
        a.update(millis(FALL_TICK_MS));
        b.update(millis(FALL_TICK_MS));
    }
    assert_eq!(a.state_hash(), b.state_hash());

    b.apply_input(InputAction::Drill);
    b.update(millis(FALL_TICK_MS));

    assert_ne!(a.state_hash(), b.state_hash());
}

#[test]
fn state_hash_is_pure_and_reproducible_from_a_clone() {
    let mut game = Game::new(4003);
    game.apply_input(InputAction::MoveRight);
    game.update(millis(FALL_TICK_MS));

    let clone = game.clone();

    assert_eq!(game.state_hash(), clone.state_hash());
    assert_eq!(game.state_hash(), game.state_hash());
}

#[test]
fn state_hash_changes_when_a_bomb_is_present_on_the_board() {
    let base = Game::new(4004);
    let mut with_bomb = base.clone();
    with_bomb.bombs.push(Bomb {
        pos: (0, 0),
        origin: (0, 0),
        phase: BombPhase::Ticking,
        phase_elapsed_ms: 0,
        remaining_ms: 1234,
        settle_bounce_dir: 1,
    });

    assert_ne!(base.state_hash(), with_bomb.state_hash());
}

#[test]
fn state_hash_changes_when_attack_power_pending_differs() {
    let a = attack_rules_game(4005);
    let mut b = a.clone();
    assert_eq!(a.state_hash(), b.state_hash());

    b.core.attack_power_pending = 3;

    assert_ne!(a.state_hash(), b.state_hash());
}

/// FNV-1a over the given bytes.
fn fnv(bytes: &[u8]) -> u64 {
    let mut h: u64 = 0xcbf29ce484222325;
    for &byte in bytes {
        h = (h ^ u64::from(byte)).wrapping_mul(0x100000001b3);
    }
    h
}

#[test]
fn the_digest_is_taken_of_field_player_and_attacks_in_a_fixed_order() {
    let gauges: [(u64, f32); 7] = [
        (0, 0.0),
        (1, 1e-9),
        (100_000_000, 0.1),
        (1_000_000_000, 1.0),
        (33_333_333_333, 33.333_333_333),
        (99_999_999_999, 99.999_999_999),
        (100_000_000_000, 100.0),
    ];
    for (oxygen, points) in gauges {
        let mut game = Game::new(1);
        game.board.rows.truncate(1);
        for cell in game.board.rows[0].iter_mut() {
            *cell = Cell::Empty;
        }
        game.board.rows[0][1] = Cell::Star { visible_ms: 7 };
        game.player.row = 0;
        game.player.col = 3;
        game.player.facing = Direction::Right;
        game.player.lives = 2;
        game.player.oxygen = oxygen;
        game.player.score = 77;
        game.core.item_top_up_frontier_row = 5;
        game.core.attack_power_pending = 9;

        let mut bytes: Vec<u8> = vec![0, 5, 7, 0, 0, 0];
        bytes.extend(vec![0; game.board.width() - 2]);
        bytes.extend(0u64.to_le_bytes());
        bytes.extend(3u64.to_le_bytes());
        bytes.extend([3, 2]);
        bytes.extend(1u64.to_le_bytes());
        bytes.extend(points.to_bits().to_le_bytes());
        bytes.extend(77u64.to_le_bytes());
        bytes.extend(5u64.to_le_bytes());
        bytes.extend(9u32.to_le_bytes());
        bytes.extend(0u32.to_le_bytes());
        assert_eq!(game.state_hash(), fnv(&bytes));
    }
}
