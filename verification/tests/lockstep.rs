//! Games that run in step on several computers.
use misterdrillerterm::board::{Cell, ColorKind};
use misterdrillerterm::game::{Game, GameStatus, InputAction};
use misterdrillerterm::lockstep::{run_tick, run_tick_n};
use misterdrillerterm::player::Direction;

fn assert_lockstep_matches(seed: u64, actions: &[(Option<InputAction>, Option<InputAction>)]) {
    let mut a_local = Game::new(seed);
    let mut a_remote = Game::new(seed);
    let mut b_local = Game::new(seed);
    let mut b_remote = Game::new(seed);

    assert_eq!(a_local.state_hash(), b_remote.state_hash());
    assert_eq!(a_remote.state_hash(), b_local.state_hash());

    for &(a_action, b_action) in actions.iter() {
        run_tick(&mut a_local, &mut a_remote, a_action, b_action);

        run_tick(&mut b_local, &mut b_remote, b_action, a_action);

        assert_eq!(a_local.state_hash(), b_remote.state_hash());
        assert_eq!(a_remote.state_hash(), b_local.state_hash());
    }
}

#[test]
fn lockstep_keeps_both_hosts_views_in_sync_over_many_ticks() {
    let actions: Vec<(Option<InputAction>, Option<InputAction>)> = (0..40)
        .map(|i| {
            let a = match i % 4 {
                0 => Some(InputAction::MoveRight),
                1 => Some(InputAction::Drill),
                2 => None,
                _ => Some(InputAction::FaceDown),
            };
            let b = match i % 3 {
                0 => Some(InputAction::MoveLeft),
                1 => Some(InputAction::Drill),
                _ => None,
            };
            (a, b)
        })
        .collect();

    assert_lockstep_matches(9001, &actions);
}

#[test]
fn lockstep_stays_in_sync_with_no_inputs_at_all() {
    let actions: Vec<(Option<InputAction>, Option<InputAction>)> = vec![(None, None); 30];
    assert_lockstep_matches(9002, &actions);
}

#[test]
fn lockstep_stays_in_sync_with_drilling_and_movement_inputs() {
    const A_INPUTS: &[InputAction] = &[
        InputAction::MoveRight,
        InputAction::Drill,
        InputAction::FaceDown,
        InputAction::Drill,
        InputAction::MoveRight,
        InputAction::MoveLeft,
        InputAction::FaceUp,
        InputAction::Drill,
        InputAction::MoveLeft,
        InputAction::Drill,
        InputAction::MoveRight,
        InputAction::Drill,
    ];
    const B_INPUTS: &[InputAction] = &[
        InputAction::MoveLeft,
        InputAction::FaceDown,
        InputAction::Drill,
        InputAction::MoveLeft,
        InputAction::Drill,
        InputAction::FaceUp,
        InputAction::MoveRight,
        InputAction::Drill,
        InputAction::MoveRight,
        InputAction::Drill,
        InputAction::MoveLeft,
        InputAction::Drill,
    ];
    assert_eq!(A_INPUTS.len(), B_INPUTS.len());

    let actions: Vec<(Option<InputAction>, Option<InputAction>)> = A_INPUTS
        .iter()
        .zip(B_INPUTS.iter())
        .map(|(&a, &b)| (Some(a), Some(b)))
        .collect();

    assert_lockstep_matches(9003, &actions);
}

fn order_for(n: usize, h: usize) -> Vec<usize> {
    let mut order = vec![h];
    order.extend((0..n).filter(|&p| p != h));
    order
}

fn assert_lockstep_n_matches(seed: u64, n: usize, actions: &[Vec<Option<InputAction>>]) {
    let mut views: Vec<Vec<Game>> = (0..n)
        .map(|_| (0..n).map(|_| Game::new(seed)).collect())
        .collect();

    let assert_views_agree = |views: &[Vec<Game>]| {
        for p in 0..n {
            let hash_of = |h: usize| {
                let order = order_for(n, h);
                let index = order
                    .iter()
                    .position(|&q| q == p)
                    .expect("everyone is in the order");
                views[h][index].state_hash()
            };
            let expected = hash_of(0);
            for h in 1..n {
                assert_eq!(expected, hash_of(h));
            }
        }
    };

    assert_views_agree(&views);

    for tick_actions in actions.iter() {
        assert_eq!(tick_actions.len(), n);
        for (h, view) in views.iter_mut().enumerate() {
            let ordered: Vec<Option<InputAction>> =
                order_for(n, h).iter().map(|&p| tick_actions[p]).collect();
            run_tick_n(view, &ordered);
        }
        assert_views_agree(&views);
    }
}

#[test]
fn run_tick_n_keeps_every_hosts_views_in_sync_over_many_ticks() {
    const N: usize = 4;
    let actions: Vec<Vec<Option<InputAction>>> = (0..40)
        .map(|i| {
            (0..N)
                .map(|p| match (i + p) % 5 {
                    0 => Some(InputAction::MoveRight),
                    1 => Some(InputAction::Drill),
                    2 => None,
                    3 => Some(InputAction::FaceDown),
                    _ => Some(InputAction::MoveLeft),
                })
                .collect()
        })
        .collect();

    assert_lockstep_n_matches(9101, N, &actions);
}

#[test]
fn run_tick_n_stays_in_sync_with_no_inputs_at_all() {
    const N: usize = 3;
    let actions: Vec<Vec<Option<InputAction>>> = vec![vec![None; N]; 30];

    assert_lockstep_n_matches(9102, N, &actions);
}

#[test]
fn run_tick_n_produces_the_same_result_as_run_tick_for_two_players() {
    let actions: Vec<(Option<InputAction>, Option<InputAction>)> = (0..30)
        .map(|i| {
            let a = match i % 4 {
                0 => Some(InputAction::MoveRight),
                1 => Some(InputAction::Drill),
                2 => None,
                _ => Some(InputAction::FaceDown),
            };
            let b = match i % 3 {
                0 => Some(InputAction::MoveLeft),
                1 => Some(InputAction::Drill),
                _ => None,
            };
            (a, b)
        })
        .collect();

    const SEED: u64 = 9103;
    let mut pair_local = Game::new(SEED);
    let mut pair_remote = Game::new(SEED);
    let mut games = vec![Game::new(SEED), Game::new(SEED)];

    for &(a_action, b_action) in actions.iter() {
        run_tick(&mut pair_local, &mut pair_remote, a_action, b_action);
        run_tick_n(&mut games, &[a_action, b_action]);

        assert_eq!(pair_local.state_hash(), games[0].state_hash());
        assert_eq!(pair_remote.state_hash(), games[1].state_hash());
    }
}

#[test]
fn run_tick_n_delivers_drilled_blocks_as_attack_power_to_the_opponent() {
    let mut attacker = Game::new(1);
    attacker.set_attack_rules_enabled(true);
    attacker.player.facing = Direction::Down;
    let target_row = attacker.player.row + 1;
    let col = attacker.player.col;

    attacker.board.rows[target_row][col] = Cell::Color(ColorKind::Red);
    attacker.board.rows[target_row][col + 1] = Cell::Color(ColorKind::Red);
    attacker.board.rows[target_row][col + 2] = Cell::Color(ColorKind::Red);

    let mut defender = Game::new(2);
    defender.set_attack_rules_enabled(true);

    let mut games = vec![attacker, defender];
    run_tick_n(&mut games, &[Some(InputAction::Drill), None]);

    assert_eq!(games[0].attack_power_pending(), 0);
    assert_eq!(games[1].incoming_attack_power(), 3);
}

#[test]
fn run_tick_n_does_not_send_attack_power_to_a_player_who_already_finished() {
    let mut attacker = Game::new(1);
    attacker.set_attack_rules_enabled(true);
    attacker.player.facing = Direction::Down;
    let target_row = attacker.player.row + 1;
    let col = attacker.player.col;
    attacker.board.rows[target_row][col] = Cell::Color(ColorKind::Red);
    attacker.board.rows[target_row][col + 1] = Cell::Color(ColorKind::Red);

    let mut finished = Game::new(2);
    finished.set_attack_rules_enabled(true);
    finished.status = GameStatus::Cleared;

    let mut games = vec![attacker, finished];
    run_tick_n(&mut games, &[Some(InputAction::Drill), None]);

    assert_eq!(games[1].incoming_attack_power(), 0);
}
