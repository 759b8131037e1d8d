//! What holds around the games, told from the outside: how a game starts, what
//! the settings make of it, what the players of a match exchange, which screen
//! follows which, and how time is gone back in.
use vstd::prelude::*;

use crate::agreement::{input_of, kind_of, move_of, BattleConfig, ErrorKind, Expected, NetAction, NetError};
use crate::battle::{battle_world, match_settings};
use crate::board::{rectangular, Cell, ColorKind, Grid, ItemEffect};
use crate::bytes::le_bytes;
use crate::dice::Dice;
use crate::discovery::{lemma_packet_parts, packet_bytes, type_byte, Packet, PacketType};
use crate::display::{any_flash_at, blaze_at, flash_at};
use crate::flash::{progress_left, progress_made, Blaze, VanishedCell};
use crate::flood::{at, on_grid, Spot};
use crate::frame::framed;
use crate::game::{fresh_world, Core, DodgeStage, GameOverChoice, GameStatus, InputAction, World};
use crate::gravity::Loose;
use crate::journey::bonus_rates;
use crate::keys::{
    edit_action, title_action, bound_action, AnyKeyAction, Key, KeyPress, TextEditAction,
};
use crate::lobby::{match_of, BattleStart};
use crate::lockstep::{power_of_others, tick_of_all};
use crate::messages::{client_goes, host_answers, ClientStage, GameMessage, HandshakeResult, HostReply};
use crate::play_laws::nanos;
use crate::player::Direction;
use crate::player_laws::trembles;
use crate::screens::{destination, first_end, first_session, frame_end, started, PauseOverlay, RewindOutcome, Screen, ScreenTransition, Session};
use crate::settings::{core_set, settings_rates, Settings};
use crate::terrain::{block_for, first_rows, redrawn, stocked, stocked_once, SpawnRates};
use crate::tuning::notched;
use crate::wire::packed;

verus! {

/// A number brought between two others.
pub open spec fn within(value: int, low: int, high: int) -> int {
    if value < low { low } else if value > high { high } else { value }
}

/// A new game: the player stands in the middle of the surface with full air and
/// the lives that were asked for, nothing has happened yet, and the first step
/// and the first stroke need not wait.
pub proof fn law_a_new_game(seed: u64, lives: u8, width: usize, depth_goal_m: usize)
    ensures
        ({
            let w = fresh_world(seed, lives, width, depth_goal_m);
            let cols = within(width as int, 6, 20);
            &&& w.width == cols
            &&& w.grid.len() == depth_goal_m
            &&& rectangular(w.grid, cols as nat)
            &&& w.player.row == 0 && w.player.col == cols / 2
            &&& w.player.lives == lives && w.player.oxygen == 100_000_000_000
            &&& w.player.score == 0 && w.player.diamonds_collected == 0 && w.player.diamond_score == 0
            &&& w.player.oxygen_capsules_collected == 0 && w.player.elapsed_nanos == 0
            &&& w.player.facing == Direction::Down && w.player.bumped_direction is None
            &&& w.status == GameStatus::Playing
            &&& w.bombs.len() == 0 && w.rocks.len() == 0 && w.moves.len() == 0
            &&& w.vanished.len() == 0 && w.exploded.len() == 0
            &&& w.gravity.waits.dom() =~= Set::<Spot>::empty()
            &&& w.core.depth_goal_m == depth_goal_m
            &&& w.core.fall_tick_accum == 0 && w.core.player_fall_tick_accum == 0
            &&& w.core.move_cooldown_accum == nanos(w.core.move_cooldown_ms as int)
            &&& w.core.drill_cooldown_accum == nanos(80)
            &&& w.core.ascending_remaining is None && w.core.dodge_stage == DodgeStage::Idle
            &&& w.core.dodge_watch_cell is None
            &&& w.core.last_level_reported == 1 && w.core.last_checkpoint_reported == 0
            &&& w.core.rewind_stock == 3 && w.core.rewind_stock_max == 5
            &&& !w.core.invincible && w.core.misses_averted == 0
            &&& !w.core.attack_rules_enabled && w.core.attack_power_pending == 0 && w.core.incoming_attack_power == 0
            &&& w.core.item_top_up_frontier_row == 0 && w.core.frame_counter == 0
            &&& w.core.game_over_selection == GameOverChoice::BackToTitle
            &&& w.core.invulnerability_ticks_remaining == 0 && w.core.chain_pause_remaining == 0
            &&& w.core.render_prev_position == (0usize, w.player.col)
            &&& forall|r: int, c: int| 0 <= r < 2 && 0 <= r < depth_goal_m && 0 <= c < cols ==> (#[trigger] w.grid[r][c]) is Empty
        }),
{
    let cols = within(width as int, 6, 20);
    crate::terrain::lemma_first_rows(Dice::seeded(seed), depth_goal_m as nat, cols as usize);
}

/// The settings hold from then on, brought into their ranges; what is not a
/// setting stays.
pub proof fn law_settings_hold(c: Core, s: Settings)
    ensures
        ({
            let a = core_set(c, s);
            &&& a.block_fall_tick_ms == within(s.block_fall_tick_ms as int, 25, 600)
            &&& a.player_fall_tick_ms == within(s.player_fall_tick_ms as int, 25, 600)
            &&& a.shake_duration_ms == within(s.shake_duration_ms as int, 0, 2000)
            &&& a.dodge_recovery_ms == within(s.dodge_recovery_ms as int, 0, 2000)
            &&& a.move_cooldown_ms == within(s.move_cooldown_ms as int, 20, 300)
            &&& a.chain_vanish_interval_ms == within(s.chain_vanish_interval_ms as int, 0, 2000)
            &&& a.bomb_spawn_rate_percent == s.bomb_spawn_rate_percent && a.bomb_fuse_ms == s.bomb_fuse_ms
            &&& a.attack_blocks_per_rock == within(s.attack_blocks_per_rock as int, 1, 50)
            &&& a.attack_rocks_per_wave_max == within(s.attack_rocks_per_wave_max as int, 1, 10)
            &&& a.rewind_stock_max == s.rewind_stock_max
            &&& a.rewind_stock == (if c.rewind_stock <= s.rewind_stock_max { c.rewind_stock } else { s.rewind_stock_max })
            &&& a.fall_tick_accum == c.fall_tick_accum && a.rng == c.rng && a.depth_goal_m == c.depth_goal_m
            &&& a.move_cooldown_accum == c.move_cooldown_accum && a.invincible == c.invincible
            &&& a.attack_rules_enabled == c.attack_rules_enabled
            &&& a.item_top_up_frontier_row == c.item_top_up_frontier_row
        }),
{
}

/// A speed is one notch faster or slower, and stays in its range.
pub proof fn law_notches(value: int)
    requires
        25 <= value <= 600,
    ensures
        notched(value, true) == (if value >= 50 { value - 25 } else { 25 }),
        notched(value, false) == (if value <= 575 { value + 25 } else { 600 }),
{
}

/// Drawing rows anew leaves empty cells empty, and what shakes where it is;
/// other rows are not touched.
pub proof fn law_redrawing_spares(
    g: Grid,
    dice: Dice,
    gravity: Loose,
    width: usize,
    from: int,
    to: int,
    rates: SpawnRates,
    p: Spot,
)
    requires
        rectangular(g, width as nat),
        on_grid(g, p),
    ensures
        ({
            let h = redrawn(g, dice, gravity, width, from, to, rates).0;
            &&& h.len() == g.len() && h[p.0].len() == g[p.0].len()
            &&& !(from <= p.0 < to) ==> at(h, p) == at(g, p)
            &&& at(g, p) is Empty || trembles(gravity, p) ==> at(h, p) == at(g, p)
        }),
    decreases to - from,
{
    crate::terrain::lemma_redrawn(g, dice, gravity, width, from, to, rates);
    if to > from && from >= 0 && to <= g.len() {
        law_redrawing_spares(g, dice, gravity, width, from, to - 1, rates, p);
        crate::terrain::lemma_redrawn(g, dice, gravity, width, from, to - 1, rates);
        let rest = redrawn(g, dice, gravity, width, from, to - 1, rates).0;
        assert(rest[p.0].len() == width);
        if p.0 == to - 1 {
            assert(rest[p.0] == g[p.0]);
        }
    }
}

/// An item is laid out in place of a colour block, in one cell of the row at
/// most, and only while there are fewer than ten of its kind ahead.
pub proof fn law_items_replace_colors(
    g: Grid,
    r: int,
    effect: ItemEffect,
    percent: u32,
    chance: u8,
    column: u8,
    lo: int,
    hi: int,
    p: Spot,
    q: Spot,
)
    requires
        on_grid(g, p),
        on_grid(g, q),
        0 <= r < g.len(),
        g[r].len() > 0,
    ensures
        ({
            let h = stocked_once(g, r, effect, percent, chance, column, lo, hi);
            &&& at(h, p) == at(g, p) || (p.0 == r && at(g, p) is Color && at(h, p) == Cell::Item(effect))
            &&& at(h, p) != at(g, p) && at(h, q) != at(g, q) ==> p == q
            &&& crate::terrain::items_in_rows(g, effect, lo, hi) >= 10 ==> h == g
            &&& percent == 0 ==> h == g
            &&& crate::terrain::items_in_rows(g, effect, lo, hi) < 10 && chance < 24 * percent / 100 && g[r][column as int
                % g[r].len() as int] is Color ==> h[r][column as int % g[r].len() as int] == Cell::Item(effect)
        }),
{
}

/// A match is played under the settings that were agreed on: on a field of their
/// width and depth, with their speeds, with three lives, and with attacks.
pub proof fn law_matches_start_alike(seed: u64, config: BattleConfig)
    ensures
        ({
            let w = battle_world(seed, config);
            let s = match_settings(config);
            &&& w.core.attack_rules_enabled
            &&& w.player.lives == 3 && w.player.row == 0 && w.player.oxygen == 100_000_000_000
            &&& w.width == within(config.field_width as int, 6, 20)
            &&& w.core.depth_goal_m == config.depth_goal_m
            &&& w.core.block_fall_tick_ms == within(config.block_fall_tick_ms as int, 25, 600)
            &&& w.core.player_fall_tick_ms == within(config.player_fall_tick_ms as int, 25, 600)
            &&& w.core.shake_duration_ms == within(config.shake_duration_ms as int, 0, 2000)
            &&& w.core.move_cooldown_ms == within(config.move_cooldown_ms as int, 20, 300)
            &&& w.core.dodge_recovery_ms == within(config.dodge_recovery_ms as int, 0, 2000)
            &&& w.core.chain_vanish_interval_ms == within(config.chain_vanish_interval_ms as int, 0, 2000)
            &&& w.core.bomb_spawn_rate_percent == config.bomb_spawn_rate_percent
            &&& w.core.bomb_fuse_ms == config.bomb_fuse_ms
            &&& w.core.attack_blocks_per_rock == within(config.attack_blocks_per_rock as int, 1, 50)
            &&& w.core.attack_rocks_per_wave_max == within(config.attack_rocks_per_wave_max as int, 1, 10)
            &&& s.rock_spawn_rate_percent == config.rock_spawn_rate_percent
            &&& s.air_spawn_rate_percent == config.air_spawn_rate_percent
            &&& s.star_spawn_rate_percent == config.star_spawn_rate_percent
            &&& s.diamond_spawn_rate_percent == config.diamond_spawn_rate_percent
            &&& s.color_count == config.color_count
            &&& s.color_cluster_rate_percent == config.color_cluster_rate_percent
            &&& w.core.item_clear_above_rate_percent == config.item_clear_above_rate_percent
            &&& w.core.item_unify_colors_rate_percent == config.item_unify_colors_rate_percent
            &&& w.core.item_starify_screen_rate_percent == config.item_starify_screen_rate_percent
        }),
{
}

/// The rates of the settings are the rates at which the field is drawn.
pub proof fn law_rates(s: Settings)
    ensures
        settings_rates(s).rock == s.rock_spawn_rate_percent,
        settings_rates(s).air == s.air_spawn_rate_percent,
        settings_rates(s).star == s.star_spawn_rate_percent,
        settings_rates(s).diamond == s.diamond_spawn_rate_percent,
        settings_rates(s).item_clear_above == s.item_clear_above_rate_percent,
        settings_rates(s).item_unify_colors == s.item_unify_colors_rate_percent,
        settings_rates(s).item_starify_screen == s.item_starify_screen_rate_percent,
        settings_rates(s).color_count == s.color_count,
        settings_rates(s).color_cluster == s.color_cluster_rate_percent,
{
}

/// Everyone in a match has a game and a name, oneself first and the others in
/// their order, and all games are the same.
pub proof fn law_everyone_has_a_game(start: BattleStart, my_name: Seq<char>, others: Seq<String>, h: HandshakeResult, i: int)
    requires
        match_of(start, my_name, others, h),
        0 <= i <= others.len(),
    ensures
        start.games@.len() == others.len() + 1,
        start.player_names@.len() == others.len() + 1,
        start.games@[i]@ == battle_world(h.seed, h.config),
        i == 0 ==> start.player_names@[i]@ == my_name,
        i > 0 ==> start.player_names@[i]@ == others[i - 1]@,
        start.config == h.config,
{
    if i > 0 {
        assert(start.player_names@[(i - 1) + 1]@ == others[i - 1]@);
    }
}

/// What one has ready is sent and gone; what is sent arrives in full, as far as
/// it can be counted, with whoever is still in the game.
pub proof fn law_attacks_arrive(w: World, power: int)
    requires
        0 <= power,
    ensures
        w.disarmed() == w.with_core(Core { attack_power_pending: 0, ..w.core }),
        w.status != GameStatus::Playing ==> w.attacked(power) == w,
        w.status == GameStatus::Playing && w.core.incoming_attack_power + power <= u32::MAX ==> w.attacked(power)
            == w.with_core(
            Core { incoming_attack_power: (w.core.incoming_attack_power + power) as u32, ..w.core },
        ),
        w.status == GameStatus::Playing && w.core.incoming_attack_power + power > u32::MAX ==> w.attacked(power)
            == w.with_core(Core { incoming_attack_power: u32::MAX, ..w.core }),
        w.power() == w.core.attack_power_pending,
{
}

/// A tick of a match is the input, if there is one, and 150 milliseconds.
pub proof fn law_ticks_of_a_match(w: World, action: Option<InputAction>)
    ensures
        action is None ==> w.ticked(action) == framed(w, 150_000_000).0,
        action matches Some(a) ==> w.ticked(action) == framed(crate::controls::acted(w, a).0, 150_000_000).0,
{
}

/// In a match of three each gets what the two others have sent.
pub proof fn law_three_in_a_match(ws: Seq<World>, actions: Seq<Option<InputAction>>)
    requires
        ws.len() == 3,
        actions.len() == 3,
    ensures
        ({
            let after = tick_of_all(ws, actions);
            let p = |i: int| ws[i].ticked(actions[i]).core.attack_power_pending as int;
            &&& after.len() == 3
            &&& after[0] == ws[0].ticked(actions[0]).disarmed().attacked(p(1) + p(2))
            &&& after[1] == ws[1].ticked(actions[1]).disarmed().attacked(p(0) + p(2))
            &&& after[2] == ws[2].ticked(actions[2]).disarmed().attacked(p(0) + p(1))
        }),
{
    reveal_with_fuel(power_of_others, 4);
    let all = crate::lockstep::all_ticked(ws, actions);
    assert(all.len() == 3);
    assert(all[0] == ws[0].ticked(actions[0]));
    assert(all[1] == ws[1].ticked(actions[1]));
    assert(all[2] == ws[2].ticked(actions[2]));
}

/// Which screen follows which.
pub proof fn law_screens(s: Session, change: Option<ScreenTransition>, music: bool)
    ensures
        ({
            let e = frame_end(s, change, music);
            let to = e.session.screen;
            &&& e.quit <==> change == Some(ScreenTransition::Quit)
            &&& e.quit ==> e.session == s
            &&& change is None ==> to == s.screen
            &&& change == Some(ScreenTransition::ToTitle) || change == Some(ScreenTransition::ToTitleDiscardingGame)
                ==> to == Screen::Title
            &&& change == Some(ScreenTransition::ToModeSelect) ==> to == Screen::ModeSelect
            &&& change == Some(ScreenTransition::ToSettings) ==> to == Screen::Settings
            &&& change == Some(ScreenTransition::ToHelp) ==> to == Screen::Help
            &&& change == Some(ScreenTransition::ToPlaying) ==> to == Screen::Playing
            &&& change == Some(ScreenTransition::ToNetworkLobby) ==> to == Screen::NetworkLobby
            &&& change == Some(ScreenTransition::ToBattle) ==> to == Screen::Battle
            &&& e.reset_clock <==> change == Some(ScreenTransition::ToPlaying) || change == Some(
                ScreenTransition::ToBattle,
            )
            &&& e.clear_history <==> change == Some(ScreenTransition::ToTitleDiscardingGame)
            &&& !e.quit ==> {
                let playing = to == Screen::Playing || to == Screen::Battle;
                &&& e.session.gameplay_music == (music && playing)
                &&& e.session.title_music == (music && !playing)
                &&& e.session.title_bgm_restart == (s.title_bgm_restart || (music && !playing && !s.title_music))
            }
            &&& !e.quit && change != Some(ScreenTransition::ToTitleDiscardingGame) ==> {
                &&& e.session.pause_overlay == s.pause_overlay
                &&& e.session.autopilot == s.autopilot
                &&& e.session.autopilot_is_attract_demo == s.autopilot_is_attract_demo
                &&& e.session.title_idle_ms == s.title_idle_ms
                &&& e.session.rewinding == s.rewinding
                &&& e.session.gameplay_bgm_restart == s.gameplay_bgm_restart
            }
            &&& change == Some(ScreenTransition::ToTitleDiscardingGame) ==> !e.session.autopilot_is_attract_demo
        }),
{
}

/// The program starts at the title, with its music if there is any.
pub proof fn law_the_first_screen(music: bool)
    ensures
        first_session(music).screen == Screen::Title,
        first_session(music).title_music == music,
        !first_session(music).gameplay_music,
        !first_session(music).rewinding,
        !first_session(music).autopilot,
        first_session(music).pause_overlay == PauseOverlay::Hidden,
{
}

/// Of several outcomes the first that ends the journey counts.
pub proof fn law_the_first_end_counts(outcomes: Seq<RewindOutcome>, i: int)
    ensures
        0 <= i < outcomes.len() && outcomes[i] != RewindOutcome::Continue && (forall|j: int|
            0 <= j < i ==> (#[trigger] outcomes[j]) == RewindOutcome::Continue) ==> first_end(outcomes) == outcomes[i],
        (forall|j: int| 0 <= j < outcomes.len() ==> (#[trigger] outcomes[j]) == RewindOutcome::Continue)
            ==> first_end(outcomes) == RewindOutcome::Continue,
    decreases outcomes.len(),
{
    if outcomes.len() > 0 {
        let init = outcomes.drop_last();
        law_the_first_end_counts(init, i);
        assert(forall|j: int| 0 <= j < init.len() ==> #[trigger] init[j] == outcomes[j]);
        assert(outcomes.last() == outcomes[outcomes.len() - 1]);
        if 0 <= i < outcomes.len() && outcomes[i] != RewindOutcome::Continue && (forall|j: int|
            0 <= j < i ==> (#[trigger] outcomes[j]) == RewindOutcome::Continue) {
            if i == init.len() {
                assert(forall|j: int| 0 <= j < init.len() ==> #[trigger] init[j] == RewindOutcome::Continue);
            } else {
                assert(init[i] == outcomes[i]);
            }
        }
    }
}

/// One goes back only to a moment before the latest.
pub proof fn law_destinations(outcome: RewindOutcome)
    ensures
        destination(outcome) matches Some(cursor) ==> outcome == RewindOutcome::Confirm(cursor) && cursor > 0,
        outcome matches RewindOutcome::Confirm(cursor) && cursor > 0 ==> destination(outcome) is Some,
{
}

/// Each move has its own sign, and what is no move is not sent.
pub proof fn law_moves(action: InputAction)
    ensures
        move_of(action) is Some <==> action == InputAction::MoveLeft || action == InputAction::MoveRight || action
            == InputAction::FaceUp || action == InputAction::FaceDown || action == InputAction::Drill,
        input_of(NetAction::MoveLeft) == Some(InputAction::MoveLeft),
        input_of(NetAction::MoveRight) == Some(InputAction::MoveRight),
        input_of(NetAction::FaceUp) == Some(InputAction::FaceUp),
        input_of(NetAction::FaceDown) == Some(InputAction::FaceDown),
        input_of(NetAction::Drill) == Some(InputAction::Drill),
        input_of(NetAction::Nothing) is None,
        kind_of(NetError::Truncated) == ErrorKind::UnexpectedEof,
        forall|e: NetError| !(e is Truncated) ==> #[trigger] kind_of(e) == ErrorKind::InvalidData,
{
}

/// A client goes through the greeting, the settings and the seed, in this order;
/// any other message is refused, and the greeting is told as what was awaited.
pub proof fn law_handshakes_have_an_order(stage: ClientStage, msg: GameMessage, r: Result<ClientStage, NetError>)
    requires
        client_goes(stage, msg, r),
    ensures
        stage is AwaitHello && r is Ok ==> msg is Hello && r->Ok_0 is AwaitConfig,
        stage is AwaitHello && !(msg is Hello) ==> r is Err,
        stage is AwaitConfig && msg is StartConfig ==> r is Ok && r->Ok_0 is AwaitSeed,
        stage is AwaitConfig && !(msg is StartConfig) ==> r is Err,
        stage is AwaitSeed && msg is SeedAgree ==> r is Ok && r->Ok_0 is Done,
        stage is AwaitSeed && !(msg is SeedAgree) ==> r is Err,
        stage is Done ==> r is Ok && r->Ok_0 == stage,
{
}

/// Where the parts of a packet lie: 'M', 'D', 'T', '1', the type, the version,
/// sixteen bytes each for sender and target, the name, the port with its low
/// byte first, and four zeros.
pub proof fn law_packets_are_laid_out(p: Packet, i: int)
    requires
        p.sender_id.len() == 16,
        p.target_id.len() == 16,
    ensures
        ({
            let b = packet_bytes(p);
            &&& b.len() == 60
            &&& b[0] == 0x4d && b[1] == 0x44 && b[2] == 0x54 && b[3] == 0x31
            &&& b[4] == type_byte(p.packet_type)
            &&& 0 <= i < 16 ==> b[6 + i] == p.sender_id[i] && b[22 + i] == p.target_id[i]
            &&& b[54] == p.tcp_port % 256
            &&& b[55] == p.tcp_port / 256
            &&& b[56] == 0 && b[57] == 0 && b[58] == 0 && b[59] == 0
        }),
        type_byte(PacketType::Hello) == 1,
        type_byte(PacketType::Invite) == 2,
        type_byte(PacketType::Accept) == 3,
        type_byte(PacketType::Decline) == 4,
        type_byte(PacketType::Bye) == 5,
        type_byte(PacketType::RequestStart) == 6,
{
    let b = packet_bytes(p);
    lemma_packet_parts(p);
    reveal_with_fuel(le_bytes, 3);
    assert(b.take(4)[0] == b[0] && b.take(4)[1] == b[1] && b.take(4)[2] == b[2] && b.take(4)[3] == b[3]);
    assert(b.subrange(54, 56)[0] == b[54] && b.subrange(54, 56)[1] == b[55]);
    assert(b.subrange(38, 54).len() == 16);
    if 0 <= i < 16 {
        assert(b.subrange(6, 22)[i] == b[6 + i]);
        assert(b.subrange(22, 38)[i] == b[22 + i]);
    }
}

/// A frame is the length of the message, its highest byte first, and then the
/// message.
pub proof fn law_frames_are_laid_out(payload: Seq<u8>, i: int)
    requires
        payload.len() <= u32::MAX,
    ensures
        ({
            let b = packed(payload);
            let n = payload.len() as int;
            &&& b.len() == payload.len() + 4
            &&& b[0] == n / 16777216 && b[1] == n / 65536 % 256 && b[2] == n / 256 % 256 && b[3] == n % 256
            &&& 0 <= i < n ==> b[4 + i] == payload[i]
        }),
{
    let n = payload.len() as int;
    reveal_with_fuel(le_bytes, 5);
    let s = le_bytes(payload.len(), 4);
    assert(s.len() == 4);
    assert(s[0] == n % 256);
    assert(s[1] == n / 256 % 256);
    assert(s[2] == n / 256 / 256 % 256);
    assert(s[3] == n / 256 / 256 / 256 % 256);
    assert(n / 256 / 256 == n / 65536 && n / 256 / 256 / 256 == n / 16777216) by (nonlinear_arith);
}

/// What is shown of a cell is the first entry of the list for it.
pub proof fn law_the_first_flash_is_shown(list: Seq<VanishedCell>, pos: (usize, usize), lit: bool, i: int)
    requires
        0 <= i < list.len(),
        list[i].pos == pos,
        (list[i].delay == 0) == lit,
        forall|j: int| 0 <= j < i ==> !((#[trigger] list[j]).pos == pos && (list[j].delay == 0) == lit),
    ensures
        flash_at(list, pos, lit) == Some(list[i]),
    decreases list.len(),
{
    let init = list.drop_last();
    assert(forall|j: int| 0 <= j < init.len() ==> #[trigger] init[j] == list[j]);
    if i < init.len() {
        law_the_first_flash_is_shown(init, pos, lit, i);
    } else {
        lemma_no_flash(init, pos, lit);
    }
}

proof fn lemma_no_flash(list: Seq<VanishedCell>, pos: (usize, usize), lit: bool)
    requires
        forall|j: int| 0 <= j < list.len() ==> !((#[trigger] list[j]).pos == pos && (list[j].delay == 0) == lit),
    ensures
        flash_at(list, pos, lit) is None,
    decreases list.len(),
{
    if list.len() > 0 {
        let init = list.drop_last();
        assert(forall|j: int| 0 <= j < init.len() ==> #[trigger] init[j] == list[j]);
        assert(list.last() == list[list.len() - 1]);
        lemma_no_flash(init, pos, lit);
    }
}

/// Where there is nothing there is nothing to show.
pub proof fn law_no_flash_is_shown(list: Seq<VanishedCell>, pos: (usize, usize), lit: bool)
    requires
        forall|j: int| 0 <= j < list.len() ==> !((#[trigger] list[j]).pos == pos && (list[j].delay == 0) == lit),
    ensures
        flash_at(list, pos, lit) is None,
{
    lemma_no_flash(list, pos, lit);
}

/// Progress runs from nothing to all, and no further.
pub proof fn law_progress(elapsed: int, total: int)
    requires
        0 <= elapsed,
        0 < total <= u64::MAX,
    ensures
        progress_made(elapsed, total).total == total,
        progress_left(elapsed, total).total == total,
        elapsed <= total ==> progress_made(elapsed, total).done == elapsed && progress_left(elapsed, total).done
            == total - elapsed,
        elapsed > total ==> progress_made(elapsed, total).done == total && progress_left(elapsed, total).done == 0,
{
}

/// Which key asks for what in a game.
pub proof fn law_keys(key: Key)
    ensures
        bound_action(Key::Left) == InputAction::MoveLeft,
        bound_action(Key::Right) == InputAction::MoveRight,
        bound_action(Key::Up) == InputAction::FaceUp,
        bound_action(Key::Down) == InputAction::FaceDown,
        bound_action(key) == InputAction::Quit <==> key == Key::Esc,
        bound_action(key) == InputAction::TogglePause <==> key == Key::Char(' ') || key == Key::Char('p') || key
            == Key::Char('P'),
        bound_action(key) == InputAction::ToggleMusic <==> key == Key::Char('m') || key == Key::Char('M'),
        bound_action(key) == InputAction::ToggleSe <==> key == Key::Char('e') || key == Key::Char('E'),
        bound_action(key) == InputAction::OpenSettings <==> key == Key::Char('s') || key == Key::Char('S'),
        bound_action(key) == InputAction::OpenHelp <==> key == Key::Char('h') || key == Key::Char('H'),
        bound_action(key) == InputAction::DebugUnifyNearbyColors <==> key == Key::Char('c') || key == Key::Char('C'),
        bound_action(key) == InputAction::DebugAddLife <==> key == Key::Char('l') || key == Key::Char('L'),
        bound_action(key) == InputAction::DebugFillAir <==> key == Key::Char('a') || key == Key::Char('A'),
        bound_action(key) == InputAction::DebugClearAbovePlayer <==> key == Key::Char('r') || key == Key::Char('R'),
        bound_action(key) == InputAction::DebugStarifyVisibleScreen <==> key == Key::Char('k') || key == Key::Char(
            'K',
        ),
        bound_action(key) == InputAction::DebugPlaceBomb <==> key == Key::Char('b') || key == Key::Char('B'),
        bound_action(key) == InputAction::DebugToggleAutopilot <==> key == Key::Char('t') || key == Key::Char('T'),
        bound_action(key) == InputAction::DebugToggleInvincible <==> key == Key::Char('g') || key == Key::Char('G'),
        bound_action(key) == InputAction::DebugBlockFallSlower <==> key == Key::Char('['),
        bound_action(key) == InputAction::DebugBlockFallFaster <==> key == Key::Char(']'),
        bound_action(key) == InputAction::DebugPlayerFallSlower <==> key == Key::Char('-'),
        bound_action(key) == InputAction::DebugPlayerFallFaster <==> key == Key::Char('='),
        bound_action(key) == InputAction::DebugShakeDurationLonger <==> key == Key::Char(','),
        bound_action(key) == InputAction::DebugShakeDurationShorter <==> key == Key::Char('.'),
        title_action(key) == AnyKeyAction::Quit <==> key == Key::Esc,
        title_action(key) == AnyKeyAction::OpenSettings <==> key == Key::Char('s') || key == Key::Char('S'),
        title_action(key) == AnyKeyAction::OpenHelp <==> key == Key::Char('h') || key == Key::Char('H'),
{
}

/// What a key does in a text field.
pub proof fn law_editing(press: KeyPress)
    ensures
        press.key == Key::Backspace ==> edit_action(press) == Some(TextEditAction::Backspace),
        press.key == Key::Delete ==> edit_action(press) == Some(TextEditAction::Delete),
        press.key == Key::Enter ==> edit_action(press) == Some(TextEditAction::Confirm),
        press.key == Key::Esc ==> edit_action(press) == Some(TextEditAction::Cancel),
        press.key == Key::Left ==> edit_action(press) is Some && edit_action(press)->0 is MoveLeft,
        press.key == Key::Right ==> edit_action(press) is Some && edit_action(press)->0 is MoveRight,
        press.key == Key::Home ==> edit_action(press) is Some && edit_action(press)->0 is MoveToStart,
        press.key == Key::End ==> edit_action(press) is Some && edit_action(press)->0 is MoveToEnd,
        press.key matches Key::Char(c) ==> {
            &&& !press.control && !press.command ==> edit_action(press) == Some(TextEditAction::Char(c))
            &&& (press.control || press.command) && (c == 'a' || c == 'A') ==> edit_action(press) == Some(
                TextEditAction::SelectAll,
            )
            &&& (press.control || press.command) && c != 'a' && c != 'A' ==> edit_action(press) is None
        },
        press.key == Key::Up || press.key == Key::Down || press.key == Key::Tab ==> edit_action(press) is None,
{
}

/// The bonus floor is full of air and items; all else comes up as usual there.
pub proof fn law_the_bonus_floor()
    ensures
        bonus_rates().air == 500,
        bonus_rates().item_clear_above == 500,
        bonus_rates().item_unify_colors == 500,
        bonus_rates().item_starify_screen == 500,
        bonus_rates().rock == 100,
        bonus_rates().star == 100,
        bonus_rates().diamond == 100,
        bonus_rates().color_count == 4,
{
}

/// What never comes up is never drawn, a rock is drawn whole, a star fresh, and a
/// colour is one of those there are.
pub proof fn law_what_is_drawn(b0: u8, b1: u8, b2: u8, b3: u8, neighbour: u8, rates: SpawnRates)
    ensures
        ({
            let cell = block_for(b0, b1, b2, b3, neighbour, rates);
            &&& !(cell is Empty)
            &&& cell is Rock ==> rates.rock > 0 && cell->Rock_hits == 0
            &&& cell is Oxygen ==> rates.air > 0
            &&& cell is Star ==> rates.star > 0 && cell->Star_visible_ms == 0
            &&& cell is Diamond ==> rates.diamond > 0
            &&& cell == Cell::Item(ItemEffect::ClearAbove) ==> rates.item_clear_above > 0
            &&& cell == Cell::Item(ItemEffect::UnifyColors) ==> rates.item_unify_colors > 0
            &&& cell == Cell::Item(ItemEffect::StarifyScreen) ==> rates.item_starify_screen > 0
            &&& rates.color_count <= 1 && cell is Color ==> cell == Cell::Color(ColorKind::Red)
            &&& rates.color_count <= 2 && cell is Color ==> cell == Cell::Color(ColorKind::Red) || cell == Cell::Color(
                ColorKind::Blue,
            )
            &&& rates.color_count <= 3 && cell is Color ==> cell != Cell::Color(ColorKind::Yellow)
        }),
{
}

/// Applying settings draws the field anew from the row on, without items, and
/// lays items out at the new rates where they are due.
pub proof fn law_rerolling(w: World, from: int, rates: SpawnRates, p: Spot)
    requires
        rectangular(w.grid, w.width as nat),
        on_grid(w.grid, p),
        w.grid.len() <= usize::MAX,
    ensures
        ({
            let a = w.rerolled(from, rates);
            &&& a.player == w.player && a.status == w.status && a.gravity == w.gravity && a.bombs == w.bombs
            &&& a.core.item_clear_above_rate_percent == rates.item_clear_above
            &&& a.core.item_unify_colors_rate_percent == rates.item_unify_colors
            &&& a.core.item_starify_screen_rate_percent == rates.item_starify_screen
            &&& p.0 < from && p.0 < w.core.item_top_up_frontier_row ==> at(a.grid, p) == at(w.grid, p)
            &&& a.core.item_top_up_frontier_row >= w.core.item_top_up_frontier_row
        }),
{
    let r = SpawnRates { item_clear_above: 0, item_unify_colors: 0, item_starify_screen: 0, ..rates };
    law_redrawing_spares(w.grid, w.core.rng, w.gravity, w.width, from, w.grid.len() as int, r, p);
    let (grid, rng) = redrawn(w.grid, w.core.rng, w.gravity, w.width, from, w.grid.len() as int, r);
    let b = World {
        grid,
        core: Core {
            rng,
            item_clear_above_rate_percent: rates.item_clear_above,
            item_unify_colors_rate_percent: rates.item_unify_colors,
            item_starify_screen_rate_percent: rates.item_starify_screen,
            ..w.core
        },
        ..w
    };
    if p.0 < w.core.item_top_up_frontier_row {
        crate::field_laws::law_stocked_rows_stay(b, p.0);
    }
}

/// A game that is started has the settings, on a field of their width.
pub proof fn law_games_are_started(seed: u64, s: Settings, depth_goal_m: usize)
    ensures
        ({
            let w = started(seed, s, depth_goal_m);
            &&& w.width == within(s.field_width as int, 6, 20)
            &&& w.core.depth_goal_m == depth_goal_m
            &&& w.core.block_fall_tick_ms == within(s.block_fall_tick_ms as int, 25, 600)
            &&& w.core.player_fall_tick_ms == within(s.player_fall_tick_ms as int, 25, 600)
            &&& w.core.move_cooldown_ms == within(s.move_cooldown_ms as int, 20, 300)
            &&& w.core.rewind_stock_max == s.rewind_stock_max
            &&& w.core.item_clear_above_rate_percent == s.item_clear_above_rate_percent
            &&& !w.core.attack_rules_enabled
            &&& w.player.lives == 3 && w.player.row == 0 && w.player.col == w.width / 2
            &&& w.status == GameStatus::Playing
        }),
{
}

/// A host answers a greeting in its own version with three messages: a greeting,
/// the settings and the seed. A greeting in another version is refused with that
/// version, and anything else because no greeting came.
pub proof fn law_hosts_answer(first: GameMessage, name: Seq<char>, config: BattleConfig, seed: u64, r: Result<HostReply, NetError>)
    requires
        host_answers(first, name, config, seed, r),
    ensures
        first is Hello && first->Hello_protocol_version == 1 ==> {
            &&& r is Ok
            &&& r->Ok_0.sends@.len() == 3
            &&& r->Ok_0.sends@[0] matches GameMessage::Hello { name: mine, protocol_version: v } && mine@ == name && v == 1
            &&& r->Ok_0.sends@[1] matches GameMessage::StartConfig(c) && *c == config
            &&& r->Ok_0.sends@[2] matches GameMessage::SeedAgree { seed: s, ai_seeds } && s == seed && ai_seeds@.len() == 0
            &&& r->Ok_0.result.opponent_name@ == first->Hello_name@
            &&& r->Ok_0.result.config == config
            &&& r->Ok_0.result.seed == seed
        },
        first is Hello && first->Hello_protocol_version != 1 ==> r is Err && r->Err_0 == (NetError::VersionMismatch {
            peer: first->Hello_protocol_version,
        }),
        !(first is Hello) ==> r is Err && r->Err_0 == (NetError::UnexpectedMessage { expected: Expected::Hello }),
{
}

/// The fire that is shown in a cell is the first of the list there.
pub proof fn law_the_first_fire_is_shown(list: Seq<Blaze>, pos: (usize, usize), i: int)
    requires
        0 <= i < list.len(),
        list[i].pos == pos,
        forall|j: int| 0 <= j < i ==> (#[trigger] list[j]).pos != pos,
    ensures
        blaze_at(list, pos) == Some(list[i]),
    decreases list.len(),
{
    let init = list.drop_last();
    assert(forall|j: int| 0 <= j < init.len() ==> #[trigger] init[j] == list[j]);
    if i < init.len() {
        law_the_first_fire_is_shown(init, pos, i);
    } else {
        lemma_no_fire(init, pos);
    }
}

proof fn lemma_no_fire(list: Seq<Blaze>, pos: (usize, usize))
    requires
        forall|j: int| 0 <= j < list.len() ==> (#[trigger] list[j]).pos != pos,
    ensures
        blaze_at(list, pos) is None,
    decreases list.len(),
{
    if list.len() > 0 {
        let init = list.drop_last();
        assert(forall|j: int| 0 <= j < init.len() ==> #[trigger] init[j] == list[j]);
        assert(list.last() == list[list.len() - 1]);
        lemma_no_fire(init, pos);
    }
}

/// Nothing burns where nothing burns.
pub proof fn law_no_fire_is_shown(list: Seq<Blaze>, pos: (usize, usize))
    requires
        forall|j: int| 0 <= j < list.len() ==> (#[trigger] list[j]).pos != pos,
    ensures
        blaze_at(list, pos) is None,
{
    lemma_no_fire(list, pos);
}

/// Lit or not, the first flash of a cell is found, and none where there is none.
pub proof fn law_the_first_of_all_flashes(list: Seq<VanishedCell>, pos: (usize, usize), i: int)
    ensures
        0 <= i < list.len() && list[i].pos == pos && (forall|j: int| 0 <= j < i ==> (#[trigger] list[j]).pos != pos)
            ==> any_flash_at(list, pos) == Some(list[i]),
        (forall|j: int| 0 <= j < list.len() ==> (#[trigger] list[j]).pos != pos) ==> any_flash_at(list, pos) is None,
    decreases list.len(),
{
    if list.len() > 0 {
        let init = list.drop_last();
        law_the_first_of_all_flashes(init, pos, i);
        assert(forall|j: int| 0 <= j < init.len() ==> #[trigger] init[j] == list[j]);
        assert(list.last() == list[list.len() - 1]);
    }
}

/// A new field is solid from its third row on, and holds no items yet.
pub proof fn law_a_new_field(dice: Dice, n: nat, width: usize, r: int, c: int)
    requires
        0 <= r < n,
        0 <= c < width,
    ensures
        ({
            let g = first_rows(dice, n, width).0;
            &&& r < 2 ==> g[r][c] is Empty
            &&& r >= 2 ==> !(g[r][c] is Empty) && !(g[r][c] is Item)
        }),
    decreases n,
{
    if r < n - 1 {
        law_a_new_field(dice, (n - 1) as nat, width, r, c);
        crate::terrain::lemma_first_rows(dice, (n - 1) as nat, width);
    } else {
        crate::terrain::lemma_first_rows(dice, (n - 1) as nat, width);
        let (rows, d) = first_rows(dice, (n - 1) as nat, width);
        let bytes = d.bytes_of((4 * width) as usize);
        let pair = c - c % 2;
        law_what_is_drawn(
            bytes[4 * c],
            bytes[4 * c + 1],
            bytes[4 * c + 2],
            bytes[4 * c + 3],
            bytes[4 * pair + 1],
            crate::terrain::usual_rates(),
        );
    }
}

/// Every row ahead gets its chance of each kind of item, in turn, with bytes of
/// its own.
pub proof fn law_rows_get_their_chance(g: Grid, dice: Dice, rates: (u32, u32, u32), lo: int, from: int, r: int, hi: int)
    requires
        from <= r,
    ensures
        ({
            let (rest, d) = stocked(g, dice, rates, lo, from, r, hi);
            let bytes = d.bytes_of(8);
            let a = stocked_once(rest, r, ItemEffect::ClearAbove, rates.0, bytes[0], bytes[1], lo, hi);
            let b = stocked_once(a, r, ItemEffect::UnifyColors, rates.1, bytes[2], bytes[3], lo, hi);
            let c = stocked_once(b, r, ItemEffect::StarifyScreen, rates.2, bytes[4], bytes[5], lo, hi);
            stocked(g, dice, rates, lo, from, r + 1, hi) == (c, d.after_bytes(8))
        }),
        stocked(g, dice, rates, lo, from, from, hi) == (g, dice),
{
}

} // verus!
