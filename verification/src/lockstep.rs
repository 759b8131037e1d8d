//! Lockstep: every player of a match runs the games of all of them, tick by
//! tick in a fixed order, so that all see the same.
use vstd::prelude::*;

use crate::board::ItemEffect;
use crate::constants::{least, ms, MOVE_ANIM_DURATION_MS, NANOS_PER_MS, NET_TICK_MS};
use crate::controls::{acted, pickup_used, pickups_used, shoved, stroked, strolled};
use crate::frame::framed;
use crate::game::{Core, Game, GameEvent, GameStatus, InputAction, Tale, World};
use crate::groups::Pickup;
use crate::mishaps::item_used;
use crate::physics::{stepped, LateralOutcome};
use crate::player::Direction;
use crate::state_hash::digest;

verus! {

impl World {
    /// What was to be sent to the opponents is sent.
    pub open spec fn disarmed(self) -> World {
        self.with_core(Core { attack_power_pending: 0, ..self.core })
    }

    /// An attack has come in, if the player is still in the game.
    pub open spec fn attacked(self, power: int) -> World {
        if self.status == GameStatus::Playing {
            self.with_core(
                Core {
                    incoming_attack_power: least(
                        self.core.incoming_attack_power + power,
                        u32::MAX as int,
                    ) as u32,
                    ..self.core
                },
            )
        } else {
            self
        }
    }

    /// One tick of the game itself: an input, if there is one, and the time of
    /// a tick.
    pub open spec fn ticked(self, action: Option<InputAction>) -> World {
        let acting = match action {
            Some(a) => acted(self, a).0,
            None => self,
        };
        framed(acting, ms(NET_TICK_MS as int) as u64).0
    }

    /// The attack that the player has ready.
    pub open spec fn power(self) -> int {
        self.core.attack_power_pending as int
    }
}

/// One tick of a match of two.
pub open spec fn tick_of_two(
    local: World,
    remote: World,
    local_action: Option<InputAction>,
    remote_action: Option<InputAction>,
) -> (World, World) {
    let a = local.ticked(local_action);
    let b = remote.ticked(remote_action);
    (a.disarmed().attacked(b.power()), b.disarmed().attacked(a.power()))
}

/// The worlds of a list of games.
pub open spec fn worlds(games: Seq<Game>) -> Seq<World> {
    Seq::new(games.len(), |i: int| games[i]@)
}

/// One tick of the game of each player.
pub open spec fn all_ticked(ws: Seq<World>, actions: Seq<Option<InputAction>>) -> Seq<World> {
    Seq::new(ws.len(), |i: int| ws[i].ticked(actions[i]))
}

/// The attacks that the first `n` players have ready, but for player `i`.
pub open spec fn power_of_others(ws: Seq<World>, i: int, n: nat) -> int
    decreases n,
{
    if n == 0 {
        0
    } else {
        power_of_others(ws, i, (n - 1) as nat) + (if n - 1 == i {
            0
        } else {
            ws[n - 1].power()
        })
    }
}

/// One tick of a match of any number of players. The attack of each goes in
/// full to each of the others who is still in the game.
pub open spec fn tick_of_all(ws: Seq<World>, actions: Seq<Option<InputAction>>) -> Seq<World> {
    let after = all_ticked(ws, actions);
    Seq::new(
        ws.len(),
        |i: int| after[i].disarmed().attacked(power_of_others(after, i, after.len())),
    )
}

/// Every game can run one tick more.
pub open spec fn all_can_tick(games: Seq<Game>) -> bool {
    forall|i: int|
        0 <= i < games.len() ==> (#[trigger] games[i]).wf() && games[i].core.frame_counter < u64::MAX
}

/// The attacks of others are not negative.
proof fn lemma_power_of_others(ws: Seq<World>, i: int, n: nat)
    ensures
        power_of_others(ws, i, n) >= 0,
    decreases n,
{
    if n > 0 {
        lemma_power_of_others(ws, i, (n - 1) as nat);
    }
}

proof fn lemma_item_keeps_frame(t: Tale, effect: ItemEffect)
    ensures
        item_used(t, effect).0.core.frame_counter == t.0.core.frame_counter,
{
}

proof fn lemma_pickups_keep_frame(t: Tale, first: Option<Pickup>, second: Option<Pickup>)
    ensures
        pickups_used(t, first, second).0.core.frame_counter == t.0.core.frame_counter,
{
    let told = if first == Some(Pickup::Oxygen) || second == Some(Pickup::Oxygen) {
        (t.0, t.1.push(GameEvent::OxygenCollected))
    } else {
        t
    };
    if let Some(Pickup::Item(effect)) = first {
        lemma_item_keeps_frame(told, effect);
    }
    if let Some(Pickup::Item(effect)) = second {
        lemma_item_keeps_frame(pickup_used(told, first), effect);
    }
}

proof fn lemma_stroll_keeps_frame(w: World, dir: Direction)
    ensures
        strolled(w, dir).0.core.frame_counter == w.core.frame_counter,
{
    let shove = shoved(w.step_paid(), dir);
    assert(shove.world.core.frame_counter == w.core.frame_counter);
    match shove.climb {
        Some(taken) => {
            lemma_pickups_keep_frame((shove.world, Seq::empty()), taken.0, taken.1);
        },
        None => {
            let s = stepped(shove.world.grid, shove.world.width as int, shove.world.player, dir);
            let t = (
                (World { grid: s.grid, player: s.player, ..shove.world }).moved_from(
                    w.here(),
                    ms(MOVE_ANIM_DURATION_MS as int) as u64,
                ),
                Seq::<GameEvent>::empty(),
            );
            assert(t.0.core.frame_counter == w.core.frame_counter);
            match s.outcome {
                LateralOutcome::MovedLevelAndCollectedItem(effect) => {
                    lemma_item_keeps_frame(t, effect);
                },
                LateralOutcome::ClimbedStep { overhead, landing } => {
                    lemma_pickups_keep_frame(t, overhead, landing);
                },
                _ => {},
            }
        },
    }
}

proof fn lemma_stroke_keeps_frame(w: World)
    ensures
        stroked(w).0.core.frame_counter == w.core.frame_counter,
{
}

/// An input does not count as a frame.
pub proof fn lemma_input_keeps_frame(w: World, action: InputAction)
    ensures
        acted(w, action).0.core.frame_counter == w.core.frame_counter,
{
    lemma_stroke_keeps_frame(w);
    lemma_stroll_keeps_frame(w, Direction::Left);
    lemma_stroll_keeps_frame(w, Direction::Right);
}

impl Game {
    /// Takes out what is to be sent to the opponents.
    pub fn take_pending_attack_power(&mut self) -> (power: u32)
        requires
            old(self).wf(),
        ensures
            final(self).wf(),
            power == old(self)@.power(),
            final(self)@ == old(self)@.disarmed(),
            final(self).core.frame_counter == old(self).core.frame_counter,
    {
        let power: u32 = self.core.attack_power_pending;
        self.core.attack_power_pending = 0;
        power
    }

    /// Takes in what an opponent has sent, up to the largest that can be
    /// counted.
    pub fn receive_incoming_attack(&mut self, power: u32)
        requires
            old(self).wf(),
        ensures
            final(self).wf(),
            final(self)@ == old(self)@.with_core(
                Core {
                    incoming_attack_power: least(
                        old(self).core.incoming_attack_power + power,
                        u32::MAX as int,
                    ) as u32,
                    ..old(self).core
                },
            ),
    {
        if power > u32::MAX - self.core.incoming_attack_power {
            self.core.incoming_attack_power = u32::MAX;
        } else {
            self.core.incoming_attack_power = self.core.incoming_attack_power + power;
        }
    }

    /// What opponents have sent and has not become rocks yet.
    pub fn incoming_attack_power(&self) -> (power: u32)
        ensures
            power == self.core.incoming_attack_power,
    {
        self.core.incoming_attack_power
    }

    /// Runs one tick of the game.
    fn tick(&mut self, action: Option<InputAction>)
        requires
            old(self).wf(),
            old(self).core.frame_counter < u64::MAX,
        ensures
            final(self).wf(),
            final(self)@ == old(self)@.ticked(action),
    {
        if let Some(a) = action {
            proof {
                lemma_input_keeps_frame(self@, a);
            }
            let told = self.apply_input(a);
        }
        let told = self.update(NET_TICK_MS * NANOS_PER_MS);
    }
}

/// Runs one tick of a match of two: both inputs, both games, then the attacks,
/// each only against a player who is still in the game.
pub fn run_tick(
    game_local: &mut Game,
    game_remote: &mut Game,
    local_action: Option<InputAction>,
    remote_action: Option<InputAction>,
)
    requires
        old(game_local).wf(),
        old(game_remote).wf(),
        old(game_local).core.frame_counter < u64::MAX,
        old(game_remote).core.frame_counter < u64::MAX,
    ensures
        final(game_local).wf(),
        final(game_remote).wf(),
        (final(game_local)@, final(game_remote)@) == tick_of_two(
            old(game_local)@,
            old(game_remote)@,
            local_action,
            remote_action,
        ),
{
    game_local.tick(local_action);
    game_remote.tick(remote_action);
    let local_power: u32 = game_local.take_pending_attack_power();
    let remote_power: u32 = game_remote.take_pending_attack_power();
    if remote_power > 0 && game_local.status == GameStatus::Playing {
        game_local.receive_incoming_attack(remote_power);
    }
    if local_power > 0 && game_remote.status == GameStatus::Playing {
        game_remote.receive_incoming_attack(local_power);
    }
}

/// Runs one tick of a match of any number of players, in the order of
/// `run_tick`. The inputs are in the order of the games.
pub fn run_tick_n(games: &mut Vec<Game>, actions: &[Option<InputAction>])
    requires
        old(games)@.len() == actions@.len(),
        all_can_tick(old(games)@),
    ensures
        final(games)@.len() == old(games)@.len(),
        forall|i: int| 0 <= i < final(games)@.len() ==> (#[trigger] final(games)@[i]).wf(),
        worlds(final(games)@) == tick_of_all(worlds(old(games)@), actions@),
{
    let ghost before = worlds(games@);
    let ghost after = all_ticked(before, actions@);
    let n: usize = games.len();
    let mut powers: Vec<u32> = Vec::new();
    let mut i: usize = 0;
    while i < n
        invariant
            n == games@.len(),
            n == actions@.len(),
            n == before.len(),
            after == all_ticked(before, actions@),
            i <= n,
            powers@.len() == i,
            forall|k: int| 0 <= k < i ==> (#[trigger] games@[k]).wf() && games@[k]@ == after[k].disarmed(),
            forall|k: int| 0 <= k < i ==> #[trigger] powers@[k] == after[k].power(),
            forall|k: int|
                i <= k < n ==> (#[trigger] games@[k]).wf() && games@[k].core.frame_counter < u64::MAX
                    && games@[k]@ == before[k],
        decreases n - i,
    {
        games[i].tick(actions[i]);
        let power: u32 = games[i].take_pending_attack_power();
        powers.push(power);
        i = i + 1;
    }
    let mut j: usize = 0;
    while j < n
        invariant
            n == games@.len(),
            n == powers@.len(),
            n == after.len(),
            j <= n,
            forall|k: int| 0 <= k < n ==> #[trigger] powers@[k] == after[k].power(),
            forall|k: int|
                0 <= k < n ==> (#[trigger] games@[k]).wf() && games@[k]@ == (if k < j {
                    after[k].disarmed().attacked(power_of_others(after, k, n as nat))
                } else {
                    after[k].disarmed()
                }),
        decreases n - j,
    {
        let mut s: usize = 0;
        while s < n
            invariant
                n == games@.len(),
                n == powers@.len(),
                n == after.len(),
                j < n,
                s <= n,
                forall|k: int| 0 <= k < n ==> #[trigger] powers@[k] == after[k].power(),
                forall|k: int|
                    0 <= k < n ==> (#[trigger] games@[k]).wf() && games@[k]@ == (if k < j {
                        after[k].disarmed().attacked(power_of_others(after, k, n as nat))
                    } else if k == j {
                        after[k].disarmed().attacked(power_of_others(after, k, s as nat))
                    } else {
                        after[k].disarmed()
                    }),
            decreases n - s,
        {
            proof {
                lemma_power_of_others(after, j as int, s as nat);
            }
            if s != j && powers[s] > 0 && games[j].status == GameStatus::Playing {
                let power: u32 = powers[s];
                games[j].receive_incoming_attack(power);
            }
            s = s + 1;
        }
        j = j + 1;
    }
    assert(worlds(games@) =~= tick_of_all(before, actions@));
}

/// The two players of a match see the same: what one takes for their own game
/// is what the other takes for the opponent's.
pub proof fn law_both_sides_see_the_same(
    a: World,
    b: World,
    a_action: Option<InputAction>,
    b_action: Option<InputAction>,
)
    ensures
        ({
            let (a_local, a_remote) = tick_of_two(a, b, a_action, b_action);
            let (b_local, b_remote) = tick_of_two(b, a, b_action, a_action);
            a_local == b_remote && a_remote == b_local
        }),
{
}

proof fn lemma_pair(
    ws: Seq<World>,
    actions: Seq<Option<InputAction>>,
    a: World,
    b: World,
    a_action: Option<InputAction>,
    b_action: Option<InputAction>,
)
    requires
        ws.len() == 2,
        ws[0] == a,
        ws[1] == b,
        actions.len() == 2,
        actions[0] == a_action,
        actions[1] == b_action,
    ensures
        ({
            let (x, y) = tick_of_two(a, b, a_action, b_action);
            tick_of_all(ws, actions) == seq![x, y]
        }),
{
    reveal_with_fuel(power_of_others, 3);
    let after = all_ticked(ws, actions);
    assert(after.len() == 2);
    assert(after[0] == a.ticked(a_action));
    assert(after[1] == b.ticked(b_action));
}

/// A match of two is a match of any number of players with two of them.
pub proof fn law_two_are_many(ws: Seq<World>, actions: Seq<Option<InputAction>>)
    requires
        ws.len() == 2,
        actions.len() == 2,
    ensures
        tick_of_all(ws, actions) == seq![
            tick_of_two(ws[0], ws[1], actions[0], actions[1]).0,
            tick_of_two(ws[0], ws[1], actions[0], actions[1]).1,
        ],
{
    lemma_pair(ws, actions, ws[0], ws[1], actions[0], actions[1]);
}

/// Told in the other order, a match of two leads to the same games in the other
/// order.
pub proof fn law_two_may_swap(a: World, b: World, a_action: Option<InputAction>, b_action: Option<InputAction>)
    ensures
        ({
            let (x, y) = tick_of_two(a, b, a_action, b_action);
            &&& tick_of_all(seq![a, b], seq![a_action, b_action]) =~= seq![x, y]
            &&& tick_of_all(seq![b, a], seq![b_action, a_action]) =~= seq![y, x]
        }),
{
    lemma_pair(seq![a, b], seq![a_action, b_action], a, b, a_action, b_action);
    lemma_pair(seq![b, a], seq![b_action, a_action], b, a, b_action, a_action);
    law_both_sides_see_the_same(a, b, a_action, b_action);
}

proof fn lemma_digests_of_two(all: Seq<World>, x: World, y: World)
    requires
        all == seq![x, y],
    ensures
        digest(all[0]) == digest(x),
        digest(all[1]) == digest(y),
{
}

/// The two find the same digests whether they play as two or as many.
pub proof fn law_two_digest_as_many(ws: Seq<World>, actions: Seq<Option<InputAction>>)
    requires
        ws.len() == 2,
        actions.len() == 2,
    ensures
        digest(tick_of_all(ws, actions)[0]) == digest(
            tick_of_two(ws[0], ws[1], actions[0], actions[1]).0,
        ),
        digest(tick_of_all(ws, actions)[1]) == digest(
            tick_of_two(ws[0], ws[1], actions[0], actions[1]).1,
        ),
{
    lemma_pair(ws, actions, ws[0], ws[1], actions[0], actions[1]);
    lemma_digests_of_two(
        tick_of_all(ws, actions),
        tick_of_two(ws[0], ws[1], actions[0], actions[1]).0,
        tick_of_two(ws[0], ws[1], actions[0], actions[1]).1,
    );
}

/// What player `i` of one order is player `f[i]` of the other.
pub open spec fn reorders(f: Seq<int>, n: nat) -> bool {
    &&& f.len() == n
    &&& f.no_duplicates()
    &&& forall|i: int| 0 <= i < n ==> 0 <= #[trigger] f[i] < n
}

/// All attacks of the first `n` players.
pub open spec fn power_of_all(ws: Seq<World>, n: nat) -> int
    decreases n,
{
    if n == 0 {
        0
    } else {
        power_of_all(ws, (n - 1) as nat) + ws[n - 1].power()
    }
}

proof fn lemma_others_are_all_but_one(ws: Seq<World>, i: int, n: nat)
    ensures
        power_of_others(ws, i, n) == power_of_all(ws, n) - (if 0 <= i < n {
            ws[i].power()
        } else {
            0
        }),
    decreases n,
{
    if n > 0 {
        lemma_others_are_all_but_one(ws, i, (n - 1) as nat);
    }
}

proof fn lemma_power_agrees(ws: Seq<World>, vs: Seq<World>, n: nat)
    requires
        forall|i: int| 0 <= i < n ==> #[trigger] ws[i] == vs[i],
    ensures
        power_of_all(ws, n) == power_of_all(vs, n),
    decreases n,
{
    if n > 0 {
        assert(ws[n - 1] == vs[n - 1]);
        lemma_power_agrees(ws, vs, (n - 1) as nat);
    }
}

/// Taking one player out takes their attack out.
proof fn lemma_power_without(ws: Seq<World>, k: int)
    requires
        0 <= k < ws.len(),
    ensures
        power_of_all(ws, ws.len()) == power_of_all(ws.remove(k), (ws.len() - 1) as nat) + ws[k].power(),
    decreases ws.len(),
{
    let n = ws.len();
    if k == n - 1 {
        lemma_power_agrees(ws, ws.remove(k), (n - 1) as nat);
    } else {
        let init = ws.drop_last();
        lemma_power_without(init, k);
        assert(init.remove(k) =~= ws.remove(k).drop_last());
        lemma_power_agrees(ws, init, (n - 1) as nat);
        lemma_power_agrees(ws.remove(k), init.remove(k), (n - 2) as nat);
        assert(ws.remove(k)[n - 2] == ws[n - 1]);
    }
}

/// The order of the players does not change the sum of their attacks.
proof fn lemma_power_reordered(ws: Seq<World>, vs: Seq<World>, f: Seq<int>)
    requires
        ws.len() == vs.len(),
        reorders(f, ws.len()),
        forall|i: int| 0 <= i < ws.len() ==> #[trigger] vs[i] == ws[f[i]],
    ensures
        power_of_all(ws, ws.len()) == power_of_all(vs, vs.len()),
    decreases ws.len(),
{
    let n = ws.len();
    if n > 0 {
        let k = f[n - 1];
        let rest = ws.remove(k);
        let init = vs.drop_last();
        let g = Seq::new(
            (n - 1) as nat,
            |i: int|
                if f[i] < k {
                    f[i]
                } else {
                    f[i] - 1
                },
        );
        assert forall|i: int| 0 <= i < n - 1 implies 0 <= #[trigger] g[i] < n - 1 && init[i] == rest[g[i]] by {
            assert(f[i] != f[n - 1]);
            assert(vs[i] == ws[f[i]]);
        }
        assert(g.no_duplicates()) by {
            assert forall|i: int, j: int| 0 <= i < g.len() && 0 <= j < g.len() && i != j implies g[i] != g[j] by {
                assert(f[i] != f[j]);
                assert(f[i] != f[n - 1]);
                assert(f[j] != f[n - 1]);
            }
        }
        lemma_power_reordered(rest, init, g);
        lemma_power_without(ws, k);
        lemma_power_agrees(vs, init, (n - 1) as nat);
        assert(vs[n - 1] == ws[k]);
    }
}

/// All players of a match see the same, in whatever order each of them lists
/// the players: the game of a player comes out the same for everyone.
pub proof fn law_everyone_sees_the_same(
    ws: Seq<World>,
    actions: Seq<Option<InputAction>>,
    others: Seq<World>,
    others_actions: Seq<Option<InputAction>>,
    f: Seq<int>,
    i: int,
)
    requires
        ws.len() == actions.len(),
        others.len() == ws.len(),
        others_actions.len() == ws.len(),
        reorders(f, ws.len()),
        forall|k: int| 0 <= k < ws.len() ==> #[trigger] others[k] == ws[f[k]],
        forall|k: int| 0 <= k < ws.len() ==> #[trigger] others_actions[k] == actions[f[k]],
        0 <= i < ws.len(),
    ensures
        tick_of_all(others, others_actions)[i] == tick_of_all(ws, actions)[f[i]],
{
    let a = all_ticked(ws, actions);
    let b = all_ticked(others, others_actions);
    assert forall|k: int| 0 <= k < a.len() implies #[trigger] b[k] == a[f[k]] by {
        assert(others[k] == ws[f[k]]);
        assert(others_actions[k] == actions[f[k]]);
    }
    lemma_power_reordered(a, b, f);
    lemma_others_are_all_but_one(b, i, b.len());
    lemma_others_are_all_but_one(a, f[i], a.len());
    assert(b[i] == a[f[i]]);
}

/// In a tick, everyone's attack is spent, and whoever is out of the game is
/// spared.
pub proof fn law_attacks_are_spent_on_the_living(ws: Seq<World>, actions: Seq<Option<InputAction>>, i: int)
    requires
        0 <= i < ws.len(),
        ws.len() == actions.len(),
    ensures
        tick_of_all(ws, actions)[i].power() == 0,
        ({
            let after = ws[i].ticked(actions[i]);
            after.status != GameStatus::Playing ==> tick_of_all(ws, actions)[i].core.incoming_attack_power
                == after.core.incoming_attack_power
        }),
{
}

} // verus!
