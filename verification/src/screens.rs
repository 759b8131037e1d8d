//! The screens of the program: which one follows which, what is forgotten on
//! the way, when music plays, and what ends a journey back in time.
use vstd::prelude::*;

use crate::game::{fresh_world, Game, World};
use crate::constants::{LIVES_DEFAULT, SURFACE_ROWS};
use crate::settings::{core_set, settings_rates, Settings};

verus! {

/// What is on show.
#[derive(Debug, Clone, Copy, PartialEq, Eq, Structural)]
pub enum Screen {
    Title,
    ModeSelect,
    Settings,
    Help,
    Playing,
    Battle,
    NetworkLobby,
}

/// What is laid over a paused game.
#[derive(Debug, Clone, Copy, PartialEq, Eq, Structural)]
pub enum PauseOverlay {
    Hidden,
    Settings,
    Help,
}

/// A change of screens.
#[derive(Debug, Clone, Copy, PartialEq, Eq, Structural)]
pub enum ScreenTransition {
    Quit,
    ToTitle,
    /// Back to the title out of a game, which is given up.
    ToTitleDiscardingGame,
    ToModeSelect,
    ToSettings,
    ToHelp,
    ToPlaying,
    ToNetworkLobby,
    ToBattle,
}

/// What the program remembers from frame to frame, besides games and
/// connections.
#[derive(Debug, Clone, Copy, PartialEq, Eq, Structural)]
pub struct Session {
    pub screen: Screen,
    pub pause_overlay: PauseOverlay,
    /// The computer plays.
    pub autopilot: bool,
    /// It plays because nobody did.
    pub autopilot_is_attract_demo: bool,
    /// Milliseconds for which nothing has been pressed on the title screen.
    pub title_idle_ms: u64,
    /// The player is going back in time.
    pub rewinding: bool,
    /// The music of the title plays.
    pub title_music: bool,
    /// The music of the game plays.
    pub gameplay_music: bool,
    /// The music of the title has to begin anew.
    pub title_bgm_restart: bool,
    /// The music of the game has to begin anew.
    pub gameplay_bgm_restart: bool,
}

/// What one frame leads to.
#[derive(Debug, Clone, Copy, PartialEq, Eq, Structural)]
pub struct FrameEnd {
    pub session: Session,
    pub quit: bool,
    /// The clock has to be read anew, so that what took time before does not
    /// count as a frame.
    pub reset_clock: bool,
    /// The moments that were kept for going back in time are to be forgotten.
    pub clear_history: bool,
}

/// The screen belongs to a game.
pub open spec fn in_game(screen: Screen) -> bool {
    screen == Screen::Playing || screen == Screen::Battle
}

/// The screen after a change.
pub open spec fn screen_after(now: Screen, change: Option<ScreenTransition>) -> Screen {
    match change {
        None => now,
        Some(ScreenTransition::Quit) => now,
        Some(ScreenTransition::ToTitle) => Screen::Title,
        Some(ScreenTransition::ToTitleDiscardingGame) => Screen::Title,
        Some(ScreenTransition::ToModeSelect) => Screen::ModeSelect,
        Some(ScreenTransition::ToSettings) => Screen::Settings,
        Some(ScreenTransition::ToHelp) => Screen::Help,
        Some(ScreenTransition::ToPlaying) => Screen::Playing,
        Some(ScreenTransition::ToNetworkLobby) => Screen::NetworkLobby,
        Some(ScreenTransition::ToBattle) => Screen::Battle,
    }
}

/// What becomes of the session when the screen changes.
pub open spec fn session_after(s: Session, change: Option<ScreenTransition>) -> Session {
    let moved = Session { screen: screen_after(s.screen, change), ..s };
    if change == Some(ScreenTransition::ToTitleDiscardingGame) {
        Session {
            pause_overlay: PauseOverlay::Hidden,
            autopilot: false,
            autopilot_is_attract_demo: false,
            title_idle_ms: 0,
            rewinding: false,
            gameplay_bgm_restart: true,
            ..moved
        }
    } else {
        moved
    }
}

/// The music that goes with the screen: at most one of the two plays, and that
/// of the title begins anew whenever it comes on.
pub open spec fn tuned_in(s: Session, music_enabled: bool) -> Session {
    let title = music_enabled && !in_game(s.screen);
    Session {
        title_music: title,
        gameplay_music: music_enabled && in_game(s.screen),
        title_bgm_restart: s.title_bgm_restart || (title && !s.title_music),
        ..s
    }
}

/// What a frame that ends with a change of screens leads to. Leaving the
/// program leaves everything else as it is.
pub open spec fn frame_end(s: Session, change: Option<ScreenTransition>, music_enabled: bool) -> FrameEnd {
    if change == Some(ScreenTransition::Quit) {
        FrameEnd { session: s, quit: true, reset_clock: false, clear_history: false }
    } else {
        FrameEnd {
            session: tuned_in(session_after(s, change), music_enabled),
            quit: false,
            reset_clock: change == Some(ScreenTransition::ToPlaying) || change == Some(
                ScreenTransition::ToBattle,
            ),
            clear_history: change == Some(ScreenTransition::ToTitleDiscardingGame),
        }
    }
}

/// The session when the program starts.
pub open spec fn first_session(music_enabled: bool) -> Session {
    Session {
        screen: Screen::Title,
        pause_overlay: PauseOverlay::Hidden,
        autopilot: false,
        autopilot_is_attract_demo: false,
        title_idle_ms: 0,
        rewinding: false,
        title_music: music_enabled,
        gameplay_music: false,
        title_bgm_restart: false,
        gameplay_bgm_restart: false,
    }
}

/// Whether the music of the title plays on a screen.
pub fn effective_title_bgm_enabled(music_enabled: bool, screen: Screen) -> (r: bool)
    ensures
        r == (music_enabled && !in_game(screen)),
{
    music_enabled && screen != Screen::Playing && screen != Screen::Battle
}

/// Whether the music of the game plays on a screen.
pub fn effective_gameplay_bgm_enabled(music_enabled: bool, screen: Screen) -> (r: bool)
    ensures
        r == (music_enabled && in_game(screen)),
{
    music_enabled && (screen == Screen::Playing || screen == Screen::Battle)
}

/// Whether the music of the title has to begin anew: it was off and is on.
pub fn should_restart_title_bgm(was_enabled: bool, now_enabled: bool) -> (r: bool)
    ensures
        r == (now_enabled && !was_enabled),
{
    now_enabled && !was_enabled
}

/// The session when the program starts.
pub fn start_session(music_enabled: bool) -> (s: Session)
    ensures
        s == first_session(music_enabled),
{
    Session {
        screen: Screen::Title,
        pause_overlay: PauseOverlay::Hidden,
        autopilot: false,
        autopilot_is_attract_demo: false,
        title_idle_ms: 0,
        rewinding: false,
        title_music: effective_title_bgm_enabled(music_enabled, Screen::Title),
        gameplay_music: effective_gameplay_bgm_enabled(music_enabled, Screen::Title),
        title_bgm_restart: false,
        gameplay_bgm_restart: false,
    }
}

/// Ends a frame: changes the screen if that is asked for, forgets what belongs
/// to a game that is given up, and picks the music.
pub fn run_transition(session: Session, change: Option<ScreenTransition>, music_enabled: bool) -> (end: FrameEnd)
    ensures
        end == frame_end(session, change, music_enabled),
{
    let mut s: Session = session;
    let mut reset_clock: bool = false;
    let mut clear_history: bool = false;
    match change {
        None => {},
        Some(ScreenTransition::Quit) => {
            return FrameEnd { session, quit: true, reset_clock: false, clear_history: false };
        },
        Some(ScreenTransition::ToTitle) => {
            s.screen = Screen::Title;
        },
        Some(ScreenTransition::ToTitleDiscardingGame) => {
            s.screen = Screen::Title;
            s.pause_overlay = PauseOverlay::Hidden;
            s.autopilot = false;
            s.autopilot_is_attract_demo = false;
            s.title_idle_ms = 0;
            s.rewinding = false;
            s.gameplay_bgm_restart = true;
            clear_history = true;
        },
        Some(ScreenTransition::ToModeSelect) => {
            s.screen = Screen::ModeSelect;
        },
        Some(ScreenTransition::ToSettings) => {
            s.screen = Screen::Settings;
        },
        Some(ScreenTransition::ToHelp) => {
            s.screen = Screen::Help;
        },
        Some(ScreenTransition::ToPlaying) => {
            s.screen = Screen::Playing;
            reset_clock = true;
        },
        Some(ScreenTransition::ToNetworkLobby) => {
            s.screen = Screen::NetworkLobby;
        },
        Some(ScreenTransition::ToBattle) => {
            s.screen = Screen::Battle;
            reset_clock = true;
        },
    }
    let title: bool = effective_title_bgm_enabled(music_enabled, s.screen);
    if should_restart_title_bgm(s.title_music, title) {
        s.title_bgm_restart = true;
    }
    s.title_music = title;
    s.gameplay_music = effective_gameplay_bgm_enabled(music_enabled, s.screen);
    FrameEnd { session: s, quit: false, reset_clock, clear_history }
}

/// The two musics never play together, and none plays if music is off.
pub proof fn law_one_music_at_a_time(s: Session, change: Option<ScreenTransition>, music_enabled: bool)
    requires
        !(s.title_music && s.gameplay_music),
    ensures
        ({
            let after = frame_end(s, change, music_enabled).session;
            !(after.title_music && after.gameplay_music)
        }),
        !music_enabled && change != Some(ScreenTransition::Quit) ==> ({
            let after = frame_end(s, change, music_enabled).session;
            !after.title_music && !after.gameplay_music
        }),
{
}

/// Back at the title out of a game, nothing of the game is left.
pub proof fn law_title_forgets_the_game(s: Session, music_enabled: bool)
    ensures
        ({
            let end = frame_end(s, Some(ScreenTransition::ToTitleDiscardingGame), music_enabled);
            &&& end.session.screen == Screen::Title
            &&& end.session.pause_overlay == PauseOverlay::Hidden
            &&& !end.session.autopilot
            &&& !end.session.rewinding
            &&& end.session.title_idle_ms == 0
            &&& end.session.gameplay_bgm_restart
            &&& end.clear_history
            &&& !end.quit
        }),
{
}

/// The world of a game that is started under settings.
pub open spec fn started(seed: u64, settings: Settings, depth_goal_m: usize) -> World {
    let fresh = fresh_world(seed, LIVES_DEFAULT, settings.field_width, depth_goal_m);
    fresh.with_core(core_set(fresh.core, settings)).rerolled(SURFACE_ROWS as int, settings_rates(settings))
}

/// Starts a game under the settings.
pub fn start_new_game(seed: u64, settings: &Settings, depth_goal_m: usize) -> (game: Game)
    requires
        depth_goal_m > 0,
    ensures
        game.wf(),
        game@ == started(seed, *settings, depth_goal_m),
{
    let mut game = Game::new_with_width(seed, settings.field_width, depth_goal_m);
    game.apply_settings(settings);
    game
}

/// The place after `selection` in a ring of `len`, or before it.
pub open spec fn cycled(selection: int, len: int, forward: bool) -> int {
    if forward {
        (selection + 1) % len
    } else if selection > 0 {
        selection - 1
    } else {
        len - 1
    }
}

/// Goes on to the next of `len` pieces of music, or back to the one before. The
/// first follows the last.
pub fn cycle_jukebox_selection(selection: usize, len: usize, forward: bool) -> (next: usize)
    requires
        forward || selection == 0 ==> len > 0,
        forward ==> selection < usize::MAX,
    ensures
        next == cycled(selection as int, len as int, forward),
{
    if forward {
        (selection + 1) % len
    } else if selection > 0 {
        selection - 1
    } else {
        len - 1
    }
}

/// Going on and going back undo each other, and neither leaves the ring.
pub proof fn law_cycling_is_undone(selection: int, len: int)
    requires
        0 <= selection < len,
    ensures
        0 <= cycled(selection, len, true) < len,
        0 <= cycled(selection, len, false) < len,
        cycled(cycled(selection, len, true), len, false) == selection,
        cycled(cycled(selection, len, false), len, true) == selection,
{
    if selection + 1 < len {
        assert((selection + 1) % len == selection + 1) by (nonlinear_arith)
            requires
                0 <= selection,
                selection + 1 < len,
        ;
    } else {
        assert((selection + 1) % len == 0) by (nonlinear_arith)
            requires
                selection + 1 == len,
                len > 0,
        ;
    }
    if selection > 0 {
        assert(selection % len == selection) by (nonlinear_arith)
            requires
                0 <= selection < len,
        ;
    } else {
        assert(len % len == 0) by (nonlinear_arith)
            requires
                len > 0,
        ;
    }
}

/// What an input has done on a journey back in time.
#[derive(Debug, Clone, Copy, PartialEq, Eq, Structural)]
pub enum RewindOutcome {
    Continue,
    /// The player goes back to the moment that many kept moments ago.
    Confirm(usize),
    Cancel,
}

/// The moments that were kept for going back in time, the oldest first.
#[derive(Debug)]
pub struct RewindHistory {
    pub moments: Vec<Game>,
}

impl RewindHistory {
    /// Every moment that was kept is a sound game.
    pub open spec fn wf(&self) -> bool {
        forall|i: int| 0 <= i < self.moments@.len() ==> (#[trigger] self.moments@[i]).wf()
    }

    /// Nothing is kept yet.
    pub fn new() -> (h: Self)
        ensures
            h.wf(),
            h.moments@.len() == 0,
    {
        RewindHistory { moments: Vec::new() }
    }

    /// How many moments are kept.
    pub fn len(&self) -> (n: usize)
        ensures
            n == self.moments@.len(),
    {
        self.moments.len()
    }

    /// Keeps the moment, if it is worth it.
    pub fn keep(&mut self, game: &Game)
        requires
            old(self).wf(),
            game.wf(),
        ensures
            final(self).wf(),
            if game@.worth_keeping() {
                &&& final(self).moments@.len() == old(self).moments@.len() + 1
                &&& final(self).moments@.drop_last() =~= old(self).moments@
                &&& final(self).moments@.last()@ == game@
            } else {
                final(self).moments@ == old(self).moments@
            },
    {
        if game.is_rewind_capturable() {
            self.moments.push(game.clone());
        }
    }

    /// Forgets everything.
    pub fn clear(&mut self)
        ensures
            final(self).wf(),
            final(self).moments@.len() == 0,
    {
        self.moments.clear();
    }

    /// Forgets the `cursor` newest moments: they have not happened.
    pub fn discard_newer_than(&mut self, cursor: usize)
        requires
            old(self).wf(),
            cursor < old(self).moments@.len(),
        ensures
            final(self).wf(),
            final(self).moments@ == old(self).moments@.take(old(self).moments@.len() - cursor),
    {
        let n: usize = self.moments.len() - cursor;
        self.moments.truncate(n);
        assert(self.moments@ =~= old(self).moments@.take(n as int));
    }
}

/// The first outcome that ends the journey, if there is one.
pub open spec fn first_end(outcomes: Seq<RewindOutcome>) -> RewindOutcome
    decreases outcomes.len(),
{
    if outcomes.len() == 0 {
        RewindOutcome::Continue
    } else if first_end(outcomes.drop_last()) != RewindOutcome::Continue {
        first_end(outcomes.drop_last())
    } else {
        outcomes.last()
    }
}

/// How a frame of a journey back in time ends.
#[derive(Debug, Clone, Copy, PartialEq, Eq, Structural)]
pub enum RewindStep {
    /// The journey goes on.
    Traveling,
    /// The journey is over, and the player is back where they were or, if
    /// `restored`, at the moment they chose.
    Arrived { restored: bool },
}

/// The moment that is gone back to, if any: going back by nothing is staying.
pub open spec fn destination(outcome: RewindOutcome) -> Option<usize> {
    match outcome {
        RewindOutcome::Confirm(cursor) => if cursor > 0 {
            Some(cursor)
        } else {
            None
        },
        _ => None,
    }
}

fn find_first_end(outcomes: &[RewindOutcome]) -> (outcome: RewindOutcome)
    ensures
        outcome == first_end(outcomes@),
{
    let mut outcome: RewindOutcome = RewindOutcome::Continue;
    let mut i: usize = 0;
    assert(outcomes@.take(0) =~= Seq::<RewindOutcome>::empty());
    while i < outcomes.len()
        invariant
            i <= outcomes@.len(),
            outcome == first_end(outcomes@.take(i as int)),
        decreases outcomes@.len() - i,
    {
        proof {
            let t = outcomes@.take(i + 1);
            assert(t.drop_last() =~= outcomes@.take(i as int));
            assert(t.last() == outcomes@[i as int]);
        }
        if outcome == RewindOutcome::Continue {
            outcome = outcomes[i];
        }
        i = i + 1;
    }
    assert(outcomes@.take(outcomes@.len() as int) =~= outcomes@);
    outcome
}

/// Ends a frame of a journey back in time, given what the inputs of the frame
/// did, in order. The first that ends the journey counts. Going back to a
/// moment restores it, and forgets the moments after it.
pub fn advance_rewind_session(game: &mut Game, history: &mut RewindHistory, outcomes: &[RewindOutcome]) -> (step: RewindStep)
    requires
        old(game).wf(),
        old(history).wf(),
        destination(first_end(outcomes@)) matches Some(cursor) ==> cursor < old(history).moments@.len(),
    ensures
        final(game).wf(),
        final(history).wf(),
        ({
            let end = first_end(outcomes@);
            let n = old(history).moments@.len();
            match destination(end) {
                Some(cursor) => {
                    &&& step == (RewindStep::Arrived { restored: true })
                    &&& final(game)@ == old(game)@.rewound(old(history).moments@[n - 1 - cursor]@)
                    &&& final(history).moments@ == old(history).moments@.take(n - cursor)
                },
                None => {
                    &&& step == (if end == RewindOutcome::Continue {
                        RewindStep::Traveling
                    } else {
                        RewindStep::Arrived { restored: false }
                    })
                    &&& final(game)@ == old(game)@
                    &&& final(history).moments@ == old(history).moments@
                },
            }
        }),
{
    match find_first_end(outcomes) {
        RewindOutcome::Continue => RewindStep::Traveling,
        RewindOutcome::Cancel => RewindStep::Arrived { restored: false },
        RewindOutcome::Confirm(cursor) => {
            if cursor == 0 {
                return RewindStep::Arrived { restored: false };
            }
            let i: usize = history.moments.len() - 1 - cursor;
            game.restore_for_rewind(&history.moments[i]);
            history.discard_newer_than(cursor);
            RewindStep::Arrived { restored: true }
        },
    }
}

} // verus!
