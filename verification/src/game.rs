//! A play session: the level menu, the attempt at a level, and how an
//! attempt ends.

use vstd::prelude::*;
use crate::time::LevelTime;

verus! {

/// The screen the session is on.
#[derive(Clone, Copy, PartialEq, Eq, Structural, Debug)]
pub enum GameState {
    LevelMenu,
    Playing,
    LevelCompleted,
    GameOver,
}

/// The keys that went down in one frame.
#[derive(Clone, Copy, Debug)]
pub struct Keys {
    pub escape: bool,
    pub enter: bool,
    pub up: bool,
    pub down: bool,
}

/// What the caller has to do in one frame, as [`Game::update`] decides it.
#[derive(Clone, Copy, PartialEq, Eq, Structural, Debug)]
pub struct Frame {
    /// A new attempt starts: load the chosen level, put the bike at its
    /// start and set the clocks to zero.
    pub reset: bool,
    /// The attempt is running: simulate.
    pub play: bool,
}

/// How a substep leaves the attempt.
#[derive(Clone, Copy, PartialEq, Eq, Structural, Debug)]
pub enum Outcome {
    /// The attempt goes on.
    Running,
    /// Every star is collected.
    Completed,
    /// The bike is destroyed.
    Crashed,
}

/// A play session.
pub struct Game {
    state: GameState,
    level_times: Vec<LevelTime>,
    level_index: usize,
    running: bool,
}

/// A session as the contracts see it.
pub struct GameView {
    pub state: GameState,
    /// The best time of each level.
    pub level_times: Seq<LevelTime>,
    /// The level that is chosen in the menu and played.
    pub level_index: int,
    /// False once the player has left the program.
    pub running: bool,
}

impl GameView {
    /// The chosen level is one of the levels.
    pub open spec fn wf(self) -> bool {
        0 <= self.level_index < self.level_times.len()
    }

    /// The session after the escape key: in the menu it ends the program,
    /// elsewhere it leads back to the menu.
    pub open spec fn after_escape(self) -> GameView {
        if self.state is LevelMenu {
            GameView { running: false, ..self }
        } else {
            GameView { state: GameState::LevelMenu, ..self }
        }
    }

    /// Whether the enter key starts a new attempt: it does everywhere but
    /// on the screen of a completed level.
    pub open spec fn enter_resets(self) -> bool {
        !(self.state is LevelCompleted)
    }

    /// The session after the enter key: from a completed level it leads to
    /// the menu, elsewhere it starts an attempt at the chosen level.
    pub open spec fn after_enter(self) -> GameView {
        if self.enter_resets() {
            GameView { state: GameState::Playing, ..self }
        } else {
            GameView { state: GameState::LevelMenu, ..self }
        }
    }

    /// The session after the up key: in the menu the choice moves to the
    /// level before, unless it is the first.
    pub open spec fn after_up(self) -> GameView {
        if self.state is LevelMenu && self.level_index > 0 {
            GameView { level_index: self.level_index - 1, ..self }
        } else {
            self
        }
    }

    /// The session after the down key: in the menu the choice moves to the
    /// next level, unless it is the last.
    pub open spec fn after_down(self) -> GameView {
        if self.state is LevelMenu && self.level_index < self.level_times.len() - 1 {
            GameView { level_index: self.level_index + 1, ..self }
        } else {
            self
        }
    }

    /// The session after the keys of one frame, taken in the order escape,
    /// enter, up, down.
    pub open spec fn after_keys(self, keys: Keys) -> GameView {
        let a = if keys.escape {
            self.after_escape()
        } else {
            self
        };
        let b = if keys.enter {
            a.after_enter()
        } else {
            a
        };
        let c = if keys.up {
            b.after_up()
        } else {
            b
        };
        if keys.down {
            c.after_down()
        } else {
            c
        }
    }

    /// What the caller has to do after the keys of one frame.
    pub open spec fn frame(self, keys: Keys) -> Frame {
        let a = if keys.escape {
            self.after_escape()
        } else {
            self
        };
        Frame { reset: keys.enter && a.enter_resets(), play: self.after_keys(keys).state is Playing }
    }

    /// How a substep leaves an attempt: collecting the last star completes
    /// the level even if the bike is destroyed in the same substep.
    pub open spec fn outcome(self, stars_left: nat, alive: bool) -> Outcome {
        if !(self.state is Playing) {
            Outcome::Running
        } else if stars_left == 0 {
            Outcome::Completed
        } else if !alive {
            Outcome::Crashed
        } else {
            Outcome::Running
        }
    }

    /// The session after a substep that took the attempt to `time`.
    pub open spec fn after_substep(self, stars_left: nat, alive: bool, time: LevelTime) -> GameView {
        match self.outcome(stars_left, alive) {
            Outcome::Running => self,
            Outcome::Completed => GameView {
                state: GameState::LevelCompleted,
                level_times: if time.0 < self.level_times[self.level_index].0 {
                    self.level_times.update(self.level_index, time)
                } else {
                    self.level_times
                },
                ..self
            },
            Outcome::Crashed => GameView { state: GameState::GameOver, ..self },
        }
    }
}

impl View for Game {
    type V = GameView;

    closed spec fn view(&self) -> GameView {
        GameView {
            state: self.state,
            level_times: self.level_times@,
            level_index: self.level_index as int,
            running: self.running,
        }
    }
}

impl Game {
    /// A session with `levels` levels: in the menu, on the first level, with
    /// no best time yet.
    pub fn new(levels: usize) -> (game: Game)
        requires
            levels > 0,
        ensures
            game@.wf(),
            game@.state is LevelMenu,
            game@.level_index == 0,
            game@.running,
            game@.level_times == Seq::new(levels as nat, |i: int| LevelTime::spec_invalid()),
    {
        let mut level_times: Vec<LevelTime> = Vec::new();
        let mut i: usize = 0;
        while i < levels
            invariant
                i <= levels,
                level_times@ == Seq::new(i as nat, |k: int| LevelTime::spec_invalid()),
            decreases levels - i,
        {
            level_times.push(LevelTime::invalid());
            i += 1;
            assert(level_times@ =~= Seq::new(i as nat, |k: int| LevelTime::spec_invalid()));
        }
        Game { state: GameState::LevelMenu, level_times, level_index: 0, running: true }
    }

    /// The screen the session is on.
    pub fn state(&self) -> (state: GameState)
        ensures
            state == self@.state,
    {
        self.state
    }

    /// False once the player has left the program.
    pub fn running(&self) -> (running: bool)
        ensures
            running == self@.running,
    {
        self.running
    }

    /// The level that is chosen in the menu and played.
    pub fn level_index(&self) -> (index: usize)
        ensures
            index == self@.level_index,
    {
        self.level_index
    }

    /// The number of levels.
    pub fn level_count(&self) -> (levels: usize)
        ensures
            levels == self@.level_times.len(),
    {
        self.level_times.len()
    }

    /// The best time of level `i`.
    pub fn level_time(&self, i: usize) -> (time: LevelTime)
        requires
            i < self@.level_times.len(),
        ensures
            time == self@.level_times[i as int],
    {
        self.level_times[i]
    }

    /// Starts an attempt at the chosen level.
    pub fn reset_level(&mut self)
        ensures
            final(self)@ == (GameView { state: GameState::Playing, ..old(self)@ }),
    {
        self.state = GameState::Playing;
    }

    /// Takes in the keys that went down in one frame, in the order escape,
    /// enter, up, down, and says what the caller has to do.
    pub fn update(&mut self, keys: &Keys) -> (frame: Frame)
        requires
            old(self)@.wf(),
        ensures
            final(self)@.wf(),
            final(self)@ == old(self)@.after_keys(*keys),
            frame == old(self)@.frame(*keys),
    {
        let mut reset = false;
        if keys.escape {
            match self.state {
                GameState::LevelMenu => {
                    self.running = false;
                },
                _ => {
                    self.state = GameState::LevelMenu;
                },
            }
        }
        if keys.enter {
            match self.state {
                GameState::LevelCompleted => {
                    self.state = GameState::LevelMenu;
                },
                _ => {
                    self.reset_level();
                    reset = true;
                },
            }
        }
        match self.state {
            GameState::LevelMenu => {
                if keys.up && self.level_index > 0 {
                    self.level_index = self.level_index - 1;
                }
                if keys.down && self.level_index < self.level_times.len() - 1 {
                    self.level_index = self.level_index + 1;
                }
                Frame { reset, play: false }
            },
            GameState::Playing => Frame { reset, play: true },
            _ => Frame { reset, play: false },
        }
    }

    /// Takes in how a substep left the level and the bike, and says how it
    /// leaves the attempt.
    ///
    /// Once no star is left the level is completed, and `time` becomes the
    /// level's best time if it beats it. Else, once the bike is destroyed,
    /// the game is over. Outside an attempt nothing happens.
    pub fn substep(&mut self, stars_left: usize, alive: bool, time: LevelTime) -> (outcome: Outcome)
        requires
            old(self)@.wf(),
        ensures
            final(self)@.wf(),
            final(self)@ == old(self)@.after_substep(stars_left as nat, alive, time),
            outcome == old(self)@.outcome(stars_left as nat, alive),
    {
        match self.state {
            GameState::Playing => {
                if stars_left == 0 {
                    self.state = GameState::LevelCompleted;
                    if time.0 < self.level_times[self.level_index].0 {
                        self.level_times.set(self.level_index, time);
                    }
                    Outcome::Completed
                } else if !alive {
                    self.state = GameState::GameOver;
                    Outcome::Crashed
                } else {
                    Outcome::Running
                }
            },
            _ => Outcome::Running,
        }
    }
}

/// The keys never take the choice out of the levels, and neither does a
/// substep.
pub proof fn lemma_choice_stays_in_range(
    game: GameView,
    keys: Keys,
    stars_left: nat,
    alive: bool,
    time: LevelTime,
)
    requires
        game.wf(),
    ensures
        game.after_keys(keys).wf(),
        game.after_substep(stars_left, alive, time).wf(),
{
}

/// A best time only ever gets better, and only that of the level that is
/// played changes.
pub proof fn lemma_best_times_only_improve(
    game: GameView,
    stars_left: nat,
    alive: bool,
    time: LevelTime,
    level: int,
)
    requires
        game.wf(),
        0 <= level < game.level_times.len(),
    ensures
        game.after_substep(stars_left, alive, time).level_times[level].0
            <= game.level_times[level].0,
        level != game.level_index ==> game.after_substep(stars_left, alive, time).level_times[level]
            == game.level_times[level],
{
}

/// An attempt ends in the substep in which the last star is collected or
/// the bike is destroyed, and in no other: as long as a star is left and the
/// bike is in one piece, the session stays as it is.
pub proof fn lemma_attempt_ends_on_last_star_or_crash(
    game: GameView,
    stars_left: nat,
    alive: bool,
    time: LevelTime,
)
    requires
        game.state is Playing,
    ensures
        game.after_substep(stars_left, alive, time).state is Playing <==> stars_left > 0 && alive,
        stars_left > 0 && alive ==> game.after_substep(stars_left, alive, time) == game,
        stars_left == 0 ==> game.after_substep(stars_left, alive, time).state is LevelCompleted,
        stars_left > 0 && !alive ==> game.after_substep(stars_left, alive, time).state is GameOver,
{
}

} // verus!
