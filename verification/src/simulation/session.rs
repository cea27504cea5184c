use vstd::prelude::*;
use crate::direction::Direction;
use crate::input::Key;

verus! {

/// What the main window is doing: whether the statistics are shown (the simulation is
/// then paused) and whether vehicles spawn at random.
#[derive(Debug, Clone, Copy, PartialEq, Eq, Structural)]
pub struct Session {
    pub show_stats: bool,
    pub random_generation: bool,
}

/// What a key press asks of the main loop.
#[derive(Debug, Clone, Copy, PartialEq, Eq, Structural)]
pub enum SessionAction {
    /// Close the window.
    Quit,
    /// Stop the clock and show the statistics.
    ShowStatistics,
    /// Try to spawn a vehicle on this side.
    Spawn(Direction),
    Nothing,
}

/// The session and action after `key` is pressed in `s`. Escape shows the statistics,
/// stopping random spawning, and quits once they are shown. While they are shown every
/// other key is ignored; otherwise an arrow key spawns on its side and R toggles random
/// spawning.
pub open spec fn session_step(s: Session, key: Key) -> (Session, SessionAction) {
    if key == Key::Escape {
        if s.show_stats {
            (s, SessionAction::Quit)
        } else {
            (Session { show_stats: true, random_generation: false }, SessionAction::ShowStatistics)
        }
    } else if s.show_stats {
        (s, SessionAction::Nothing)
    } else {
        match key {
            Key::Up => (s, SessionAction::Spawn(Direction::Up)),
            Key::Down => (s, SessionAction::Spawn(Direction::Down)),
            Key::Left => (s, SessionAction::Spawn(Direction::Left)),
            Key::Right => (s, SessionAction::Spawn(Direction::Right)),
            Key::R => (Session { random_generation: !s.random_generation, ..s }, SessionAction::Nothing),
            _ => (s, SessionAction::Nothing),
        }
    }
}

impl Session {
    /// A session showing the road, with random spawning off.
    pub fn new() -> (s: Session)
        ensures
            !s.show_stats,
            !s.random_generation,
    {
        Session { show_stats: false, random_generation: false }
    }

    /// Applies a key press (see `session_step`) and returns what the main loop must do.
    pub fn on_key(&mut self, key: Key) -> (a: SessionAction)
        ensures
            (*final(self), a) == session_step(*old(self), key),
    {
        if key == Key::Escape {
            if self.show_stats {
                SessionAction::Quit
            } else {
                self.show_stats = true;
                self.random_generation = false;
                SessionAction::ShowStatistics
            }
        } else if self.show_stats {
            SessionAction::Nothing
        } else {
            match key {
                Key::Up => SessionAction::Spawn(Direction::Up),
                Key::Down => SessionAction::Spawn(Direction::Down),
                Key::Left => SessionAction::Spawn(Direction::Left),
                Key::Right => SessionAction::Spawn(Direction::Right),
                Key::R => {
                    self.random_generation = !self.random_generation;
                    SessionAction::Nothing
                },
                _ => SessionAction::Nothing,
            }
        }
    }
}

/// Once the statistics are shown no key changes the session, and no key but Escape (which
/// quits) asks for anything.
pub proof fn lemma_stats_screen_is_final(s: Session, key: Key)
    requires
        s.show_stats,
    ensures
        session_step(s, key).0 == s,
        key == Key::Escape ==> session_step(s, key).1 == SessionAction::Quit,
        key != Key::Escape ==> session_step(s, key).1 == SessionAction::Nothing,
{
}

/// While the road is shown, each arrow key spawns on the side it names and leaves the
/// session as it is.
pub proof fn lemma_arrows_spawn_on_their_side(s: Session)
    requires
        !s.show_stats,
    ensures
        session_step(s, Key::Up) == (s, SessionAction::Spawn(Direction::Up)),
        session_step(s, Key::Down) == (s, SessionAction::Spawn(Direction::Down)),
        session_step(s, Key::Left) == (s, SessionAction::Spawn(Direction::Left)),
        session_step(s, Key::Right) == (s, SessionAction::Spawn(Direction::Right)),
        session_step(s, Key::R) == (Session { show_stats: false, random_generation: !s.random_generation },
            SessionAction::Nothing),
        session_step(s, Key::Escape) == (Session { show_stats: true, random_generation: false },
            SessionAction::ShowStatistics),
        forall|k: Key|
            k != Key::Up && k != Key::Down && k != Key::Left && k != Key::Right && k != Key::R && k
                != Key::Escape ==> #[trigger] session_step(s, k) == (s, SessionAction::Nothing),
{
}

} // verus!
