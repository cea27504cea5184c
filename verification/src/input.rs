use vstd::prelude::*;
use crate::compass::{random_heading, Direction};

verus! {

/// The keys the simulation reacts to; every other key is `Other`.
#[derive(Debug, Clone, Copy, PartialEq, Eq, Structural)]
pub enum Key {
    Up,
    Down,
    Left,
    Right,
    R,
    D,
    G,
    Space,
    Escape,
    H,
    P,
    Other,
}

/// A keyboard event: a key pressed (possibly repeated by the keyboard) or released.
#[derive(Debug, Clone, Copy, PartialEq, Eq, Structural)]
pub enum KeyEvent {
    KeyDown { key: Key, repeat: bool },
    KeyUp { key: Key },
    Other,
}

/// Actions that can be triggered by input.
#[derive(Debug, Clone, Copy, PartialEq, Eq, Structural)]
pub enum InputAction {
    NoAction,
    SpawnVehicle(Direction),
    ToggleContinuousSpawn(bool),
    ToggleDebugMode(bool),
    ToggleGrid(bool),
    ShowStatistics,
    ShowHelp,
    TogglePause,
    Exit,
}

/// The heading of a vehicle spawned by an arrow key: Up spawns northbound, Down
/// southbound, Left eastbound and Right westbound vehicles.
pub open spec fn arrow_heading(key: Key) -> Option<Direction> {
    match key {
        Key::Up => Some(Direction::North),
        Key::Down => Some(Direction::South),
        Key::Left => Some(Direction::East),
        Key::Right => Some(Direction::West),
        _ => None,
    }
}

/// Index of a key in the pressed-key flags: the four arrows, then R.
pub open spec fn key_slot(key: Key) -> Option<int> {
    match key {
        Key::Up => Some(0),
        Key::Down => Some(1),
        Key::Left => Some(2),
        Key::Right => Some(3),
        Key::R => Some(4),
        _ => None,
    }
}

/// The state of the keyboard as the simulation sees it: which keys are held, the
/// toggles, and the heading of the last arrow pressed. The spawn cooldown is kept by the
/// caller, which says whether a spawn is allowed.
#[derive(Debug, Clone, Copy, PartialEq, Eq)]
pub struct KeyboardState {
    /// Up, Down, Left, Right, R.
    pub key_states: [bool; 5],
    pub continuous_spawn: bool,
    pub last_direction: Option<Direction>,
    pub debug_mode: bool,
    pub show_grid: bool,
}

impl KeyboardState {
    pub fn new() -> (s: KeyboardState)
        ensures
            forall|i: int| 0 <= i < 5 ==> !#[trigger] s.key_states@[i],
            !s.continuous_spawn,
            s.last_direction is None,
            !s.debug_mode,
            !s.show_grid,
    {
        KeyboardState {
            key_states: [false, false, false, false, false],
            continuous_spawn: false,
            last_direction: None,
            debug_mode: false,
            show_grid: false,
        }
    }

    /// Processes one event and returns the action to take. An arrow key press (not a
    /// repeat) is remembered and spawns a vehicle driving the way it points when
    /// `can_spawn`; R, D and G flip their toggle and report its new value; Space, H, P
    /// and Escape ask for the statistics, the help, a pause and the exit. Releasing a key
    /// clears its flag.
    pub fn process_event(&mut self, event: &KeyEvent, can_spawn: bool) -> (a: InputAction)
        ensures
            match *event {
                KeyEvent::KeyDown { key, repeat } => {
                    if repeat {
                        a == InputAction::NoAction && *final(self) == *old(self)
                    } else {
                        match arrow_heading(key) {
                            Some(h) => {
                                &&& final(self).key_states@ == old(self).key_states@.update(
                                    key_slot(key)->0,
                                    true,
                                )
                                &&& final(self).last_direction == Some(h)
                                &&& a == if can_spawn {
                                    InputAction::SpawnVehicle(h)
                                } else {
                                    InputAction::NoAction
                                }
                                &&& final(self).continuous_spawn == old(self).continuous_spawn
                                &&& final(self).debug_mode == old(self).debug_mode
                                &&& final(self).show_grid == old(self).show_grid
                            },
                            None => match key {
                                Key::R => {
                                    &&& final(self).key_states@ == old(self).key_states@.update(4, true)
                                    &&& final(self).continuous_spawn == !old(self).continuous_spawn
                                    &&& a == InputAction::ToggleContinuousSpawn(!old(self).continuous_spawn)
                                    &&& final(self).last_direction == old(self).last_direction
                                    &&& final(self).debug_mode == old(self).debug_mode
                                    &&& final(self).show_grid == old(self).show_grid
                                },
                                Key::D => {
                                    &&& *final(self) == KeyboardState { debug_mode: !old(self).debug_mode, ..*old(self) }
                                    &&& a == InputAction::ToggleDebugMode(!old(self).debug_mode)
                                },
                                Key::G => {
                                    &&& *final(self) == KeyboardState { show_grid: !old(self).show_grid, ..*old(self) }
                                    &&& a == InputAction::ToggleGrid(!old(self).show_grid)
                                },
                                Key::Space => a == InputAction::ShowStatistics && *final(self) == *old(self),
                                Key::Escape => a == InputAction::Exit && *final(self) == *old(self),
                                Key::H => a == InputAction::ShowHelp && *final(self) == *old(self),
                                Key::P => a == InputAction::TogglePause && *final(self) == *old(self),
                                _ => a == InputAction::NoAction && *final(self) == *old(self),
                            },
                        }
                    }
                },
                KeyEvent::KeyUp { key } => {
                    &&& a == InputAction::NoAction
                    &&& match key_slot(key) {
                        Some(i) => final(self).key_states@ == old(self).key_states@.update(i, false),
                        None => final(self).key_states@ == old(self).key_states@,
                    }
                    &&& final(self).continuous_spawn == old(self).continuous_spawn
                    &&& final(self).last_direction == old(self).last_direction
                    &&& final(self).debug_mode == old(self).debug_mode
                    &&& final(self).show_grid == old(self).show_grid
                },
                KeyEvent::Other => a == InputAction::NoAction && *final(self) == *old(self),
            },
    {
        match *event {
            KeyEvent::KeyDown { key, repeat } => {
                if repeat {
                    return InputAction::NoAction;
                }
                match key {
                    Key::Up => self.press_arrow(0, Direction::North, can_spawn),
                    Key::Down => self.press_arrow(1, Direction::South, can_spawn),
                    Key::Left => self.press_arrow(2, Direction::East, can_spawn),
                    Key::Right => self.press_arrow(3, Direction::West, can_spawn),
                    Key::R => {
                        self.key_states[4] = true;
                        self.continuous_spawn = !self.continuous_spawn;
                        InputAction::ToggleContinuousSpawn(self.continuous_spawn)
                    },
                    Key::D => {
                        self.debug_mode = !self.debug_mode;
                        InputAction::ToggleDebugMode(self.debug_mode)
                    },
                    Key::G => {
                        self.show_grid = !self.show_grid;
                        InputAction::ToggleGrid(self.show_grid)
                    },
                    Key::Space => InputAction::ShowStatistics,
                    Key::Escape => InputAction::Exit,
                    Key::H => InputAction::ShowHelp,
                    Key::P => InputAction::TogglePause,
                    Key::Other => InputAction::NoAction,
                }
            },
            KeyEvent::KeyUp { key } => {
                match key {
                    Key::Up => self.key_states[0] = false,
                    Key::Down => self.key_states[1] = false,
                    Key::Left => self.key_states[2] = false,
                    Key::Right => self.key_states[3] = false,
                    Key::R => self.key_states[4] = false,
                    _ => {},
                }
                InputAction::NoAction
            },
            KeyEvent::Other => InputAction::NoAction,
        }
    }

    fn press_arrow(&mut self, slot: usize, heading: Direction, can_spawn: bool) -> (a: InputAction)
        requires
            slot < 4,
        ensures
            final(self).key_states@ == old(self).key_states@.update(slot as int, true),
            final(self).last_direction == Some(heading),
            a == if can_spawn {
                InputAction::SpawnVehicle(heading)
            } else {
                InputAction::NoAction
            },
            final(self).continuous_spawn == old(self).continuous_spawn,
            final(self).debug_mode == old(self).debug_mode,
            final(self).show_grid == old(self).show_grid,
    {
        self.key_states[slot] = true;
        self.last_direction = Some(heading);
        if can_spawn {
            InputAction::SpawnVehicle(heading)
        } else {
            InputAction::NoAction
        }
    }

    pub fn is_continuous_spawn(&self) -> (r: bool)
        ensures
            r == self.continuous_spawn,
    {
        self.continuous_spawn
    }

    /// The heading of the last arrow pressed, or one drawn at random if none was.
    pub fn get_direction(&self) -> (r: Direction)
        ensures
            self.last_direction matches Some(d) ==> r == d,
    {
        if let Some(dir) = self.last_direction {
            dir
        } else {
            self.get_random_direction()
        }
    }

    /// A heading drawn at random, each equally likely.
    pub fn get_random_direction(&self) -> Direction {
        random_heading()
    }

    pub fn is_debug_mode(&self) -> (r: bool)
        ensures
            r == self.debug_mode,
    {
        self.debug_mode
    }

    pub fn is_grid_shown(&self) -> (r: bool)
        ensures
            r == self.show_grid,
    {
        self.show_grid
    }

    /// Whether an arrow key is held.
    pub fn is_any_movement_key_pressed(&self) -> (r: bool)
        ensures
            r == (self.key_states@[0] || self.key_states@[1] || self.key_states@[2]
                || self.key_states@[3]),
    {
        self.key_states[0] || self.key_states[1] || self.key_states[2] || self.key_states[3]
    }

    /// The headings of the arrow keys held, in the order North, South, East, West.
    pub fn get_pressed_keys(&self) -> (r: Vec<Direction>)
        ensures
            r@ == Seq::<Direction>::empty().add(if self.key_states@[0] { seq![Direction::North] } else { seq![] }).add(
                if self.key_states@[1] { seq![Direction::South] } else { seq![] },
            ).add(if self.key_states@[2] { seq![Direction::East] } else { seq![] }).add(
                if self.key_states@[3] { seq![Direction::West] } else { seq![] },
            ),
    {
        let mut pressed: Vec<Direction> = Vec::new();
        if self.key_states[0] {
            pressed.push(Direction::North);
        }
        if self.key_states[1] {
            pressed.push(Direction::South);
        }
        if self.key_states[2] {
            pressed.push(Direction::East);
        }
        if self.key_states[3] {
            pressed.push(Direction::West);
        }
        proof {
            assert(pressed@ =~= Seq::<Direction>::empty().add(if self.key_states@[0] { seq![Direction::North] } else { seq![] }).add(
                if self.key_states@[1] { seq![Direction::South] } else { seq![] },
            ).add(if self.key_states@[2] { seq![Direction::East] } else { seq![] }).add(
                if self.key_states@[3] { seq![Direction::West] } else { seq![] },
            ));
        }
        pressed
    }
}

} // verus!
